//! The per-cabin motion state machine.
//!
//! The cabin is `Idle`, `Running` between floors, or standing with the
//! door open. Events — a floor sensor reading, a button press, an
//! incoming broadcast, a timer — drive the machine; each event returns
//! the hardware commands to perform and the messages to broadcast, so
//! the whole decision logic is checked while the driver and the socket
//! stay outside.
//!
//! The stored travel direction is only ever `Up` or `Down`; `Stop` is a
//! motor command, never a direction. Arriving at a floor re-arms the
//! stuck watchdog: a moving cabin proves itself alive by reaching
//! floors.

use vstd::prelude::*;
use crate::elev_io::{spec_button_valid, Button, Floor, Light, MotorDir, N_FLOORS};
use crate::request::{Request, RequestStatus, RequestType};
use crate::request_handler::{
    spec_hall_button, spec_illegal_cell, spec_is_cleared_msg, spec_kind_index, spec_lookup,
    spec_merge_cell, spec_opposite, fresh_table, BroadcastMessage, RequestHandler,
};
use crate::peer::views_of;
use crate::timer::Timer;

verus! {

/// Door dwell: how long the door stays open at a served floor.
pub const DOOR_TIMER_MS: u64 = 2000;

/// Stuck watchdog: how long the cabin may go without reaching a floor.
pub const STUCK_TIMER_MS: u64 = 5000;

/// The three motion states of a cabin.
#[derive(Copy, Clone, PartialEq, Eq, Structural, Debug)]
pub enum State {
    Idle,
    Running,
    DoorOpen,
}

/// One hardware command for the driver to perform.
#[derive(Copy, Clone, PartialEq, Eq, Structural, Debug)]
pub enum ElevatorCommand {
    SetMotorDir(MotorDir),
    SetButtonLight(Button, Light),
    SetFloorLight(usize),
    SetDoorLight(Light),
}

/// What one event asks of the outside: hardware commands in order, and
/// messages to put on the broadcast channel.
pub struct FsmStep {
    pub commands: Vec<ElevatorCommand>,
    pub messages: Vec<BroadcastMessage>,
}

/// The button that a request cell lights.
pub open spec fn spec_button_for(t: RequestType, floor: usize) -> Button {
    match t {
        RequestType::CallUp => Button::CallUp(Floor::At(floor)),
        RequestType::CallDown => Button::CallDown(Floor::At(floor)),
        RequestType::Internal => Button::Internal(Floor::At(floor)),
    }
}

/// Exec twin of [`spec_button_for`].
fn button_for(t: RequestType, floor: usize) -> (b: Button)
    ensures
        b == spec_button_for(t, floor),
{
    match t {
        RequestType::CallUp => Button::CallUp(Floor::At(floor)),
        RequestType::CallDown => Button::CallDown(Floor::At(floor)),
        RequestType::Internal => Button::Internal(Floor::At(floor)),
    }
}

/// One cabin: its motion state, its replicated request state, and the
/// two deadline timers.
pub struct Elevator {
    pub current_floor: usize,
    pub current_direction: MotorDir,
    pub state: State,
    pub request_handler: RequestHandler,
    pub door_timer: Timer,
    pub stuck_timer: Timer,
}

impl Elevator {
    /// Soundness of a cabin: a real floor, a travel direction that is
    /// never `Stop`, and a sound request table.
    pub open spec fn wf(&self) -> bool {
        &&& self.current_floor < N_FLOORS
        &&& !(self.current_direction is Stop)
        &&& self.request_handler.wf()
    }

    /// A cabin as initialisation leaves it: homed at floor 0 with the
    /// direction stored as `Down`, idle, with a fresh table and both
    /// timers armed at `now_ms`. The homing drive itself — motor down
    /// until the floor-0 sensor answers — happens outside, before this
    /// state is built.
    pub fn new(local_ip: String, now_ms: u64) -> (e: Elevator)
        requires
            now_ms + STUCK_TIMER_MS <= u64::MAX,
        ensures
            e.wf(),
            e.current_floor == 0,
            e.current_direction is Down,
            e.state is Idle,
            e.request_handler.acks_clean(),
            e.request_handler.illegal_inactive(),
            fresh_table(e.request_handler.requests@),
            e.request_handler.peers@.len() == 0,
            e.request_handler.positions_view().len() == 0,
            e.request_handler.local_ip == local_ip,
            e.door_timer.duration_ms == DOOR_TIMER_MS,
            e.door_timer.deadline_ms == now_ms + DOOR_TIMER_MS,
            e.stuck_timer.duration_ms == STUCK_TIMER_MS,
            e.stuck_timer.deadline_ms == now_ms + STUCK_TIMER_MS,
    {
        Elevator {
            current_floor: 0,
            current_direction: MotorDir::Down,
            state: State::Idle,
            request_handler: RequestHandler::new(local_ip),
            door_timer: Timer::new(DOOR_TIMER_MS, now_ms),
            stuck_timer: Timer::new(STUCK_TIMER_MS, now_ms),
        }
    }

    /// The floor sensor reads `Between`: an idle cabin is now running.
    pub fn event_running(&mut self)
        ensures
            *final(self) == (Elevator {
                state: if old(self).state is Idle {
                    State::Running
                } else {
                    old(self).state
                },
                ..*old(self)
            }),
    {
        if matches!(self.state, State::Idle) {
            self.state = State::Running;
        }
    }

    /// The door timer fired: close the door if it was open.
    pub fn event_doors_should_close(&mut self) -> (cmd: Option<ElevatorCommand>)
        ensures
            old(self).state is DoorOpen ==> (*final(self) == (Elevator {
                state: State::Idle,
                ..*old(self)
            }) && cmd == Some(ElevatorCommand::SetDoorLight(Light::Off))),
            !(old(self).state is DoorOpen) ==> (*final(self) == *old(self) && cmd is None),
    {
        if matches!(self.state, State::DoorOpen) {
            self.state = State::Idle;
            Some(ElevatorCommand::SetDoorLight(Light::Off))
        } else {
            None
        }
    }

    /// Drive one button lamp.
    pub fn event_update_button_light(&mut self, button: Button, mode: Light) -> (cmd:
        ElevatorCommand)
        ensures
            *final(self) == *old(self),
            cmd == ElevatorCommand::SetButtonLight(button, mode),
    {
        ElevatorCommand::SetButtonLight(button, mode)
    }

    /// The stuck watchdog fired: stop the motor. The caller treats this
    /// as fatal and terminates the node.
    pub fn event_stuck(&self) -> (cmd: ElevatorCommand)
        ensures
            cmd == ElevatorCommand::SetMotorDir(MotorDir::Stop),
    {
        ElevatorCommand::SetMotorDir(MotorDir::Stop)
    }

    /// A peer reported its cabin position.
    pub fn event_position_message(&mut self, remote_ip: String, position: usize)
        requires
            old(self).wf(),
        ensures
            final(self).wf(),
            final(self).current_floor == old(self).current_floor,
            final(self).current_direction == old(self).current_direction,
            final(self).state == old(self).state,
            final(self).door_timer == old(self).door_timer,
            final(self).stuck_timer == old(self).stuck_timer,
            final(self).request_handler.requests == old(self).request_handler.requests,
            final(self).request_handler.peers == old(self).request_handler.peers,
            final(self).request_handler.local_ip == old(self).request_handler.local_ip,
            forall|x: Seq<char>|
                #[trigger] spec_lookup(final(self).request_handler.positions_view(), x) == (if x
                    == remote_ip@ {
                    Some(position as int)
                } else {
                    spec_lookup(old(self).request_handler.positions_view(), x)
                }),
    {
        self.request_handler.handle_position_update(remote_ip, position);
    }

    /// An incoming request cell: merge it and drive the hall lamp the
    /// hint names — on when the call went active, off when it was
    /// cleared.
    pub fn event_request_message(&mut self, message: &Request, remote_ip: String) -> (cmd: Option<
        ElevatorCommand,
    >)
        requires
            old(self).wf(),
        ensures
            final(self).wf(),
            final(self).current_floor == old(self).current_floor,
            final(self).current_direction == old(self).current_direction,
            final(self).state == old(self).state,
            final(self).door_timer == old(self).door_timer,
            final(self).stuck_timer == old(self).stuck_timer,
            final(self).request_handler.peers == old(self).request_handler.peers,
            final(self).request_handler.peer_positions == old(self).request_handler.peer_positions,
            final(self).request_handler.local_ip == old(self).request_handler.local_ip,
            (message.floor >= N_FLOORS || spec_illegal_cell(
                message.request_type,
                message.floor as int,
            )) ==> (final(self).request_handler.requests == old(self).request_handler.requests
                && cmd is None),
            (message.floor < N_FLOORS && !spec_illegal_cell(
                message.request_type,
                message.floor as int,
            )) ==> ({
                let k = spec_kind_index(message.request_type);
                let f = message.floor as int;
                let c0 = old(self).request_handler.cell(k, f);
                let t = spec_merge_cell(
                    c0.status,
                    c0.acks(),
                    message.status,
                    message.acks(),
                    remote_ip@,
                    views_of(old(self).request_handler.peers@),
                );
                let c1 = final(self).request_handler.cell(k, f);
                &&& c1.status == t.0
                &&& c1.acks() == t.1
                &&& cmd == (match t.2 {
                    Some(l) => Some(
                        ElevatorCommand::SetButtonLight(
                            spec_button_for(message.request_type, message.floor),
                            l,
                        ),
                    ),
                    None => None,
                })
                &&& forall|k2: int, f2: int|
                    0 <= k2 < 3 && 0 <= f2 < N_FLOORS && !(k2 == k && f2 == f)
                        ==> final(self).request_handler.cell(k2, f2) == old(self).request_handler.cell(k2, f2)
            }),
            old(self).request_handler.illegal_inactive() ==> final(self).request_handler.illegal_inactive(),
            old(self).request_handler.acks_clean() && message.acks_no_dup() ==> final(self).request_handler.acks_clean(),
    {
        let result = self.request_handler.merge_incoming_request(message, remote_ip);
        let button = button_for(message.request_type, message.floor);
        match result {
            Some(Light::On) => Some(ElevatorCommand::SetButtonLight(button, Light::On)),
            Some(Light::Off) => Some(ElevatorCommand::SetButtonLight(button, Light::Off)),
            None => None,
        }
    }

    /// A button was pressed. An internal button activates this cabin's
    /// own cell at once and lights its lamp — internal calls are never
    /// transmitted. A hall button only goes on the wire as a `Pending`
    /// broadcast; its cell and its lamp change when the gossip comes
    /// back. The two buttons that no landing has yield nothing at all.
    pub fn event_new_floor_order(&mut self, button: Button) -> (step: FsmStep)
        requires
            old(self).wf(),
        ensures
            final(self).wf(),
            final(self).current_floor == old(self).current_floor,
            final(self).current_direction == old(self).current_direction,
            final(self).state == old(self).state,
            final(self).door_timer == old(self).door_timer,
            final(self).stuck_timer == old(self).stuck_timer,
            final(self).request_handler.peers == old(self).request_handler.peers,
            final(self).request_handler.peer_positions == old(self).request_handler.peer_positions,
            final(self).request_handler.local_ip == old(self).request_handler.local_ip,
            (match button {
                Button::Internal(Floor::At(f)) => {
                    if f < N_FLOORS {
                        let c = final(self).request_handler.cell(2, f as int);
                        &&& c.status == RequestStatus::Active
                        &&& c.acknowledged_by@.len() == 0
                        &&& forall|k2: int, f2: int|
                            0 <= k2 < 3 && 0 <= f2 < N_FLOORS && !(k2 == 2 && f2 == f)
                                ==> final(self).request_handler.cell(k2, f2) == old(self).request_handler.cell(k2, f2)
                        &&& step.commands@ == seq![
                            ElevatorCommand::SetButtonLight(button, Light::On),
                        ]
                        &&& step.messages@.len() == 0
                    } else {
                        final(self).request_handler.requests == old(self).request_handler.requests
                            && step.commands@.len() == 0 && step.messages@.len() == 0
                    }
                },
                _ => {
                    &&& final(self).request_handler.requests == old(self).request_handler.requests
                    &&& step.commands@.len() == 0
                    &&& (match spec_hall_button(button) {
                        Some(p) => step.messages@.len() == 1 && (step.messages@[0] matches
                            BroadcastMessage::RequestMessage(r) && r.request_type == p.0 && r.floor
                            == p.1 && r.status == RequestStatus::Pending && r.acknowledged_by@.len()
                            == 0),
                        None => step.messages@.len() == 0,
                    })
                },
            }),
            old(self).request_handler.illegal_inactive() ==> final(self).request_handler.illegal_inactive(),
            old(self).request_handler.acks_clean() ==> final(self).request_handler.acks_clean(),
    {
        let mut commands: Vec<ElevatorCommand> = Vec::new();
        let mut messages: Vec<BroadcastMessage> = Vec::new();
        match button {
            Button::Internal(Floor::At(f)) => {
                if f < N_FLOORS {
                    self.request_handler.set_request(
                        Request {
                            floor: f,
                            request_type: RequestType::Internal,
                            status: RequestStatus::Active,
                            acknowledged_by: Vec::new(),
                        },
                    );
                    commands.push(ElevatorCommand::SetButtonLight(button, Light::On));
                    proof {
                        assert(commands@ =~= seq![
                            ElevatorCommand::SetButtonLight(button, Light::On),
                        ]);
                    }
                }
            },
            _ => {
                match self.request_handler.announce_new_request(&button) {
                    Some(m) => {
                        messages.push(m);
                    },
                    None => {},
                }
            },
        }
        FsmStep { commands, messages }
    }

    /// The floor sensor reads a floor. The watchdog is re-armed — the
    /// cabin demonstrably moves — and a running cabin settles to idle.
    /// An idle cabin lights the floor indicator, adopts the floor, and
    /// decides: stop here and open the door, announcing the served
    /// cells cleared; or carry on; or turn around; or, with no orders
    /// anywhere, stop the motor and wait. A cabin standing with its
    /// door open only re-arms the watchdog.
    pub fn event_at_floor(&mut self, floor: usize, now_ms: u64) -> (step: FsmStep)
        requires
            old(self).wf(),
            floor < N_FLOORS,
            now_ms + STUCK_TIMER_MS <= u64::MAX,
            old(self).stuck_timer.duration_ms == STUCK_TIMER_MS,
            old(self).door_timer.duration_ms == DOOR_TIMER_MS,
        ensures
            final(self).wf(),
            final(self).request_handler == old(self).request_handler,
            final(self).stuck_timer.duration_ms == old(self).stuck_timer.duration_ms,
            final(self).stuck_timer.deadline_ms == now_ms + STUCK_TIMER_MS,
            final(self).door_timer.duration_ms == old(self).door_timer.duration_ms,
            old(self).state is DoorOpen ==> ({
                &&& final(self).state is DoorOpen
                &&& final(self).current_floor == old(self).current_floor
                &&& final(self).current_direction == old(self).current_direction
                &&& final(self).door_timer == old(self).door_timer
                &&& step.commands@.len() == 0
                &&& step.messages@.len() == 0
            }),
            !(old(self).state is DoorOpen) ==> ({
                let h = old(self).request_handler;
                let dir = old(self).current_direction;
                &&& final(self).current_floor == floor
                &&& (if h.spec_should_stop(floor as int, dir) {
                    let hall_t = if dir is Up {
                        RequestType::CallUp
                    } else {
                        RequestType::CallDown
                    };
                    let hall_button = spec_button_for(hall_t, floor);
                    &&& final(self).state is DoorOpen
                    &&& final(self).current_direction == dir
                    &&& final(self).door_timer.deadline_ms == now_ms + DOOR_TIMER_MS
                    &&& spec_is_cleared_msg(step.messages@[0], RequestType::Internal, floor as int)
                    &&& (if spec_illegal_cell(hall_t, floor as int) {
                        step.messages@.len() == 1
                    } else {
                        step.messages@.len() == 2 && spec_is_cleared_msg(
                            step.messages@[1],
                            hall_t,
                            floor as int,
                        )
                    })
                    &&& (if spec_button_valid(hall_button) {
                        step.commands@ =~= seq![
                            ElevatorCommand::SetFloorLight(floor),
                            ElevatorCommand::SetMotorDir(MotorDir::Stop),
                            ElevatorCommand::SetDoorLight(Light::On),
                            ElevatorCommand::SetButtonLight(
                                Button::Internal(Floor::At(floor)),
                                Light::Off,
                            ),
                            ElevatorCommand::SetButtonLight(hall_button, Light::Off),
                        ]
                    } else {
                        step.commands@ =~= seq![
                            ElevatorCommand::SetFloorLight(floor),
                            ElevatorCommand::SetMotorDir(MotorDir::Stop),
                            ElevatorCommand::SetDoorLight(Light::On),
                            ElevatorCommand::SetButtonLight(
                                Button::Internal(Floor::At(floor)),
                                Light::Off,
                            ),
                        ]
                    })
                } else {
                    &&& final(self).state is Idle
                    &&& final(self).door_timer == old(self).door_timer
                    &&& step.messages@.len() == 0
                    &&& (if h.spec_requests_in_direction(floor as int, dir) {
                        final(self).current_direction == dir && step.commands@ =~= seq![
                            ElevatorCommand::SetFloorLight(floor),
                            ElevatorCommand::SetMotorDir(dir),
                        ]
                    } else if h.spec_should_change_direction(floor as int, dir) {
                        final(self).current_direction == spec_opposite(dir) && step.commands@
                            =~= seq![ElevatorCommand::SetFloorLight(floor)]
                    } else {
                        final(self).current_direction == dir && step.commands@ =~= seq![
                            ElevatorCommand::SetFloorLight(floor),
                            ElevatorCommand::SetMotorDir(MotorDir::Stop),
                        ]
                    })
                })
            }),
    {
        self.stuck_timer.start(now_ms);
        if matches!(self.state, State::Running) {
            self.state = State::Idle;
        }
        let mut commands: Vec<ElevatorCommand> = Vec::new();
        let mut messages: Vec<BroadcastMessage> = Vec::new();
        if matches!(self.state, State::Idle) {
            commands.push(ElevatorCommand::SetFloorLight(floor));
            self.current_floor = floor;
            if self.request_handler.should_stop(floor, self.current_direction) {
                self.state = State::DoorOpen;
                messages = self.request_handler.announce_requests_cleared(
                    floor,
                    self.current_direction,
                );
                commands.push(ElevatorCommand::SetMotorDir(MotorDir::Stop));
                commands.push(ElevatorCommand::SetDoorLight(Light::On));
                commands.push(
                    ElevatorCommand::SetButtonLight(Button::Internal(Floor::At(floor)), Light::Off),
                );
                let hall_button = match self.current_direction {
                    MotorDir::Up => Button::CallUp(Floor::At(floor)),
                    MotorDir::Down => Button::CallDown(Floor::At(floor)),
                    MotorDir::Stop => Button::Internal(Floor::At(floor)),
                };
                let valid = match hall_button {
                    Button::CallUp(Floor::At(f)) => f < N_FLOORS - 1,
                    Button::CallDown(Floor::At(f)) => f >= 1,
                    _ => false,
                };
                if valid {
                    commands.push(ElevatorCommand::SetButtonLight(hall_button, Light::Off));
                }
                self.door_timer.start(now_ms);
            } else {
                if self.request_handler.should_continue(floor, self.current_direction) {
                    commands.push(ElevatorCommand::SetMotorDir(self.current_direction));
                } else if self.request_handler.should_change_direction(
                    floor,
                    self.current_direction,
                ) {
                    let opposite = match self.current_direction {
                        MotorDir::Down => MotorDir::Up,
                        MotorDir::Up => MotorDir::Down,
                        MotorDir::Stop => MotorDir::Stop,
                    };
                    self.current_direction = opposite;
                } else {
                    commands.push(ElevatorCommand::SetMotorDir(MotorDir::Stop));
                }
            }
        }
        FsmStep { commands, messages }
    }
}

} // verus!
