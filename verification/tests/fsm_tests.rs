use elevator::elev_io::{Button, Floor, Light, MotorDir};
use elevator::elevator_fsm::{
    Elevator, ElevatorCommand, State, DOOR_TIMER_MS, STUCK_TIMER_MS,
};
use elevator::request::{Request, RequestStatus, RequestType};
use elevator::request_handler::BroadcastMessage;

fn cabin(ip: &str) -> Elevator {
    Elevator::new(String::from(ip), 1000)
}

fn req(t: RequestType, floor: usize, status: RequestStatus) -> Request {
    Request { floor, request_type: t, status, acknowledged_by: Vec::new() }
}

#[test]
fn initialisation_homes_the_cabin() {
    let e = cabin("10.0.0.2");
    assert_eq!(e.current_floor, 0);
    assert_eq!(e.current_direction, MotorDir::Down);
    assert_eq!(e.state, State::Idle);
    assert_eq!(e.door_timer.duration_ms, DOOR_TIMER_MS);
    assert_eq!(e.stuck_timer.duration_ms, STUCK_TIMER_MS);
    assert_eq!(e.stuck_timer.deadline_ms, 1000 + STUCK_TIMER_MS);
}

#[test]
fn the_direction_is_never_stored_as_stop() {
    let mut e = cabin("10.0.0.2");
    assert_ne!(e.current_direction, MotorDir::Stop);
    // Ride through a turn-around and a full stop; the stored direction
    // stays Up or Down throughout.
    e.request_handler.set_request(req(RequestType::CallUp, 2, RequestStatus::Active));
    e.event_at_floor(0, 1100);
    assert_ne!(e.current_direction, MotorDir::Stop);
    e.event_running(); // moving up
    e.event_at_floor(1, 1200);
    assert_ne!(e.current_direction, MotorDir::Stop);
    e.event_at_floor(2, 1300); // stops and opens the door here
    assert_ne!(e.current_direction, MotorDir::Stop);
    e.event_doors_should_close();
    e.event_at_floor(2, 5000); // no orders anywhere: motor stop command
    assert_ne!(e.current_direction, MotorDir::Stop);
}

#[test]
fn running_and_idle_follow_the_floor_sensor() {
    let mut e = cabin("10.0.0.2");
    e.event_running();
    assert_eq!(e.state, State::Running);
    e.event_at_floor(0, 1100);
    assert_eq!(e.state, State::Idle);
}

#[test]
fn the_door_closes_only_when_open() {
    let mut e = cabin("10.0.0.2");
    assert_eq!(e.event_doors_should_close(), None);
    e.request_handler.set_request(req(RequestType::Internal, 0, RequestStatus::Active));
    e.event_at_floor(0, 1100);
    assert_eq!(e.state, State::DoorOpen);
    assert_eq!(
        e.event_doors_should_close(),
        Some(ElevatorCommand::SetDoorLight(Light::Off))
    );
    assert_eq!(e.state, State::Idle);
}

#[test]
fn an_arrival_with_no_orders_stops_the_motor() {
    let mut e = cabin("10.0.0.2");
    let step = e.event_at_floor(0, 1100);
    assert_eq!(
        step.commands,
        vec![
            ElevatorCommand::SetFloorLight(0),
            ElevatorCommand::SetMotorDir(MotorDir::Stop),
        ]
    );
    assert!(step.messages.is_empty());
    assert_eq!(e.state, State::Idle);
}

#[test]
fn an_internal_press_activates_locally_without_broadcast() {
    // An isolated single node: the internal cell goes active at once,
    // the lamp lights immediately, and nothing is put on the wire.
    let mut e = cabin("10.0.0.2");
    let button = Button::Internal(Floor::At(3));
    let step = e.event_new_floor_order(button);
    assert_eq!(
        step.commands,
        vec![ElevatorCommand::SetButtonLight(button, Light::On)]
    );
    assert!(step.messages.is_empty());
    assert_eq!(
        e.request_handler.get_request(RequestType::Internal, 3).status,
        RequestStatus::Active
    );
}

#[test]
fn an_isolated_cabin_services_its_internal_call() {
    let mut e = cabin("10.0.0.2");
    e.event_new_floor_order(Button::Internal(Floor::At(3)));

    // At floor 0 heading down: the call above turns the cabin around.
    e.event_at_floor(0, 1100);
    assert_eq!(e.current_direction, MotorDir::Up);
    let step = e.event_at_floor(0, 1150);
    assert_eq!(
        step.commands,
        vec![
            ElevatorCommand::SetFloorLight(0),
            ElevatorCommand::SetMotorDir(MotorDir::Up),
        ]
    );
    e.event_running();
    e.event_at_floor(1, 1200);
    e.event_running();
    e.event_at_floor(2, 1300);
    e.event_running();

    // Arrival at the ordered floor: door opens, lamps clear, and the
    // cleared internal cell goes on the wire. Heading up at the top
    // floor there is no hall cell, so one message only.
    let step = e.event_at_floor(3, 1400);
    assert_eq!(e.state, State::DoorOpen);
    assert_eq!(step.messages.len(), 1);
    let cleared = match &step.messages[0] {
        BroadcastMessage::RequestMessage(r) => r.clone(),
        BroadcastMessage::Position(_) => panic!("expected a request message"),
    };
    assert_eq!(cleared.request_type, RequestType::Internal);
    assert_eq!(cleared.floor, 3);
    assert_eq!(cleared.status, RequestStatus::Inactive);
    assert_eq!(
        step.commands,
        vec![
            ElevatorCommand::SetFloorLight(3),
            ElevatorCommand::SetMotorDir(MotorDir::Stop),
            ElevatorCommand::SetDoorLight(Light::On),
            ElevatorCommand::SetButtonLight(Button::Internal(Floor::At(3)), Light::Off),
        ]
    );

    // The node hears its own broadcast: the cell clears, lamp off.
    let cmd = e.event_request_message(&cleared, String::from("10.0.0.2"));
    assert_eq!(
        cmd,
        Some(ElevatorCommand::SetButtonLight(
            Button::Internal(Floor::At(3)),
            Light::Off
        ))
    );
    assert_eq!(
        e.request_handler.get_request(RequestType::Internal, 3).status,
        RequestStatus::Inactive
    );
}

#[test]
fn serving_a_hall_call_clears_it_on_every_node() {
    // One cabin rides up to an active up call, opens its door there and
    // broadcasts the cell cleared; a peer merges the broadcast, turns
    // its lamp off and drops the call.
    let mut a = cabin("10.0.0.2");
    a.request_handler.set_request(req(RequestType::CallUp, 2, RequestStatus::Active));
    a.event_at_floor(0, 1100); // turn around: the call is above
    assert_eq!(e_dir(&a), MotorDir::Up);
    a.event_running();
    a.event_at_floor(1, 1200);
    a.event_running();
    let step = a.event_at_floor(2, 1300);
    assert_eq!(a.state, State::DoorOpen);
    assert_eq!(a.door_timer.deadline_ms, 1300 + DOOR_TIMER_MS);
    assert_eq!(step.messages.len(), 2);
    let hall_cleared = match &step.messages[1] {
        BroadcastMessage::RequestMessage(r) => r.clone(),
        BroadcastMessage::Position(_) => panic!("expected a request message"),
    };
    assert_eq!(hall_cleared.request_type, RequestType::CallUp);
    assert_eq!(hall_cleared.status, RequestStatus::Inactive);

    let mut b = cabin("10.0.0.3");
    b.request_handler.set_request(req(RequestType::CallUp, 2, RequestStatus::Active));
    let cmd = b.event_request_message(&hall_cleared, String::from("10.0.0.2"));
    assert_eq!(
        cmd,
        Some(ElevatorCommand::SetButtonLight(
            Button::CallUp(Floor::At(2)),
            Light::Off
        ))
    );
    assert_eq!(
        b.request_handler.get_request(RequestType::CallUp, 2).status,
        RequestStatus::Inactive
    );
}

fn e_dir(e: &Elevator) -> MotorDir {
    e.current_direction
}

#[test]
fn a_hall_press_goes_on_the_wire_and_comes_back_active() {
    // Two cabins; a press on one side reaches the other as pending
    // gossip and the echoes promote it to active, lighting both lamps.
    let peer_list = vec![String::from("10.0.0.2:1"), String::from("10.0.0.3:7")];
    let mut a = cabin("10.0.0.2");
    a.request_handler.peers = peer_list.clone();
    let mut b = cabin("10.0.0.3");
    b.request_handler.peers = peer_list;

    let step = a.event_new_floor_order(Button::CallUp(Floor::At(2)));
    assert!(step.commands.is_empty());
    assert_eq!(step.messages.len(), 1);
    let wire = match &step.messages[0] {
        BroadcastMessage::RequestMessage(r) => r.clone(),
        BroadcastMessage::Position(_) => panic!("expected a request message"),
    };

    assert_eq!(b.event_request_message(&wire, String::from("10.0.0.2")), None);
    assert_eq!(
        b.request_handler.get_request(RequestType::CallUp, 2).status,
        RequestStatus::Pending
    );
    assert_eq!(a.event_request_message(&wire, String::from("10.0.0.2")), None);
    assert_eq!(a.event_request_message(&wire, String::from("10.0.0.2")), None);
    let cmd = a.event_request_message(&wire, String::from("10.0.0.3"));
    assert_eq!(
        cmd,
        Some(ElevatorCommand::SetButtonLight(
            Button::CallUp(Floor::At(2)),
            Light::On
        ))
    );
    assert_eq!(
        a.request_handler.get_request(RequestType::CallUp, 2).status,
        RequestStatus::Active
    );
}

#[test]
fn pressing_buttons_without_a_landing_does_nothing() {
    let mut e = cabin("10.0.0.2");
    let step = e.event_new_floor_order(Button::CallUp(Floor::At(3)));
    assert!(step.commands.is_empty());
    assert!(step.messages.is_empty());
    let step = e.event_new_floor_order(Button::CallDown(Floor::At(0)));
    assert!(step.commands.is_empty());
    assert!(step.messages.is_empty());
}

#[test]
fn the_stuck_watchdog_fires_after_five_seconds_between_floors() {
    // The cabin leaves floor 1 but never reaches the next floor: the
    // watchdog fires just past its deadline and the motor is stopped.
    // The node then terminates; its supervisor restarts it.
    let mut e = cabin("10.0.0.2");
    e.request_handler.set_request(req(RequestType::Internal, 3, RequestStatus::Active));
    e.event_at_floor(1, 2000);
    e.event_running();
    assert!(!e.stuck_timer.timeout(2000 + STUCK_TIMER_MS));
    assert!(e.stuck_timer.timeout(2000 + STUCK_TIMER_MS + 1));
    assert_eq!(e.event_stuck(), ElevatorCommand::SetMotorDir(MotorDir::Stop));
}

#[test]
fn arrivals_rearm_the_stuck_watchdog() {
    let mut e = cabin("10.0.0.2");
    e.event_at_floor(0, 10_000);
    assert_eq!(e.stuck_timer.deadline_ms, 10_000 + STUCK_TIMER_MS);
    e.event_running();
    e.event_at_floor(1, 12_000);
    assert_eq!(e.stuck_timer.deadline_ms, 12_000 + STUCK_TIMER_MS);
}

#[test]
fn position_reports_feed_the_assignment() {
    let mut e = cabin("10.0.0.2");
    e.event_position_message(String::from("10.0.0.3"), 2);
    assert_eq!(e.request_handler.peer_positions, vec![(String::from("10.0.0.3"), 2)]);
    e.event_position_message(String::from("10.0.0.3"), 3);
    assert_eq!(e.request_handler.peer_positions, vec![(String::from("10.0.0.3"), 3)]);
}
