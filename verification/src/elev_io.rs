//! Command encoding for the cabin's memory-mapped hardware.
//!
//! The hardware card exposes digital and analog registers: motor speed and
//! direction, button and floor lamps, and sensor bits. Touching those
//! registers is I/O and happens outside this crate; here every operation is
//! encoded as a value of [`IoOp`] naming the register address, and every
//! sensor read is decoded from the raw register value, so the address
//! tables and bit patterns are checked once and for all.

use vstd::prelude::*;

verus! {

/// Number of floors served by every cabin, numbered `0 .. N_FLOORS - 1`.
pub const N_FLOORS: usize = 4;

/// Analog register driving the motor.
pub const MOTOR_ADDR: usize = 0x100;

/// Digital register selecting the motor direction.
pub const MOTORDIR_ADDR: usize = 0x30f;

/// Analog value written to run the motor.
pub const MOTOR_SPEED: usize = 2800;

/// Digital register of the door light.
pub const DOOR_LIGHT_ADDR: usize = 0x303;

/// Digital register of the stop light.
pub const STOP_LIGHT_ADDR: usize = 0x30e;

/// Digital register holding the stop-button sensor bit.
pub const STOP_SENSOR_ADDR: usize = 0x316;

/// Digital register holding the obstruction sensor bit.
pub const OBSTR_SENSOR_ADDR: usize = 0x317;

/// A cabin position as the floor sensor reports it.
#[derive(Copy, Clone, PartialEq, Eq, Structural, Debug)]
pub enum Floor {
    At(usize),
    Between,
}

/// One of the three kinds of call button, carrying the floor it sits on.
#[derive(Copy, Clone, PartialEq, Eq, Structural, Debug)]
pub enum Button {
    CallUp(Floor),
    CallDown(Floor),
    Internal(Floor),
}

/// A motor command. `Stop` is only ever a command, never a stored
/// travel direction.
#[derive(Copy, Clone, PartialEq, Eq, Structural, Debug)]
pub enum MotorDir {
    Up,
    Down,
    Stop,
}

/// Lamp state.
#[derive(Copy, Clone, PartialEq, Eq, Structural, Debug)]
pub enum Light {
    On,
    Off,
}

/// A digital sensor reading.
#[derive(Copy, Clone, PartialEq, Eq, Structural, Debug)]
pub enum Signal {
    High,
    Low,
}

/// One register operation for the driver to perform.
#[derive(Copy, Clone, PartialEq, Eq, Structural, Debug)]
pub enum IoOp {
    SetBit(usize),
    ClearBit(usize),
    WriteAnalog(usize, usize),
}

/// Rejection of a request that names no physical register, such as the
/// up button on the top floor.
#[derive(Copy, Clone, PartialEq, Eq, Structural, Debug)]
pub enum IoError {
    InvalidInput,
}

impl Signal {
    /// Decode a raw register read: any non-zero value counts as `High`.
    pub fn new(value: usize) -> (s: Signal)
        ensures
            s == (if value == 0 { Signal::Low } else { Signal::High }),
    {
        if value == 0 {
            Signal::Low
        } else {
            Signal::High
        }
    }
}

/// A button names a physical register only on the floors where it exists:
/// there is no up button on the top floor and no down button on floor 0.
pub open spec fn spec_button_valid(button: Button) -> bool {
    match button {
        Button::CallUp(Floor::At(f)) => f < N_FLOORS - 1,
        Button::CallDown(Floor::At(f)) => 1 <= f && f < N_FLOORS,
        Button::Internal(Floor::At(f)) => f < N_FLOORS,
        _ => false,
    }
}

/// Lamp register of a button, for valid buttons.
pub open spec fn spec_button_light_addr(button: Button) -> usize {
    match button {
        Button::CallUp(Floor::At(f)) => if f == 0 {
            0x309
        } else if f == 1 {
            0x308
        } else {
            0x306
        },
        Button::CallDown(Floor::At(f)) => if f == 1 {
            0x307
        } else if f == 2 {
            0x305
        } else {
            0x304
        },
        Button::Internal(Floor::At(f)) => if f == 0 {
            0x30d
        } else if f == 1 {
            0x30c
        } else if f == 2 {
            0x30b
        } else {
            0x30a
        },
        _ => 0,
    }
}

/// Sensor register of a button, for valid buttons.
pub open spec fn spec_button_read_addr(button: Button) -> usize {
    match button {
        Button::CallUp(Floor::At(f)) => if f == 0 {
            0x311
        } else if f == 1 {
            0x310
        } else {
            0x201
        },
        Button::CallDown(Floor::At(f)) => if f == 1 {
            0x200
        } else if f == 2 {
            0x202
        } else {
            0x203
        },
        Button::Internal(Floor::At(f)) => if f == 0 {
            0x315
        } else if f == 1 {
            0x314
        } else if f == 2 {
            0x313
        } else {
            0x312
        },
        _ => 0,
    }
}

/// Floor sensor register of each floor.
pub open spec fn spec_floor_sensor_addr(floor: int) -> usize {
    (0x204 + floor) as usize
}

/// The register write that drives a lamp to the wanted state.
pub open spec fn spec_light_op(addr: usize, mode: Light) -> IoOp {
    match mode {
        Light::On => IoOp::SetBit(addr),
        Light::Off => IoOp::ClearBit(addr),
    }
}

/// The register writes that make up one motor command.
pub open spec fn spec_motor_ops(dir: MotorDir) -> Seq<IoOp> {
    match dir {
        MotorDir::Stop => seq![IoOp::WriteAnalog(MOTOR_ADDR, 0)],
        MotorDir::Up => seq![IoOp::ClearBit(MOTORDIR_ADDR), IoOp::WriteAnalog(MOTOR_ADDR, MOTOR_SPEED)],
        MotorDir::Down => seq![IoOp::SetBit(MOTORDIR_ADDR), IoOp::WriteAnalog(MOTOR_ADDR, MOTOR_SPEED)],
    }
}

/// The two-bit binary encoding of a floor number on the floor indicator.
pub open spec fn spec_floor_light_ops(f: int) -> Seq<IoOp> {
    seq![
        if f == 2 || f == 3 { IoOp::SetBit(0x300) } else { IoOp::ClearBit(0x300) },
        if f == 1 || f == 3 { IoOp::SetBit(0x301) } else { IoOp::ClearBit(0x301) },
    ]
}

/// The lamp writes of `set_all_light` for one floor: up and down lamps
/// where the buttons exist, then the cabin's internal lamp.
pub open spec fn spec_all_light_ops_for_floor(f: int, mode: Light) -> Seq<IoOp> {
    let up = if f != N_FLOORS - 1 {
        seq![spec_light_op(spec_button_light_addr(Button::CallUp(Floor::At(f as usize))), mode)]
    } else {
        Seq::<IoOp>::empty()
    };
    let down = if f != 0 {
        seq![spec_light_op(spec_button_light_addr(Button::CallDown(Floor::At(f as usize))), mode)]
    } else {
        Seq::<IoOp>::empty()
    };
    up + down + seq![spec_light_op(spec_button_light_addr(Button::Internal(Floor::At(f as usize))), mode)]
}

/// The lamp writes of `set_all_light` for floors `0 .. n`.
pub open spec fn spec_all_light_ops_upto(n: int, mode: Light) -> Seq<IoOp>
    decreases n,
{
    if n <= 0 {
        Seq::<IoOp>::empty()
    } else {
        spec_all_light_ops_upto(n - 1, mode) + spec_all_light_ops_for_floor(n - 1, mode)
    }
}

/// Encoder for the cabin hardware: each method yields the register
/// operations of one driver call, or decodes one raw sensor value.
pub struct ElevIo {
}

impl ElevIo {
    /// The driver connection itself lives outside this crate; the encoder
    /// needs no state, so construction always succeeds.
    pub fn new() -> (r: Result<ElevIo, IoError>)
        ensures
            r is Ok,
    {
        Ok(ElevIo {  })
    }

    /// Register writes for one motor command.
    pub fn set_motor_dir(&self, dir: MotorDir) -> (ops: Vec<IoOp>)
        ensures
            ops@ == spec_motor_ops(dir),
    {
        let mut ops: Vec<IoOp> = Vec::new();
        match dir {
            MotorDir::Stop => {
                ops.push(IoOp::WriteAnalog(MOTOR_ADDR, 0));
            },
            MotorDir::Up => {
                ops.push(IoOp::ClearBit(MOTORDIR_ADDR));
                ops.push(IoOp::WriteAnalog(MOTOR_ADDR, MOTOR_SPEED));
            },
            MotorDir::Down => {
                ops.push(IoOp::SetBit(MOTORDIR_ADDR));
                ops.push(IoOp::WriteAnalog(MOTOR_ADDR, MOTOR_SPEED));
            },
        }
        proof {
            assert(ops@ =~= spec_motor_ops(dir));
        }
        ops
    }

    /// Lamp write for one button, rejected where the button does not exist.
    pub fn set_button_light(&self, button: Button, mode: Light) -> (r: Result<IoOp, IoError>)
        ensures
            r is Ok <==> spec_button_valid(button),
            spec_button_valid(button) ==> r == Ok::<IoOp, IoError>(
                spec_light_op(spec_button_light_addr(button), mode),
            ),
            !spec_button_valid(button) ==> r == Err::<IoOp, IoError>(IoError::InvalidInput),
    {
        let addr = match self.button_light_addr(button) {
            Ok(a) => a,
            Err(e) => {
                return Err(e);
            },
        };
        match mode {
            Light::On => Ok(IoOp::SetBit(addr)),
            Light::Off => Ok(IoOp::ClearBit(addr)),
        }
    }

    /// Lamp register of a button, rejected where the button does not exist.
    pub fn button_light_addr(&self, button: Button) -> (r: Result<usize, IoError>)
        ensures
            r is Ok <==> spec_button_valid(button),
            spec_button_valid(button) ==> r == Ok::<usize, IoError>(spec_button_light_addr(button)),
            !spec_button_valid(button) ==> r == Err::<usize, IoError>(IoError::InvalidInput),
    {
        match button {
            Button::CallUp(Floor::At(f)) if f < N_FLOORS - 1 => Ok(
                if f == 0 {
                    0x309
                } else if f == 1 {
                    0x308
                } else {
                    0x306
                },
            ),
            Button::CallDown(Floor::At(f)) if 1 <= f && f < N_FLOORS => Ok(
                if f == 1 {
                    0x307
                } else if f == 2 {
                    0x305
                } else {
                    0x304
                },
            ),
            Button::Internal(Floor::At(f)) if f < N_FLOORS => Ok(
                if f == 0 {
                    0x30d
                } else if f == 1 {
                    0x30c
                } else if f == 2 {
                    0x30b
                } else {
                    0x30a
                },
            ),
            _ => Err(IoError::InvalidInput),
        }
    }

    /// Sensor register of a button, rejected where the button does not exist.
    pub fn button_read_addr(&self, button: Button) -> (r: Result<usize, IoError>)
        ensures
            r is Ok <==> spec_button_valid(button),
            spec_button_valid(button) ==> r == Ok::<usize, IoError>(spec_button_read_addr(button)),
            !spec_button_valid(button) ==> r == Err::<usize, IoError>(IoError::InvalidInput),
    {
        match button {
            Button::CallUp(Floor::At(f)) if f < N_FLOORS - 1 => Ok(
                if f == 0 {
                    0x311
                } else if f == 1 {
                    0x310
                } else {
                    0x201
                },
            ),
            Button::CallDown(Floor::At(f)) if 1 <= f && f < N_FLOORS => Ok(
                if f == 1 {
                    0x200
                } else if f == 2 {
                    0x202
                } else {
                    0x203
                },
            ),
            Button::Internal(Floor::At(f)) if f < N_FLOORS => Ok(
                if f == 0 {
                    0x315
                } else if f == 1 {
                    0x314
                } else if f == 2 {
                    0x313
                } else {
                    0x312
                },
            ),
            _ => Err(IoError::InvalidInput),
        }
    }

    /// Decode a button sensor bit read from [`Self::button_read_addr`],
    /// rejected where the button does not exist.
    pub fn get_button_signal(&self, button: Button, raw: usize) -> (r: Result<Signal, IoError>)
        ensures
            r is Ok <==> spec_button_valid(button),
            spec_button_valid(button) ==> r == Ok::<Signal, IoError>(
                if raw == 0 { Signal::Low } else { Signal::High },
            ),
            !spec_button_valid(button) ==> r == Err::<Signal, IoError>(IoError::InvalidInput),
    {
        match self.button_read_addr(button) {
            Ok(_) => Ok(Signal::new(raw)),
            Err(e) => Err(e),
        }
    }

    /// Floor sensor register of one floor.
    pub fn floor_sensor_addr(&self, floor: usize) -> (r: usize)
        requires
            floor < N_FLOORS,
        ensures
            r == spec_floor_sensor_addr(floor as int),
    {
        0x204 + floor
    }

    /// Decode the floor sensor bits, one raw read per floor in floor
    /// order: the cabin is at the first floor whose sensor reads
    /// non-zero, and between floors when none does.
    pub fn get_floor_signal(&self, readings: &Vec<usize>) -> (r: Floor)
        requires
            readings@.len() == N_FLOORS,
        ensures
            match r {
                Floor::At(f) => f < N_FLOORS && readings@[f as int] != 0 && (forall|j: int|
                    0 <= j < f ==> readings@[j] == 0),
                Floor::Between => forall|j: int| 0 <= j < N_FLOORS ==> readings@[j] == 0,
            },
    {
        let mut floor: usize = 0;
        while floor < N_FLOORS
            invariant
                floor <= N_FLOORS,
                readings@.len() == N_FLOORS,
                forall|j: int| 0 <= j < floor ==> readings@[j] == 0,
            decreases N_FLOORS - floor,
        {
            if readings[floor] != 0 {
                return Floor::At(floor);
            }
            floor = floor + 1;
        }
        Floor::Between
    }

    /// Decode the stop-button sensor bit.
    pub fn get_stop_signal(&self, raw: usize) -> (s: Signal)
        ensures
            s == (if raw == 0 { Signal::Low } else { Signal::High }),
    {
        Signal::new(raw)
    }

    /// Decode the obstruction sensor bit.
    pub fn get_obstr_signal(&self, raw: usize) -> (s: Signal)
        ensures
            s == (if raw == 0 { Signal::Low } else { Signal::High }),
    {
        Signal::new(raw)
    }

    /// Register writes for the floor indicator: the floor number in two
    /// bits, rejected between floors and above the top floor.
    pub fn set_floor_light(&self, floor: Floor) -> (r: Result<Vec<IoOp>, IoError>)
        ensures
            r is Ok <==> matches!(floor, Floor::At(f) if f < N_FLOORS),
            (match floor {
                Floor::At(f) => f < N_FLOORS ==> (r matches Ok(ops) && ops@ == spec_floor_light_ops(f as int)),
                Floor::Between => true,
            }),
    {
        match floor {
            Floor::At(f) => {
                if f >= N_FLOORS {
                    return Err(IoError::InvalidInput);
                }
                let mut ops: Vec<IoOp> = Vec::new();
                if f >= 2 {
                    ops.push(IoOp::SetBit(0x300));
                } else {
                    ops.push(IoOp::ClearBit(0x300));
                }
                if f % 2 == 1 {
                    ops.push(IoOp::SetBit(0x301));
                } else {
                    ops.push(IoOp::ClearBit(0x301));
                }
                proof {
                    assert(ops@ =~= spec_floor_light_ops(f as int));
                }
                Ok(ops)
            },
            Floor::Between => Err(IoError::InvalidInput),
        }
    }

    /// Lamp write for the door light.
    pub fn set_door_light(&self, mode: Light) -> (op: IoOp)
        ensures
            op == spec_light_op(DOOR_LIGHT_ADDR, mode),
    {
        match mode {
            Light::On => IoOp::SetBit(DOOR_LIGHT_ADDR),
            Light::Off => IoOp::ClearBit(DOOR_LIGHT_ADDR),
        }
    }

    /// Lamp write for the stop light.
    pub fn set_stop_light(&self, mode: Light) -> (op: IoOp)
        ensures
            op == spec_light_op(STOP_LIGHT_ADDR, mode),
    {
        match mode {
            Light::On => IoOp::SetBit(STOP_LIGHT_ADDR),
            Light::Off => IoOp::ClearBit(STOP_LIGHT_ADDR),
        }
    }

    /// Lamp writes that drive every button lamp, the stop light and the
    /// door light to one state, in floor order.
    pub fn set_all_light(&self, mode: Light) -> (ops: Vec<IoOp>)
        ensures
            ops@ == spec_all_light_ops_upto(N_FLOORS as int, mode) + seq![
                spec_light_op(STOP_LIGHT_ADDR, mode),
                spec_light_op(DOOR_LIGHT_ADDR, mode),
            ],
    {
        let mut ops: Vec<IoOp> = Vec::new();
        let mut floor: usize = 0;
        while floor < N_FLOORS
            invariant
                floor <= N_FLOORS,
                ops@ == spec_all_light_ops_upto(floor as int, mode),
            decreases N_FLOORS - floor,
        {
            let ghost ops_before = ops@;
            if floor != N_FLOORS - 1 {
                let op = self.set_button_light(Button::CallUp(Floor::At(floor)), mode).unwrap();
                ops.push(op);
            }
            if floor != 0 {
                let op = self.set_button_light(Button::CallDown(Floor::At(floor)), mode).unwrap();
                ops.push(op);
            }
            let op = self.set_button_light(Button::Internal(Floor::At(floor)), mode).unwrap();
            ops.push(op);
            proof {
                assert(ops@ =~= ops_before + spec_all_light_ops_for_floor(floor as int, mode));
            }
            floor = floor + 1;
        }
        let stop_op = self.set_stop_light(mode);
        ops.push(stop_op);
        let door_op = self.set_door_light(mode);
        ops.push(door_op);
        proof {
            assert(ops@ =~= spec_all_light_ops_upto(N_FLOORS as int, mode) + seq![
                spec_light_op(STOP_LIGHT_ADDR, mode),
                spec_light_op(DOOR_LIGHT_ADDR, mode),
            ]);
        }
        ops
    }
}

} // verus!
