use elevator::elev_io::{
    Button, ElevIo, Floor, IoError, IoOp, Light, MotorDir, Signal, MOTOR_ADDR, MOTORDIR_ADDR,
    MOTOR_SPEED, N_FLOORS, OBSTR_SENSOR_ADDR, STOP_SENSOR_ADDR,
};

#[test]
fn test_elev_io_init() {
    assert!(ElevIo::new().is_ok(), "ElevIo::new failed");
}

#[test]
fn motor_commands_encode_to_the_motor_registers() {
    let io = ElevIo::new().unwrap();
    assert_eq!(io.set_motor_dir(MotorDir::Stop), vec![IoOp::WriteAnalog(MOTOR_ADDR, 0)]);
    assert_eq!(
        io.set_motor_dir(MotorDir::Up),
        vec![IoOp::ClearBit(MOTORDIR_ADDR), IoOp::WriteAnalog(MOTOR_ADDR, MOTOR_SPEED)]
    );
    assert_eq!(
        io.set_motor_dir(MotorDir::Down),
        vec![IoOp::SetBit(MOTORDIR_ADDR), IoOp::WriteAnalog(MOTOR_ADDR, MOTOR_SPEED)]
    );
}

#[test]
fn button_lamp_addresses_match_the_card() {
    let io = ElevIo::new().unwrap();
    assert_eq!(
        io.set_button_light(Button::CallUp(Floor::At(0)), Light::On),
        Ok(IoOp::SetBit(0x309))
    );
    assert_eq!(
        io.set_button_light(Button::CallUp(Floor::At(2)), Light::Off),
        Ok(IoOp::ClearBit(0x306))
    );
    assert_eq!(
        io.set_button_light(Button::CallDown(Floor::At(3)), Light::On),
        Ok(IoOp::SetBit(0x304))
    );
    assert_eq!(
        io.set_button_light(Button::Internal(Floor::At(1)), Light::On),
        Ok(IoOp::SetBit(0x30c))
    );
}

#[test]
fn buttons_that_do_not_exist_are_rejected() {
    let io = ElevIo::new().unwrap();
    assert_eq!(
        io.set_button_light(Button::CallUp(Floor::At(N_FLOORS - 1)), Light::On),
        Err(IoError::InvalidInput)
    );
    assert_eq!(
        io.set_button_light(Button::CallDown(Floor::At(0)), Light::On),
        Err(IoError::InvalidInput)
    );
    assert_eq!(
        io.set_button_light(Button::Internal(Floor::Between), Light::On),
        Err(IoError::InvalidInput)
    );
    assert_eq!(
        io.get_button_signal(Button::CallUp(Floor::At(N_FLOORS - 1)), 1),
        Err(IoError::InvalidInput)
    );
}

#[test]
fn button_sensor_addresses_match_the_card() {
    let io = ElevIo::new().unwrap();
    assert_eq!(io.button_read_addr(Button::CallUp(Floor::At(0))), Ok(0x311));
    assert_eq!(io.button_read_addr(Button::CallUp(Floor::At(2))), Ok(0x201));
    assert_eq!(io.button_read_addr(Button::CallDown(Floor::At(1))), Ok(0x200));
    assert_eq!(io.button_read_addr(Button::Internal(Floor::At(3))), Ok(0x312));
    assert_eq!(STOP_SENSOR_ADDR, 0x316);
    assert_eq!(OBSTR_SENSOR_ADDR, 0x317);
}

#[test]
fn floor_signal_decodes_to_the_first_high_sensor() {
    let io = ElevIo::new().unwrap();
    assert_eq!(io.get_floor_signal(&vec![0, 0, 1, 0]), Floor::At(2));
    assert_eq!(io.get_floor_signal(&vec![1, 0, 0, 1]), Floor::At(0));
    assert_eq!(io.get_floor_signal(&vec![0, 0, 0, 0]), Floor::Between);
    assert_eq!(io.floor_sensor_addr(0), 0x204);
    assert_eq!(io.floor_sensor_addr(3), 0x207);
}

#[test]
fn floor_light_encodes_the_floor_in_two_bits() {
    let io = ElevIo::new().unwrap();
    assert_eq!(
        io.set_floor_light(Floor::At(0)).unwrap(),
        vec![IoOp::ClearBit(0x300), IoOp::ClearBit(0x301)]
    );
    assert_eq!(
        io.set_floor_light(Floor::At(2)).unwrap(),
        vec![IoOp::SetBit(0x300), IoOp::ClearBit(0x301)]
    );
    assert_eq!(
        io.set_floor_light(Floor::At(3)).unwrap(),
        vec![IoOp::SetBit(0x300), IoOp::SetBit(0x301)]
    );
    assert!(io.set_floor_light(Floor::Between).is_err());
    assert!(io.set_floor_light(Floor::At(N_FLOORS)).is_err());
}

#[test]
fn set_all_light_touches_every_lamp_once() {
    let io = ElevIo::new().unwrap();
    let ops = io.set_all_light(Light::Off);
    // 3 up lamps + 3 down lamps + 4 internal lamps + stop + door.
    assert_eq!(ops.len(), 12);
    for op in &ops {
        assert!(matches!(op, IoOp::ClearBit(_)));
    }
    let ops_on = io.set_all_light(Light::On);
    assert_eq!(ops_on.len(), 12);
    for op in &ops_on {
        assert!(matches!(op, IoOp::SetBit(_)));
    }
}

#[test]
fn signals_decode_nonzero_as_high() {
    let io = ElevIo::new().unwrap();
    assert_eq!(Signal::new(0), Signal::Low);
    assert_eq!(Signal::new(7), Signal::High);
    assert_eq!(io.get_stop_signal(1), Signal::High);
    assert_eq!(io.get_obstr_signal(0), Signal::Low);
}
