use motor_shield_control::board::{serial_levels, AMSBoard, BoardError, BoardType};
use motor_shield_control::motor::{Direction, Motor, MotorError, Status};

#[test]
fn set_m1direction_test() {
    let mut board = AMSBoard::new(BoardType::BCM);
    let motor = Motor::new();
    let _ = board.set_motor(motor, 1);
    let direction: u8 = board.calculate_directions();
    assert_eq!(4, direction);
    match board.get_motor(1) {
        Ok(m) => m.set_direction(Direction::Counterclockwise),
        Err(e) => panic!("{:?}", e),
    }
    let direction: u8 = board.calculate_directions();
    assert_eq!(8, direction);
}

#[test]
fn set_m2direction_test() {
    let mut board = AMSBoard::new(BoardType::BCM);
    let motor = Motor::new();
    let _ = board.set_motor(motor, 2);
    let direction: u8 = board.calculate_directions();
    assert_eq!(2, direction);
    match board.get_motor(2) {
        Ok(m) => m.set_direction(Direction::Counterclockwise),
        Err(e) => panic!("{:?}", e),
    }
    let direction: u8 = board.calculate_directions();
    assert_eq!(16, direction);
}

#[test]
fn set_m3direction_test() {
    let mut board = AMSBoard::new(BoardType::BCM);
    let motor = Motor::new();
    let _ = board.set_motor(motor, 3);
    let direction: u8 = board.calculate_directions();
    assert_eq!(1, direction);
    match board.get_motor(3) {
        Ok(m) => m.set_direction(Direction::Counterclockwise),
        Err(e) => panic!("{:?}", e),
    }
    let direction: u8 = board.calculate_directions();
    assert_eq!(64, direction);
}

#[test]
fn set_m4direction_test() {
    let mut board = AMSBoard::new(BoardType::BCM);
    let motor = Motor::new();
    let _ = board.set_motor(motor, 4);
    let direction: u8 = board.calculate_directions();
    assert_eq!(32, direction);
    match board.get_motor(4) {
        Ok(m) => m.set_direction(Direction::Counterclockwise),
        Err(e) => panic!("{:?}", e),
    }
    let direction: u8 = board.calculate_directions();
    assert_eq!(128, direction);
}

#[test]
fn composite_direction_test() {
    let mut board = AMSBoard::new(BoardType::BCM);
    let motor4 = Motor::new();
    let _ = board.set_motor(motor4, 4);
    let motor2 = Motor::new();
    let _ = board.set_motor(motor2, 2);
    let direction: u8 = board.calculate_directions();
    assert_eq!(0b00100010, direction);
}

#[test]
fn all_motor_clockwise_test() {
    let mut board = AMSBoard::new(BoardType::BCM);
    let motor1 = Motor::new();
    let _ = board.set_motor(motor1, 1);
    let motor2 = Motor::new();
    let _ = board.set_motor(motor2, 2);
    let motor3 = Motor::new();
    let _ = board.set_motor(motor3, 3);
    let motor4 = Motor::new();
    let _ = board.set_motor(motor4, 4);
    let direction: u8 = board.calculate_directions();
    assert_eq!(0b00100111, direction);
}

#[test]
fn all_motor_cclockwise_test() {
    let mut board = AMSBoard::new(BoardType::BCM);
    let mut motor1 = Motor::new();
    motor1.set_direction(Direction::Counterclockwise);
    let _ = board.set_motor(motor1, 1);
    let mut motor2 = Motor::new();
    motor2.set_direction(Direction::Counterclockwise);
    let _ = board.set_motor(motor2, 2);
    let mut motor3 = Motor::new();
    motor3.set_direction(Direction::Counterclockwise);
    let _ = board.set_motor(motor3, 3);
    let mut motor4 = Motor::new();
    motor4.set_direction(Direction::Counterclockwise);
    let _ = board.set_motor(motor4, 4);
    let direction: u8 = board.calculate_directions();
    assert_eq!(0b11011000, direction);
}

#[test]
fn start_wrong_motor_error_test() {
    let mut board = AMSBoard::new(BoardType::BCM);
    assert!(board.start_motor_full(1).is_err());
}

#[test]
fn get_wrong_motor_error_test() {
    let mut board = AMSBoard::new(BoardType::BCM);
    assert!(board.get_motor(1).is_err());
}

#[test]
fn wrong_motor_index_error_test() {
    let mut board = AMSBoard::new(BoardType::BCM);
    assert!(board.get_motor(5).is_err());
    assert!(board.get_motor(0).is_err());

    let motor = Motor::new();
    let _ = board.set_motor(motor, 2);
    assert!(board.get_motor(2).is_ok());
}

#[test]
fn motor_direction_invert_test() {
    let mut board = AMSBoard::new(BoardType::BCM);
    let mut motor = Motor::new();
    let _ = motor.set_pin(16);
    let _ = board.set_motor(motor, 1);
    board.invert_motor_direction(1);
    let m: &Motor = board.get_motor(1).unwrap();
    assert!(matches!(m.get_direction(), Direction::Counterclockwise));
}

#[test]
fn pre_setting_values() {
    let mut board: AMSBoard = AMSBoard::new(BoardType::BCM);
    let mut m1: Motor = Motor::new();
    m1.set_direction(Direction::Counterclockwise);
    let _ = board.set_motor(m1, 1);
    assert_eq!(8, board.get_directions());
}

#[test]
fn post_setting_values() {
    let mut board: AMSBoard = AMSBoard::new(BoardType::BCM);
    let m1: Motor = Motor::new();
    let _ = board.set_motor(m1, 1);
    let _ = board.change_motor_direction(1, Direction::Counterclockwise);
    assert_eq!(8, board.get_directions());

    let m2: Motor = Motor::new();
    let _ = board.set_motor(m2, 2);
    assert_eq!(10, board.get_directions());
}

#[test]
fn test_motor_changed_direction() {
    let mut board = AMSBoard::new(BoardType::BCM);
    let motor = Motor::new();
    let _ = board.set_motor(motor, 1);
    board.get_motor(1).as_mut().unwrap().set_direction(Direction::Counterclockwise);
    let _ = board.start_motor_full(1);
    assert!(matches!(
        board.get_motor(1).as_mut().unwrap().get_direction(),
        Direction::Counterclockwise
    ));
}

#[test]
fn test_motor_default_direction() {
    let mut board = AMSBoard::new(BoardType::BCM);
    let motor = Motor::new();
    let _ = board.set_motor(motor, 1);
    let _ = board.start_motor_full(1);
    assert!(matches!(
        board.get_motor(1).as_mut().unwrap().get_direction(),
        Direction::Clockwise
    ));
}

#[test]
fn test_unset_motor() {
    let mut board = AMSBoard::new(BoardType::BCM);
    let result = board.start_motor_full(1);
    assert!(result.is_err());
}

#[test]
fn slot_one_clockwise_then_counterclockwise() {
    let mut board = AMSBoard::new(BoardType::BCM);
    assert_eq!(board.set_motor(Motor::new(), 1), Ok(true));
    assert_eq!(board.get_directions(), 4);
    assert_eq!(board.change_motor_direction(1, Direction::Counterclockwise), Ok(()));
    assert_eq!(board.get_directions(), 8);
    board.invert_motor_direction(1);
    assert_eq!(board.get_directions(), 4);
}

#[test]
fn slots_two_and_four_clockwise() {
    let mut board = AMSBoard::new(BoardType::BCM);
    let _ = board.set_motor(Motor::new(), 2);
    let _ = board.set_motor(Motor::new(), 4);
    assert_eq!(board.get_directions(), 34);
}

#[test]
fn all_slots_counterclockwise_cached() {
    let mut board = AMSBoard::new(BoardType::BCM);
    for n in 1..5 {
        let _ = board.set_motor(Motor::new(), n);
        assert_eq!(board.change_motor_direction(n, Direction::Counterclockwise), Ok(()));
    }
    assert_eq!(board.get_directions(), 216);
}

#[test]
fn mixed_directions_are_ored() {
    let mut board = AMSBoard::new(BoardType::BCM);
    let mut m1 = Motor::new();
    m1.set_direction(Direction::Counterclockwise);
    let _ = board.set_motor(m1, 1);
    let _ = board.set_motor(Motor::new(), 3);
    let mut m4 = Motor::new();
    m4.set_direction(Direction::Counterclockwise);
    let _ = board.set_motor(m4, 4);
    assert_eq!(board.get_directions(), 8 | 1 | 128);
}

#[test]
fn fill_order_does_not_change_byte() {
    let mut a = AMSBoard::new(BoardType::BCM);
    let mut b = AMSBoard::new(BoardType::BCM);
    let mut m = Motor::new();
    m.set_direction(Direction::Counterclockwise);
    let _ = a.set_motor(m, 2);
    let _ = a.set_motor(Motor::new(), 3);
    let _ = b.set_motor(Motor::new(), 3);
    let mut m = Motor::new();
    m.set_direction(Direction::Counterclockwise);
    let _ = b.set_motor(m, 2);
    assert_eq!(a.get_directions(), b.get_directions());
    assert_eq!(a.get_directions(), 16 | 1);
}

#[test]
fn replacing_a_motor_recomputes_byte() {
    let mut board = AMSBoard::new(BoardType::BCM);
    let _ = board.set_motor(Motor::new(), 3);
    assert_eq!(board.get_directions(), 1);
    let mut m = Motor::new();
    m.set_direction(Direction::Counterclockwise);
    let _ = board.set_motor(m, 3);
    assert_eq!(board.get_directions(), 64);
}

#[test]
fn change_direction_twice_is_idempotent() {
    let mut board = AMSBoard::new(BoardType::BCM);
    let _ = board.set_motor(Motor::new(), 2);
    let _ = board.set_motor(Motor::new(), 1);
    assert_eq!(board.change_motor_direction(2, Direction::Counterclockwise), Ok(()));
    let first = board.get_directions();
    let first_bits = serial_levels(first);
    assert_eq!(board.change_motor_direction(2, Direction::Counterclockwise), Ok(()));
    assert_eq!(board.get_directions(), first);
    assert_eq!(serial_levels(board.get_directions()), first_bits);
    assert_eq!(first, 16 | 4);
}

#[test]
fn serial_levels_are_msb_first() {
    assert_eq!(
        serial_levels(0b1011_0001),
        vec![true, false, true, true, false, false, false, true]
    );
    assert_eq!(serial_levels(4), vec![false, false, false, false, false, true, false, false]);
    assert_eq!(serial_levels(0), vec![false; 8]);
    assert_eq!(serial_levels(255), vec![true; 8]);
}

#[test]
fn start_on_empty_slot_is_an_index_error() {
    let mut board = AMSBoard::new(BoardType::BCM);
    assert_eq!(
        board.start_motor_full(1),
        Err(BoardError::MotorError(MotorError::MotorNotFound))
    );
    assert_eq!(
        board.start_motor_full(5),
        Err(BoardError::MotorError(MotorError::MotorIndexOutOfBounds))
    );
    assert_eq!(
        board.start_motor_full(0),
        Err(BoardError::MotorError(MotorError::MotorIndexOutOfBounds))
    );
}

#[test]
fn push_without_register_lines_is_a_configuration_error() {
    let mut board = AMSBoard::new(BoardType::BCM);
    assert_eq!(board.update_shift_register(), Err(BoardError::RegisterPinNotSet));
    let _ = board.set_motor(Motor::new(), 1);
    assert_eq!(board.start_motor_full(1), Err(BoardError::RegisterPinNotSet));
    assert_eq!(
        board.start_motor_pwm(1, 20000, 10000),
        Err(BoardError::RegisterPinNotSet)
    );
}

#[test]
fn pwm_width_above_period_is_refused() {
    let mut board = AMSBoard::new(BoardType::BCM);
    let _ = board.set_motor(Motor::new(), 1);
    assert_eq!(
        board.start_motor_pwm(1, 10000, 20000),
        Err(BoardError::MotorError(MotorError::PWMDurationTooHigh))
    );
}

#[test]
fn stop_errors() {
    let mut board = AMSBoard::new(BoardType::BCM);
    assert_eq!(
        board.stop_motor(9),
        Err(BoardError::MotorError(MotorError::MotorIndexOutOfBounds))
    );
    assert_eq!(
        board.stop_motor(2),
        Err(BoardError::MotorError(MotorError::MotorNotFound))
    );
    let _ = board.set_motor(Motor::new(), 2);
    assert_eq!(
        board.stop_motor(2),
        Err(BoardError::MotorError(MotorError::PinNotSet))
    );
    assert_eq!(board.get_motor(2).unwrap().get_status(), Status::Idle);
}

#[test]
fn direction_change_errors() {
    let mut board = AMSBoard::new(BoardType::BCM);
    assert_eq!(
        board.change_motor_direction(0, Direction::Clockwise),
        Err(MotorError::MotorIndexOutOfBounds)
    );
    assert_eq!(
        board.change_motor_direction(3, Direction::Clockwise),
        Err(MotorError::MotorNotFound)
    );
    assert_eq!(board.set_motor(Motor::new(), 0).err(), Some(MotorError::MotorIndexOutOfBounds));
    board.invert_motor_direction(3);
    board.invert_motor_direction(7);
    assert_eq!(board.get_directions(), 0);
}

#[test]
fn direction_set_through_get_motor_counts() {
    let mut board = AMSBoard::new(BoardType::BCM);
    let _ = board.set_motor(Motor::new(), 4);
    assert_eq!(board.get_directions(), 32);
    board.get_motor(4).unwrap().set_direction(Direction::Counterclockwise);
    assert_eq!(board.get_directions(), 128);
    assert_eq!(board.calculate_directions(), 128);
    assert_eq!(board.start_motor_full(4), Err(BoardError::RegisterPinNotSet));
    assert_eq!(board.get_directions(), 128);
}

// The next two need the GPIO lines of a Raspberry Pi; without them the pins
// cannot be acquired and the test ends there.
#[test]
fn motor_is_running_test() {
    let mut board = AMSBoard::new(BoardType::BCM);
    let mut motor = Motor::new();

    if motor.set_pin(21).is_err() {
        return;
    }
    if board.set_shift_register_pins(16, 20, 19).is_err() {
        return;
    }
    let _ = board.set_motor(motor, 1);
    let _ = board.start_motor_full(1);
    match board.get_motor(1) {
        Ok(m) => assert_eq!(m.is_running(), true),
        Err(e) => panic!("{:?}", e),
    }

    let _ = board.stop_motor(1);
    match board.get_motor(1) {
        Ok(m) => assert_eq!(m.is_running(), false),
        Err(e) => panic!("{:?}", e),
    }

    let _ = board.start_motor_pwm(1, 20000, 10000);
    match board.get_motor(1) {
        Ok(m) => assert_eq!(m.is_running(), true),
        Err(e) => panic!("{:?}", e),
    }
}

#[test]
fn test_motor_range() {
    let mut board = AMSBoard::new(BoardType::BCM);
    let mut motor = Motor::new();
    if motor.set_pin(16).is_err() {
        return;
    }
    let _ = board.set_motor(motor, 1);
    let cycle: u64 = 20000;
    let low: u64 = 2000;
    let up: u64 = 20000;
    let step: u64 = 2000;
    let mut next = Some(low);
    while let Some(width) = next {
        next = board.test_motor_range(1, cycle, width, up, step).unwrap();
    }
}

#[test]
fn range_step_errors() {
    let mut board = AMSBoard::new(BoardType::BCM);
    assert_eq!(
        board.test_motor_range(1, 20000, 2000, 20000, 2000),
        Err(BoardError::MotorError(MotorError::MotorNotFound))
    );
    assert_eq!(
        board.test_motor_range(6, 20000, 2000, 20000, 2000),
        Err(BoardError::MotorError(MotorError::MotorIndexOutOfBounds))
    );
    let _ = board.set_motor(Motor::new(), 1);
    assert_eq!(
        board.test_motor_range(1, 20000, 2000, 20000, 2000),
        Err(BoardError::MotorError(MotorError::PinNotSet))
    );
}

#[test]
fn test_motor_status() {
    let mut board = AMSBoard::new(BoardType::BCM);
    let mut motor = Motor::new();
    let _ = motor.set_pin(16);
    let _ = board.set_motor(motor, 1);
    // No register lines are bound: the start is refused and nothing moves.
    assert_eq!(board.start_motor_full(1), Err(BoardError::RegisterPinNotSet));
    assert!(matches!(board.get_motor(1).as_mut().unwrap().get_status(), Status::Idle));
}
