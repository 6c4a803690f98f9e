use motor_shield_control::motor::{Direction, Motor, MotorConfig, MotorError, Status};

#[test]
fn test_motor_pin_setting() {
    let mut motor = Motor::new();
    let _ = motor.set_pin(16);
}

#[test]
fn new_motor_defaults() {
    let motor = Motor::new();
    assert_eq!(motor.get_direction(), Direction::Clockwise);
    assert_eq!(motor.get_status(), Status::Idle);
    assert!(!motor.is_running());
    assert!(!motor.has_pin());
}

#[test]
fn invert_twice_restores_direction() {
    let mut motor = Motor::new();
    motor.invert_direction();
    assert_eq!(motor.get_direction(), Direction::Counterclockwise);
    motor.invert_direction();
    assert_eq!(motor.get_direction(), Direction::Clockwise);
}

#[test]
fn status_decides_running() {
    let mut motor = Motor::new();
    motor.set_status(Status::Running);
    assert!(motor.is_running());
    motor.set_status(Status::PWM);
    assert!(motor.is_running());
    motor.set_status(Status::Idle);
    assert!(!motor.is_running());
}

#[test]
fn motor_without_pin_cannot_start_or_stop() {
    let mut motor = Motor::new();
    assert_eq!(motor.start(MotorConfig::new_full()), Err(MotorError::PinNotSet));
    assert_eq!(motor.stop(), Err(MotorError::PinNotSet));
    assert_eq!(motor.test_range(20000, 2000, 20000, 2000), Err(MotorError::PinNotSet));
    assert_eq!(motor.get_status(), Status::Idle);
}

#[test]
fn pwm_config_bounds() {
    assert!(MotorConfig::new_pwm(20000, 10000).is_ok());
    assert!(MotorConfig::new_pwm(20000, 20000).is_ok());
    assert!(MotorConfig::new_pwm(0, 0).is_ok());
    assert!(matches!(
        MotorConfig::new_pwm(10000, 10001),
        Err(MotorError::PWMDurationTooHigh)
    ));
}
