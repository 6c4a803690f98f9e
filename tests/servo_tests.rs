use motor_shield_control::servo::{
    ServoConfig, ServoError, MAX_WIDTH_US, MIN_WIDTH_US, PULSE_CYCLE_US,
};

#[test]
fn angle_boundaries() {
    assert_eq!(ServoConfig::calc_width_from_angle(0), MIN_WIDTH_US);
    assert_eq!(ServoConfig::calc_width_from_angle(180), MAX_WIDTH_US);
    assert_eq!(ServoConfig::calc_width_from_angle(90), (MIN_WIDTH_US + MAX_WIDTH_US) / 2);
    assert_eq!(ServoConfig::calc_width_from_angle(90), 1500);
}

#[test]
fn angle_scenarios() {
    assert_eq!(ServoConfig::calc_width_from_angle(52), 1288);
    assert_eq!(ServoConfig::calc_width_from_angle(134), 1744);
    assert_eq!(ServoConfig::calc_width_from_angle(1), 1005);
}

#[test]
fn config_from_angle() {
    let cfg = ServoConfig::new_config_from_angle(52);
    assert!(cfg.is_ok());
    assert!(matches!(ServoConfig::new_config_from_angle(181), Err(ServoError::AngleOutOfRange)));
    assert!(ServoConfig::new_config_from_angle(180).is_ok());
}

#[test]
fn config_from_width() {
    assert!(ServoConfig::new_config_from_width(MIN_WIDTH_US).is_ok());
    assert!(ServoConfig::new_config_from_width(MAX_WIDTH_US).is_ok());
    assert!(matches!(
        ServoConfig::new_config_from_width(MIN_WIDTH_US - 1),
        Err(ServoError::WidthOutOfRange)
    ));
    assert!(matches!(
        ServoConfig::new_config_from_width(MAX_WIDTH_US + 1),
        Err(ServoError::WidthOutOfRange)
    ));
    assert!(matches!(ServoConfig::new(0), Err(ServoError::WidthOutOfRange)));
}

#[test]
fn default_config_is_neutral() {
    let _cfg = ServoConfig::new_default();
    assert_eq!(PULSE_CYCLE_US, 20000);
}
