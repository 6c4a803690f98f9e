//! Trusted declarations for the `rppal` GPIO crate and for `Duration`.
//!
//! Pin levels are hardware state: nothing here claims anything about them.
use vstd::prelude::*;

verus! {

/// `rppal::gpio::Gpio`: handle to the GPIO peripheral, carried opaquely.
#[verifier::external_type_specification]
#[verifier::external_body]
pub struct ExGpio(rppal::gpio::Gpio);

/// `rppal::gpio::Pin`: an acquired pin that is not configured yet.
#[verifier::external_type_specification]
#[verifier::external_body]
pub struct ExPin(rppal::gpio::Pin);

/// `rppal::gpio::OutputPin`: an acquired pin configured as an output.
#[verifier::external_type_specification]
#[verifier::external_body]
pub struct ExOutputPin(rppal::gpio::OutputPin);

/// `rppal::gpio::Error`: why a GPIO resource could not be obtained.
#[verifier::external_type_specification]
#[verifier::external_body]
pub struct ExGpioError(rppal::gpio::Error);

/// Relies on `rppal::gpio::Gpio::new`, which opens the GPIO peripheral; whether
/// it succeeds depends on the machine, so nothing is promised.
pub assume_specification[ rppal::gpio::Gpio::new ]() -> rppal::gpio::Result<rppal::gpio::Gpio>;

/// Relies on `rppal::gpio::Gpio::get`, which claims one pin by its BCM number;
/// it fails when the pin is taken or absent, which depends on the machine.
pub assume_specification[ rppal::gpio::Gpio::get ](
    gpio: &rppal::gpio::Gpio,
    pin: u8,
) -> rppal::gpio::Result<rppal::gpio::Pin>;

/// Relies on `rppal::gpio::Pin::into_output`, which turns a claimed pin into an
/// output and leaves its level as it was.
pub assume_specification[ rppal::gpio::Pin::into_output ](
    pin: rppal::gpio::Pin,
) -> rppal::gpio::OutputPin;

/// Relies on `rppal::gpio::Pin::into_output_low`, which drives a claimed pin low
/// and turns it into an output.
pub assume_specification[ rppal::gpio::Pin::into_output_low ](
    pin: rppal::gpio::Pin,
) -> rppal::gpio::OutputPin;

/// Relies on `rppal::gpio::OutputPin::set_high`, which drives the line high.
pub assume_specification[ rppal::gpio::OutputPin::set_high ](pin: &mut rppal::gpio::OutputPin);

/// Relies on `rppal::gpio::OutputPin::set_low`, which drives the line low.
pub assume_specification[ rppal::gpio::OutputPin::set_low ](pin: &mut rppal::gpio::OutputPin);

/// Relies on `rppal::gpio::OutputPin::set_pwm`, which starts or reconfigures a
/// software PWM signal; its body returns `Ok(())` on every path.
pub assume_specification[ rppal::gpio::OutputPin::set_pwm ](
    pin: &mut rppal::gpio::OutputPin,
    period: core::time::Duration,
    pulse_width: core::time::Duration,
) -> (r: rppal::gpio::Result<()>)
    ensures
        r is Ok,
;

/// Relies on `Duration::from_micros`, used only to hand a microsecond count to
/// `set_pwm`.
pub assume_specification[ core::time::Duration::from_micros ](micros: u64) -> core::time::Duration;

} // verus!
