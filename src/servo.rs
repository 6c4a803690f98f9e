//! A hobby servo driven by a 50 Hz PWM signal whose pulse width sets its angle.
use vstd::prelude::*;
use rppal::gpio::Error as GpioError;
use crate::line::{Line, LineEvent, LineView};

verus! {

/// The pulse width, in microseconds, that turns the servo to 0 degrees.
pub const MIN_WIDTH_US: u64 = 1000;

/// The pulse width, in microseconds, that turns the servo to 180 degrees.
pub const MAX_WIDTH_US: u64 = 2000;

/// The largest angle the servo accepts, in degrees.
pub const MAX_ANGLE: u16 = 180;

/// The PWM period of the servo, in microseconds (50 Hz).
pub const PULSE_CYCLE_US: u64 = 20000;

/// The distance between two pulse widths of a range test, in microseconds.
pub const RANGE_STEP_US: u64 = 100;

/// Why a servo operation failed: an unbound line, or an angle or pulse width
/// outside the calibrated range.
#[derive(Debug, PartialEq, Eq, Structural)]
pub enum ServoError {
    PinNotSet,
    AngleOutOfRange,
    WidthOutOfRange,
}

/// The pulse width for an angle: linear from `MIN_WIDTH_US` at 0 degrees to
/// `MAX_WIDTH_US` at 180 degrees, rounded down to a whole microsecond.
pub open spec fn width_for_angle(a: int) -> int {
    MIN_WIDTH_US + (a * (MAX_WIDTH_US - MIN_WIDTH_US)) / (MAX_ANGLE as int)
}

/// The PWM signal a servo is driven with: period and active width in
/// microseconds, and the angle it stands for.
pub struct ServoConfigView {
    pub cycle: u64,
    pub width: u64,
    pub angle: u16,
}

/// The configuration a servo operates in.
pub struct ServoConfig {
    cycle: u64,
    width: u64,
    angle: u16,
}

impl View for ServoConfig {
    type V = ServoConfigView;

    closed spec fn view(&self) -> ServoConfigView {
        ServoConfigView { cycle: self.cycle, width: self.width, angle: self.angle }
    }
}

/// Every width between the two calibration widths is reachable, and 0 and
/// 180 degrees map to the two ends.
proof fn lemma_width_in_range(a: int)
    requires
        0 <= a <= 180,
    ensures
        MIN_WIDTH_US <= width_for_angle(a) <= MAX_WIDTH_US,
{
    assert(0 <= a * 1000 <= 180000) by (nonlinear_arith)
        requires
            0 <= a <= 180,
    ;
}

impl ServoConfig {
    /// Whether the configuration is one this servo can be driven with.
    pub open spec fn wf(&self) -> bool {
        &&& self@.cycle == PULSE_CYCLE_US
        &&& MIN_WIDTH_US <= self@.width <= MAX_WIDTH_US
        &&& self@.angle <= MAX_ANGLE
    }

    /// Returns a configuration with pulse width `width` (microseconds) and the
    /// 50 Hz period; a width outside the calibrated bounds is refused.
    pub fn new(width: u64) -> (r: Result<ServoConfig, ServoError>)
        ensures
            MIN_WIDTH_US <= width <= MAX_WIDTH_US ==> r is Ok && r->Ok_0@ == (ServoConfigView {
                cycle: PULSE_CYCLE_US,
                width: width,
                angle: 0,
            }) && r->Ok_0.wf(),
            !(MIN_WIDTH_US <= width <= MAX_WIDTH_US) ==> r == Err::<ServoConfig, ServoError>(
                ServoError::WidthOutOfRange,
            ),
    {
        if width < MIN_WIDTH_US || width > MAX_WIDTH_US {
            return Err(ServoError::WidthOutOfRange);
        }
        Ok(ServoConfig { cycle: PULSE_CYCLE_US, width: width, angle: 0 })
    }

    /// Returns the configuration for the neutral position, 90 degrees.
    pub fn new_default() -> (r: ServoConfig)
        ensures
            r@ == (ServoConfigView {
                cycle: PULSE_CYCLE_US,
                width: width_for_angle(90) as u64,
                angle: 90,
            }),
            r.wf(),
    {
        let default_angle: u16 = 90;
        proof {
            lemma_width_in_range(90);
        }
        ServoConfig {
            cycle: PULSE_CYCLE_US,
            width: ServoConfig::calc_width_from_angle(default_angle),
            angle: default_angle,
        }
    }

    /// Returns a configuration with the given pulse width (microseconds).
    pub fn new_config_from_width(w: u64) -> (r: Result<ServoConfig, ServoError>)
        ensures
            MIN_WIDTH_US <= w <= MAX_WIDTH_US ==> r is Ok && r->Ok_0@ == (ServoConfigView {
                cycle: PULSE_CYCLE_US,
                width: w,
                angle: 0,
            }) && r->Ok_0.wf(),
            !(MIN_WIDTH_US <= w <= MAX_WIDTH_US) ==> r == Err::<ServoConfig, ServoError>(
                ServoError::WidthOutOfRange,
            ),
    {
        ServoConfig::new(w)
    }

    /// Returns the configuration that turns the servo to `a` degrees; an
    /// angle above 180 is refused.
    pub fn new_config_from_angle(a: u16) -> (r: Result<ServoConfig, ServoError>)
        ensures
            a <= MAX_ANGLE ==> r is Ok && r->Ok_0@ == (ServoConfigView {
                cycle: PULSE_CYCLE_US,
                width: width_for_angle(a as int) as u64,
                angle: a,
            }) && r->Ok_0.wf(),
            a > MAX_ANGLE ==> r == Err::<ServoConfig, ServoError>(ServoError::AngleOutOfRange),
    {
        if a > MAX_ANGLE {
            return Err(ServoError::AngleOutOfRange);
        }
        proof {
            lemma_width_in_range(a as int);
        }
        let width = ServoConfig::calc_width_from_angle(a);
        match ServoConfig::new(width) {
            Ok(cfg) => Ok(ServoConfig { angle: a, ..cfg }),
            Err(e) => Err(e),
        }
    }

    /// Returns the pulse width (microseconds) that turns the servo to `a`
    /// degrees.
    pub fn calc_width_from_angle(a: u16) -> (r: u64)
        requires
            a <= MAX_ANGLE,
        ensures
            r == width_for_angle(a as int),
    {
        assert((a as u64) * 1000 <= 180000) by (nonlinear_arith)
            requires
                a <= 180,
        ;
        MIN_WIDTH_US + (a as u64) * (MAX_WIDTH_US - MIN_WIDTH_US) / (MAX_ANGLE as u64)
    }
}

/// The calibration points of the angle mapping: 0 degrees gives the minimum
/// width, 180 degrees the maximum, and 90 degrees their midpoint.
pub proof fn lemma_angle_boundaries()
    ensures
        width_for_angle(0) == MIN_WIDTH_US,
        width_for_angle(180) == MAX_WIDTH_US,
        width_for_angle(90) == (MIN_WIDTH_US + MAX_WIDTH_US) / 2,
{
}

/// What a servo's behaviour depends on: its line (with the writes made to
/// it) once bound, and the configuration it is driven with.
pub struct ServoView {
    pub line: Option<LineView>,
    pub config: ServoConfigView,
}

/// A servo on one output line.
pub struct Servo {
    pin: Option<Line>,
    config: ServoConfig,
}

impl View for Servo {
    type V = ServoView;

    closed spec fn view(&self) -> ServoView {
        ServoView {
            line: match self.pin {
                Some(l) => Some(l@),
                None => None,
            },
            config: self.config@,
        }
    }
}

impl Servo {
    /// Returns a servo on the line with the given BCM number, in the neutral
    /// position: the line is driven low, then by the neutral PWM signal.
    pub fn new_default(pin: u8) -> (r: Result<Servo, GpioError>)
        ensures
            r is Ok ==> r->Ok_0@ == (ServoView {
                line: Some(LineView {
                    number: pin,
                    log: seq![
                        LineEvent::Low,
                        LineEvent::Pwm(PULSE_CYCLE_US, width_for_angle(90) as u64),
                    ],
                }),
                config: ServoConfigView {
                    cycle: PULSE_CYCLE_US,
                    width: width_for_angle(90) as u64,
                    angle: 90,
                },
            }),
    {
        Servo::new_servo_from_config(ServoConfig::new_default(), pin)
    }

    /// Returns a servo on the line with the given BCM number: the line is
    /// driven low, then by `cfg`'s PWM signal. Fails when the GPIO layer
    /// cannot hand out the line.
    pub fn new_servo_from_config(cfg: ServoConfig, pin: u8) -> (r: Result<Servo, GpioError>)
        ensures
            r is Ok ==> r->Ok_0@ == (ServoView {
                line: Some(LineView {
                    number: pin,
                    log: seq![LineEvent::Low, LineEvent::Pwm(cfg@.cycle, cfg@.width)],
                }),
                config: cfg@,
            }),
    {
        let mut line = match Line::acquire(pin, true) {
            Ok(l) => l,
            Err(e) => return Err(e),
        };
        let ghost none = Seq::<(u8, LineEvent)>::empty();
        let mut trace = Ghost(none);
        line.set_pwm(cfg.cycle, cfg.width, &mut trace);
        assert(line@.log =~= seq![LineEvent::Low, LineEvent::Pwm(cfg@.cycle, cfg@.width)]);
        Ok(Servo { pin: Some(line), config: cfg })
    }

    /// Returns the configuration the servo is driven with.
    pub fn get_config(&self) -> (r: &ServoConfig)
        ensures
            r@ == self@.config,
    {
        &self.config
    }

    /// Turns the servo to `a` degrees: stores the configuration for that
    /// angle and drives the line with it at once. An angle above 180 or an
    /// unbound line is refused, in that order, and nothing is written.
    pub fn set_angle(&mut self, a: u16) -> (r: Result<(), ServoError>)
        ensures
            a > MAX_ANGLE ==> r == Err::<(), ServoError>(ServoError::AngleOutOfRange)
                && final(self)@ == old(self)@,
            a <= MAX_ANGLE && old(self)@.line is None ==> r == Err::<(), ServoError>(
                ServoError::PinNotSet,
            ) && final(self)@ == old(self)@,
            a <= MAX_ANGLE && old(self)@.line is Some ==> r is Ok && final(self)@ == (ServoView {
                line: Some(
                    old(self)@.line->Some_0.after(
                        LineEvent::Pwm(PULSE_CYCLE_US, width_for_angle(a as int) as u64),
                    ),
                ),
                config: ServoConfigView {
                    cycle: PULSE_CYCLE_US,
                    width: width_for_angle(a as int) as u64,
                    angle: a,
                },
            }),
    {
        if a > MAX_ANGLE {
            return Err(ServoError::AngleOutOfRange);
        }
        let width = ServoConfig::calc_width_from_angle(a);
        match &mut self.pin {
            None => Err(ServoError::PinNotSet),
            Some(pin) => {
                let ghost none = Seq::<(u8, LineEvent)>::empty();
                let mut trace = Ghost(none);
                pin.set_pwm(PULSE_CYCLE_US, width, &mut trace);
                self.config = ServoConfig { cycle: PULSE_CYCLE_US, width: width, angle: a };
                Ok(())
            },
        }
    }

    /// Returns the pulse width (microseconds) the servo is driven with.
    pub fn get_pulse_width(self) -> (r: u64)
        ensures
            r == self@.config.width,
    {
        self.config.width
    }

    /// Returns the angle the servo is turned to.
    pub fn get_angle(self) -> (r: u16)
        ensures
            r == self@.config.angle,
    {
        self.config.angle
    }

    /// Drives one step of a range test on `pin`: a width up to `up` is sent
    /// with the servo's period; the next width, `RANGE_STEP_US` further, is
    /// returned while it is still within `up`. When the sweep is over the line
    /// is driven low and `None` returned.
    pub fn test_range(pin: &mut Line, width: u64, up: u64) -> (r: Option<u64>)
        ensures
            r == (if width <= up && width + RANGE_STEP_US <= up {
                Some((width + RANGE_STEP_US) as u64)
            } else {
                None::<u64>
            }),
            width <= up && width + RANGE_STEP_US <= up ==> final(pin)@ == old(pin)@.after(
                LineEvent::Pwm(PULSE_CYCLE_US, width),
            ),
            width <= up && width + RANGE_STEP_US > up ==> final(pin)@ == old(pin)@.after(
                LineEvent::Pwm(PULSE_CYCLE_US, width),
            ).after(LineEvent::Low),
            width > up ==> final(pin)@ == old(pin)@.after(LineEvent::Low),
    {
        let ghost none = Seq::<(u8, LineEvent)>::empty();
        let mut trace = Ghost(none);
        if width <= up {
            pin.set_pwm(PULSE_CYCLE_US, width, &mut trace);
            if RANGE_STEP_US <= up - width {
                return Some(width + RANGE_STEP_US);
            }
        }
        pin.set_low(&mut trace);
        None
    }
}

} // verus!
