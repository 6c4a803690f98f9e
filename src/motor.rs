//! A single DC motor: its output line, direction and run status.
use vstd::prelude::*;
use rppal::gpio::Error as GpioError;
use crate::line::{Line, LineEvent, LineView};

verus! {

/// The rotation direction of a motor.
#[derive(Debug, Clone, Copy, PartialEq, Eq, Structural)]
pub enum Direction {
    Clockwise,
    Counterclockwise,
}

/// The last commanded run state of a motor (not sensed from the hardware).
#[derive(Debug, Clone, Copy, PartialEq, Eq, Structural)]
pub enum Status {
    PWM,
    Idle,
    Running,
}

/// Why a motor operation failed. `MotorIndexOutOfBounds` and `MotorNotFound`
/// are slot errors; `PinNotSet` is a configuration error.
#[derive(Debug, PartialEq, Eq, Structural)]
pub enum MotorError {
    PinNotSet,
    SpeedIsZero,
    MotorNotFound,
    MotorIndexOutOfBounds,
    PWMDurationTooHigh,
}

/// The opposite rotation direction.
pub open spec fn flipped(d: Direction) -> Direction {
    match d {
        Direction::Clockwise => Direction::Counterclockwise,
        Direction::Counterclockwise => Direction::Clockwise,
    }
}

/// What a motor's behaviour depends on: its output line (with the writes
/// made to it) once bound, its direction and its run status.
pub struct MotorView {
    pub line: Option<LineView>,
    pub direction: Direction,
    pub status: Status,
}

impl MotorView {
    /// Whether the motor's output line is bound.
    pub open spec fn has_pin(self) -> bool {
        self.line is Some
    }

    /// The entry a write `e` to the motor's bound line leaves in a trace.
    pub open spec fn write(self, e: LineEvent) -> (u8, LineEvent) {
        (self.line->Some_0.number, e)
    }

    /// The motor after one step of a PWM sweep: its bound line gets `width`
    /// within `cycle` while `width` is below `up`; otherwise nothing changes.
    pub open spec fn swept(self, cycle: u64, width: u64, up: u64) -> MotorView {
        if self.has_pin() && width < up {
            self.driven(LineEvent::Pwm(cycle, width))
        } else {
            self
        }
    }

    /// The motor after one more write to its line, which must be bound.
    pub open spec fn driven(self, e: LineEvent) -> MotorView {
        MotorView { line: Some(self.line->Some_0.after(e)), ..self }
    }
}

/// Whether a motor in the given status is running (at full speed or by PWM).
pub open spec fn running(s: Status) -> bool {
    s != Status::Idle
}

/// The status a motor takes when started with a configuration.
pub open spec fn started_status(c: MotorConfigView) -> Status {
    if c.full {
        Status::Running
    } else {
        Status::PWM
    }
}

/// The write a motor's line gets when started with a configuration: high
/// for full speed, else the configuration's PWM signal.
pub open spec fn started_event(c: MotorConfigView) -> LineEvent {
    if c.full {
        LineEvent::High
    } else {
        LineEvent::Pwm(c.cycle, c.width)
    }
}

/// The motor structure.
pub struct Motor {
    pin: Option<Line>,
    direction: Direction,
    status: Status,
}

impl View for Motor {
    type V = MotorView;

    closed spec fn view(&self) -> MotorView {
        MotorView {
            line: match self.pin {
                Some(l) => Some(l@),
                None => None,
            },
            direction: self.direction, status: self.status }
    }
}

impl Motor {
    /// Creates a new motor without a pin, turning clockwise and idle.
    pub fn new() -> (r: Motor)
        ensures
            r@ == (MotorView {
                line: None,
                direction: Direction::Clockwise,
                status: Status::Idle,
            }),
    {
        Motor { pin: None, direction: Direction::Clockwise, status: Status::Idle }
    }

    /// Drives one step of a PWM sweep over pulse widths: while `width` is below
    /// `up`, the motor's line gets `width` within `cycle` (both in microseconds).
    /// Returns the next width of the sweep, if it is still below `up`.
    /// Without a bound line nothing is written.
    pub fn test_range(&mut self, cycle: u64, width: u64, up: u64, step: u64) -> (r: Result<
        Option<u64>,
        MotorError,
    >)
        ensures
            final(self)@ == old(self)@.swept(cycle, width, up),
            !old(self)@.has_pin() ==> r == Err::<Option<u64>, MotorError>(MotorError::PinNotSet),
            old(self)@.has_pin() ==> r == Ok::<Option<u64>, MotorError>(
                if width < up && width + step < up {
                    Some((width + step) as u64)
                } else {
                    None
                },
            ),
    {
        let ghost none = Seq::<(u8, LineEvent)>::empty();
        let mut trace = Ghost(none);
        self.test_range_traced(cycle, width, up, step, &mut trace)
    }

    /// `test_range`, with the write also appended to `trace`.
    pub(crate) fn test_range_traced(
        &mut self,
        cycle: u64,
        width: u64,
        up: u64,
        step: u64,
        trace: &mut Ghost<Seq<(u8, LineEvent)>>,
    ) -> (r: Result<Option<u64>, MotorError>)
        ensures
            final(trace)@ == if old(self)@.has_pin() && width < up {
                old(trace)@.push(old(self)@.write(LineEvent::Pwm(cycle, width)))
            } else {
                old(trace)@
            },
            !old(self)@.has_pin() ==> r == Err::<Option<u64>, MotorError>(MotorError::PinNotSet)
                && final(self)@ == old(self)@,
            old(self)@.has_pin() && width < up ==> final(self)@ == old(self)@.driven(
                LineEvent::Pwm(cycle, width),
            ),
            old(self)@.has_pin() && width >= up ==> final(self)@ == old(self)@,
            old(self)@.has_pin() ==> r == Ok::<Option<u64>, MotorError>(
                if width < up && width + step < up {
                    Some((width + step) as u64)
                } else {
                    None
                },
            ),
    {
        match &mut self.pin {
            None => Err(MotorError::PinNotSet),
            Some(pin) => {
                if width >= up {
                    return Ok(None);
                }
                pin.set_pwm(cycle, width, trace);
                if step < up - width {
                    Ok(Some(width + step))
                } else {
                    Ok(None)
                }
            },
        }
    }

    /// Returns whether the motor is running, at full speed or by PWM.
    pub fn is_running(&self) -> (r: bool)
        ensures
            r == running(self@.status),
    {
        match self.status {
            Status::PWM => true,
            Status::Idle => false,
            Status::Running => true,
        }
    }

    /// Inverts the direction of the motor. Only the recorded direction changes.
    pub fn invert_direction(&mut self)
        ensures
            final(self)@ == (MotorView { direction: flipped(old(self)@.direction), ..old(self)@ }),
    {
        match self.get_direction() {
            Direction::Clockwise => self.set_direction(Direction::Counterclockwise),
            Direction::Counterclockwise => self.set_direction(Direction::Clockwise),
        }
    }

    /// Sets the motor to the given direction.
    pub fn set_direction(&mut self, d: Direction)
        ensures
            final(self)@ == (MotorView { direction: d, ..old(self)@ }),
    {
        self.direction = d;
    }

    /// Binds the motor to the output line with the given BCM number. On an
    /// error of the GPIO layer the motor is left as it was.
    pub fn set_pin(&mut self, p: u8) -> (r: Result<(), GpioError>)
        ensures
            r is Ok ==> final(self)@ == (MotorView {
                line: Some(LineView { number: p, log: Seq::empty() }),
                ..old(self)@
            }),
            r is Err ==> final(self)@ == old(self)@,
    {
        match Line::acquire(p, false) {
            Ok(line) => {
                self.pin = Some(line);
                Ok(())
            },
            Err(e) => Err(e),
        }
    }

    /// Whether the motor's output line is bound.
    pub fn has_pin(&self) -> (r: bool)
        ensures
            r == self@.has_pin(),
    {
        self.pin.is_some()
    }

    /// Returns the direction of the motor.
    pub fn get_direction(&self) -> (r: Direction)
        ensures
            r == self@.direction,
    {
        self.direction
    }

    /// Returns the status of the motor.
    pub fn get_status(&self) -> (r: Status)
        ensures
            r == self@.status,
    {
        self.status
    }

    /// Sets the recorded status of the motor.
    pub fn set_status(&mut self, s: Status)
        ensures
            final(self)@ == (MotorView { status: s, ..old(self)@ }),
    {
        self.status = s;
    }

    /// Starts the motor with the given configuration: a full-on configuration
    /// drives the line continuously high, any other one drives it by PWM.
    /// Fails, with no effect, when no line is bound.
    pub fn start(&mut self, mc: MotorConfig) -> (r: Result<(), MotorError>)
        ensures
            !old(self)@.has_pin() ==> r == Err::<(), MotorError>(MotorError::PinNotSet)
                && final(self)@ == old(self)@,
            old(self)@.has_pin() ==> r is Ok && final(self)@ == (MotorView {
                status: started_status(mc@),
                ..old(self)@.driven(started_event(mc@))
            }),
    {
        let ghost none = Seq::<(u8, LineEvent)>::empty();
        let mut trace = Ghost(none);
        self.start_traced(mc, &mut trace)
    }

    /// `start`, with the write also appended to `trace`.
    pub(crate) fn start_traced(&mut self, mc: MotorConfig, trace: &mut Ghost<Seq<(u8, LineEvent)>>) -> (r: Result<(), MotorError>)
        ensures
            final(trace)@ == if old(self)@.has_pin() {
                old(trace)@.push(old(self)@.write(started_event(mc@)))
            } else {
                old(trace)@
            },
            !old(self)@.has_pin() ==> r == Err::<(), MotorError>(MotorError::PinNotSet)
                && final(self)@ == old(self)@,
            old(self)@.has_pin() ==> r is Ok && final(self)@ == (MotorView {
                status: started_status(mc@),
                ..old(self)@.driven(started_event(mc@))
            }),
    {
        match &mut self.pin {
            None => Err(MotorError::PinNotSet),
            Some(pin) => {
                if mc.full {
                    pin.set_high(trace);
                    self.status = Status::Running;
                } else {
                    pin.set_pwm(mc.cycle, mc.width, trace);
                    self.status = Status::PWM;
                }
                Ok(())
            },
        }
    }

    /// Stops the motor: drives its line low and records it as idle. Fails,
    /// with no effect, when no line is bound.
    pub fn stop(&mut self) -> (r: Result<(), MotorError>)
        ensures
            !old(self)@.has_pin() ==> r == Err::<(), MotorError>(MotorError::PinNotSet)
                && final(self)@ == old(self)@,
            old(self)@.has_pin() ==> r is Ok && final(self)@ == (MotorView {
                status: Status::Idle,
                ..old(self)@.driven(LineEvent::Low)
            }),
    {
        let ghost none = Seq::<(u8, LineEvent)>::empty();
        let mut trace = Ghost(none);
        self.stop_traced(&mut trace)
    }

    /// `stop`, with the write also appended to `trace`.
    pub(crate) fn stop_traced(&mut self, trace: &mut Ghost<Seq<(u8, LineEvent)>>) -> (r: Result<(), MotorError>)
        ensures
            final(trace)@ == if old(self)@.has_pin() {
                old(trace)@.push(old(self)@.write(LineEvent::Low))
            } else {
                old(trace)@
            },
            !old(self)@.has_pin() ==> r == Err::<(), MotorError>(MotorError::PinNotSet)
                && final(self)@ == old(self)@,
            old(self)@.has_pin() ==> r is Ok && final(self)@ == (MotorView {
                status: Status::Idle,
                ..old(self)@.driven(LineEvent::Low)
            }),
    {
        match &mut self.pin {
            None => Err(MotorError::PinNotSet),
            Some(pin) => {
                pin.set_low(trace);
                self.status = Status::Idle;
                Ok(())
            },
        }
    }
}

/// The period used by a full-on configuration, in microseconds.
pub const FULL_CYCLE_US: u64 = 100000;

/// How a motor is driven: a PWM period and active width in microseconds, or
/// continuously on.
pub struct MotorConfigView {
    pub cycle: u64,
    pub width: u64,
    pub full: bool,
}

/// A motor drive configuration. A PWM configuration never has an active width
/// longer than its period.
#[derive(Debug)]
pub struct MotorConfig {
    cycle: u64,
    width: u64,
    full: bool,
}

impl View for MotorConfig {
    type V = MotorConfigView;

    closed spec fn view(&self) -> MotorConfigView {
        MotorConfigView { cycle: self.cycle, width: self.width, full: self.full }
    }
}

impl MotorConfig {
    /// Whether the configuration is well formed.
    pub open spec fn wf(&self) -> bool {
        self@.full || self@.width <= self@.cycle
    }

    /// Returns a PWM configuration with period `c` and active width `w`, in
    /// microseconds; fails when the width exceeds the period.
    pub fn new_pwm(c: u64, w: u64) -> (r: Result<MotorConfig, MotorError>)
        ensures
            w <= c ==> r is Ok && r->Ok_0@ == (MotorConfigView { cycle: c, width: w, full: false })
                && r->Ok_0.wf(),
            w > c ==> r == Err::<MotorConfig, MotorError>(MotorError::PWMDurationTooHigh),
    {
        if w > c {
            return Err(MotorError::PWMDurationTooHigh);
        }
        Ok(MotorConfig { cycle: c, width: w, full: false })
    }

    /// Returns a full-speed configuration.
    pub fn new_full() -> (r: MotorConfig)
        ensures
            r@ == (MotorConfigView { cycle: FULL_CYCLE_US, width: FULL_CYCLE_US, full: true }),
            r.wf(),
    {
        MotorConfig { cycle: FULL_CYCLE_US, width: FULL_CYCLE_US, full: true }
    }
}

} // verus!
