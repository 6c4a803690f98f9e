//! An output line: an rppal output pin together with its BCM number and a
//! record of every level or PWM signal the library has driven on it. Each
//! write is also appended, with the line's number, to a trace shared by all
//! the lines of one owner, which fixes the order of writes across lines.
use vstd::prelude::*;
use rppal::gpio::{Gpio, OutputPin, Error as GpioError};
use core::time::Duration;

verus! {

/// One write to an output line.
pub enum LineEvent {
    /// Driven continuously low.
    Low,
    /// Driven continuously high.
    High,
    /// Driven by software PWM with this period and active width, in
    /// microseconds.
    Pwm(u64, u64),
}

/// What is known of a line: its BCM number and the writes made to it, oldest
/// first.
pub struct LineView {
    pub number: u8,
    pub log: Seq<LineEvent>,
}

impl LineView {
    /// The line after one more write.
    pub open spec fn after(self, e: LineEvent) -> LineView {
        LineView { log: self.log.push(e), ..self }
    }

    /// The line after a sequence of writes.
    pub open spec fn after_all(self, es: Seq<LineEvent>) -> LineView {
        LineView { log: self.log + es, ..self }
    }
}

/// An acquired output line.
pub struct Line {
    pin: OutputPin,
    number: u8,
    log: Ghost<Seq<LineEvent>>,
}

impl View for Line {
    type V = LineView;

    closed spec fn view(&self) -> LineView {
        LineView { number: self.number, log: self.log@ }
    }
}

impl Line {
    /// Claims the line with BCM number `number` and makes it an output,
    /// driven low first when `low` holds. Fails when the GPIO layer cannot
    /// hand the line out.
    pub fn acquire(number: u8, low: bool) -> (r: Result<Line, GpioError>)
        ensures
            r is Ok ==> r->Ok_0@ == (LineView {
                number: number,
                log: if low {
                    seq![LineEvent::Low]
                } else {
                    Seq::empty()
                },
            }),
    {
        let gpio = match Gpio::new() {
            Ok(g) => g,
            Err(e) => return Err(e),
        };
        match gpio.get(number) {
            Ok(p) => if low {
                let ghost written = seq![LineEvent::Low];
                Ok(Line { pin: p.into_output_low(), number, log: Ghost(written) })
            } else {
                let ghost written = Seq::<LineEvent>::empty();
                Ok(Line { pin: p.into_output(), number, log: Ghost(written) })
            },
            Err(e) => Err(e),
        }
    }

    /// Drives the line high.
    pub fn set_high(&mut self, trace: &mut Ghost<Seq<(u8, LineEvent)>>)
        ensures
            final(self)@ == old(self)@.after(LineEvent::High),
            final(trace)@ == old(trace)@.push((old(self)@.number, LineEvent::High)),
    {
        self.pin.set_high();
        proof {
            self.log@ = self.log@.push(LineEvent::High);
            trace@ = trace@.push((self.number, LineEvent::High));
        }
    }

    /// Drives the line low.
    pub fn set_low(&mut self, trace: &mut Ghost<Seq<(u8, LineEvent)>>)
        ensures
            final(self)@ == old(self)@.after(LineEvent::Low),
            final(trace)@ == old(trace)@.push((old(self)@.number, LineEvent::Low)),
    {
        self.pin.set_low();
        proof {
            self.log@ = self.log@.push(LineEvent::Low);
            trace@ = trace@.push((self.number, LineEvent::Low));
        }
    }

    /// Drives the line by PWM with period `cycle` and active width `width`,
    /// in microseconds.
    pub fn set_pwm(&mut self, cycle: u64, width: u64, trace: &mut Ghost<Seq<(u8, LineEvent)>>)
        ensures
            final(self)@ == old(self)@.after(LineEvent::Pwm(cycle, width)),
            final(trace)@ == old(trace)@.push((old(self)@.number, LineEvent::Pwm(cycle, width))),
    {
        let _ = self.pin.set_pwm(Duration::from_micros(cycle), Duration::from_micros(width));
        proof {
            self.log@ = self.log@.push(LineEvent::Pwm(cycle, width));
            trace@ = trace@.push((self.number, LineEvent::Pwm(cycle, width)));
        }
    }
}

} // verus!
