//! The motor shield: four motor slots whose directions are pushed as one byte
//! into a serial-in/parallel-out shift register.
use vstd::prelude::*;
use rppal::gpio::Error as GpioError;
use crate::line::{Line, LineEvent, LineView};
use crate::motor::{
    Motor, MotorView, MotorError, MotorConfig, Direction, Status,
    flipped, started_event, started_status,
};

verus! {

/// Why a board operation failed: unbound register lines (a configuration
/// error), or a failure about a motor slot or the motor in it.
#[derive(Debug, PartialEq, Eq, Structural)]
pub enum BoardError {
    RegisterPinNotSet,
    MotorError(MotorError),
}

/// The pin numbering of the board; it is recorded but changes nothing.
#[derive(Debug, Clone, Copy, PartialEq, Eq, Structural)]
pub enum BoardType {
    BCM,
    Board,
}

/// The bits that a motor in `slot` (1 to 4) turning in direction `d` sets in
/// the direction byte. The shift register's outputs are wired to fixed
/// direction lines of the driver, hence the irregular table.
pub open spec fn slot_bits(slot: int, d: Direction) -> u8 {
    let cw = d == Direction::Clockwise;
    if slot == 1 {
        if cw { 4 } else { 8 }
    } else if slot == 2 {
        if cw { 2 } else { 16 }
    } else if slot == 3 {
        if cw { 1 } else { 64 }
    } else {
        if cw { 32 } else { 128 }
    }
}

/// All bits that belong to `slot`, whatever its direction.
pub open spec fn slot_mask(slot: int) -> u8 {
    slot_bits(slot, Direction::Clockwise) | slot_bits(slot, Direction::Counterclockwise)
}

/// What the occupant of `slot` contributes to the direction byte: nothing when
/// the slot is empty.
pub open spec fn slot_code(slot: int, m: Option<MotorView>) -> u8 {
    match m {
        Some(v) => slot_bits(slot, v.direction),
        None => 0,
    }
}

/// The direction byte of four slots: the bitwise OR of each slot's bits.
pub open spec fn direction_byte(slots: Seq<Option<MotorView>>) -> u8 {
    slot_code(1, slots[0]) | slot_code(2, slots[1]) | slot_code(3, slots[2]) | slot_code(4, slots[3])
}

/// The level pushed at step `i` (0 to 7) when shifting out `b`: bits go most
/// significant first.
pub open spec fn serial_bit(b: u8, i: int) -> bool {
    (b >> ((7 - i) as u8)) & 1u8 == 1u8
}

/// The eight levels, in order, that the serial line carries when `b` is pushed.
pub open spec fn serial_bits(b: u8) -> Seq<bool> {
    Seq::new(8, |i: int| serial_bit(b, i))
}

/// The level a line is driven to for a bit.
pub open spec fn level(bit: bool) -> LineEvent {
    if bit {
        LineEvent::High
    } else {
        LineEvent::Low
    }
}

/// What the serial line receives when `b` is pushed: one level per bit,
/// most significant first.
pub open spec fn serial_events(b: u8) -> Seq<LineEvent> {
    Seq::new(8, |i: int| level(serial_bit(b, i)))
}

/// What the clock line receives during a push: low then high (a rising
/// edge) for each of the eight bits.
pub open spec fn clock_events() -> Seq<LineEvent> {
    Seq::new(16, |i: int| if i % 2 == 0 { LineEvent::Low } else { LineEvent::High })
}

/// What the latch line receives during a push: low before the bits, high
/// after them.
pub open spec fn latch_events() -> Seq<LineEvent> {
    seq![LineEvent::Low, LineEvent::High]
}

/// The byte read back from levels shifted in one after another: each new
/// level becomes the lowest bit, the earlier ones move up.
pub open spec fn decode_levels(es: Seq<LineEvent>) -> u8
    decreases es.len(),
{
    if es.len() == 0 {
        0
    } else {
        (decode_levels(es.drop_last()) << 1u8) | (if es.last() is High {
            1u8
        } else {
            0u8
        })
    }
}

/// What the clock line `c` and serial line `s` receive to shift in one bit:
/// clock low, serial line to the bit's level, clock high (the rising edge
/// that shifts the level in).
pub open spec fn bit_trace(c: u8, s: u8, bit: bool) -> Seq<(u8, LineEvent)> {
    seq![(c, LineEvent::Low), (s, level(bit)), (c, LineEvent::High)]
}

/// The writes that shift in the first `i` bits of `b`, most significant
/// first.
pub open spec fn bits_trace(c: u8, s: u8, b: u8, i: nat) -> Seq<(u8, LineEvent)>
    decreases i,
{
    if i == 0 {
        Seq::empty()
    } else {
        bits_trace(c, s, b, (i - 1) as nat) + bit_trace(c, s, serial_bit(b, i - 1))
    }
}

/// The writes, in order across the latch line `l`, clock line `c` and serial
/// line `s`, that push `b`: latch low, the eight bits most significant
/// first, latch high.
pub open spec fn push_trace(l: u8, c: u8, s: u8, b: u8) -> Seq<(u8, LineEvent)> {
    seq![(l, LineEvent::Low)] + bits_trace(c, s, b, 8) + seq![(l, LineEvent::High)]
}

/// The abstract state of a board: its four slots (index 0 is slot 1), the
/// three register lines once bound, and the trace of every write the board
/// made to any line, in order, as (BCM number, write).
#[verifier::ext_equal]
pub struct BoardView {
    pub slots: Seq<Option<MotorView>>,
    pub serial: Option<LineView>,
    pub clock: Option<LineView>,
    pub latch: Option<LineView>,
    pub trace: Seq<(u8, LineEvent)>,
}

impl BoardView {
    /// Whether all three register lines are bound.
    pub open spec fn lines_bound(self) -> bool {
        self.serial is Some && self.clock is Some && self.latch is Some
    }

    /// The direction byte of the board: always the one of its slots.
    pub open spec fn directions(self) -> u8 {
        direction_byte(self.slots)
    }

    /// The board with the occupant of `slot` replaced.
    pub open spec fn with_slot(self, slot: int, m: Option<MotorView>) -> BoardView {
        BoardView { slots: self.slots.update(slot - 1, m), ..self }
    }

    /// The motor in `slot`, which must be occupied, with direction `d`.
    pub open spec fn with_direction(self, slot: int, d: Direction) -> BoardView {
        self.with_slot(slot, Some(MotorView { direction: d, ..self.slots[slot - 1]->Some_0 }))
    }

    /// The motor in `slot`, which must be occupied, with status `s`.
    pub open spec fn with_status(self, slot: int, s: Status) -> BoardView {
        self.with_slot(slot, Some(MotorView { status: s, ..self.slots[slot - 1]->Some_0 }))
    }

    /// The board after its direction byte was pushed over the bound
    /// register lines.
    pub open spec fn pushed(self) -> BoardView {
        BoardView {
            serial: Some(self.serial->Some_0.after_all(serial_events(self.directions()))),
            clock: Some(self.clock->Some_0.after_all(clock_events())),
            latch: Some(self.latch->Some_0.after_all(latch_events())),
            trace: self.trace + push_trace(
                self.latch->Some_0.number,
                self.clock->Some_0.number,
                self.serial->Some_0.number,
                self.directions(),
            ),
            ..self
        }
    }

    /// The board after the bound line of the motor in `slot` got `e`.
    pub open spec fn drove(self, slot: int, e: LineEvent) -> BoardView {
        BoardView {
            trace: self.trace.push(self.slots[slot - 1]->Some_0.write(e)),
            ..self.with_slot(slot, Some(self.slots[slot - 1]->Some_0.driven(e)))
        }
    }

    /// The board after a direction change: pushed when the lines are bound.
    pub open spec fn pushed_if_bound(self) -> BoardView {
        if self.lines_bound() {
            self.pushed()
        } else {
            self
        }
    }
}

/// Why a slot number cannot be used: it is outside 1 to 4, or nothing is in it.
pub open spec fn slot_error(v: BoardView, slot: int) -> Option<MotorError> {
    if !(1 <= slot <= 4) {
        Some(MotorError::MotorIndexOutOfBounds)
    } else if v.slots[slot - 1] is None {
        Some(MotorError::MotorNotFound)
    } else {
        None
    }
}

/// Why a motor cannot be started: a bad slot, unbound register lines, or a
/// motor without a line, checked in that order.
pub open spec fn start_error(v: BoardView, slot: int) -> Option<BoardError> {
    match slot_error(v, slot) {
        Some(e) => Some(BoardError::MotorError(e)),
        None => if !v.lines_bound() {
            Some(BoardError::RegisterPinNotSet)
        } else if !v.slots[slot - 1]->Some_0.has_pin() {
            Some(BoardError::MotorError(MotorError::PinNotSet))
        } else {
            None
        },
    }
}

/// Why a motor cannot be stopped: a bad slot, or a motor without a line.
pub open spec fn stop_error(v: BoardView, slot: int) -> Option<BoardError> {
    match slot_error(v, slot) {
        Some(e) => Some(BoardError::MotorError(e)),
        None => if !v.slots[slot - 1]->Some_0.has_pin() {
            Some(BoardError::MotorError(MotorError::PinNotSet))
        } else {
            None
        },
    }
}

/// The abstract value of a motor slot.
pub open spec fn opt_view(m: Option<Motor>) -> Option<MotorView> {
    match m {
        Some(x) => Some(x@),
        None => None,
    }
}

/// The bits of one slot never overlap another's: masking the direction byte
/// with a slot's bits yields exactly that slot's own contribution, so setting
/// one motor's direction cannot clear the bits of another.
pub proof fn lemma_slot_bits_isolated(slots: Seq<Option<MotorView>>)
    requires
        slots.len() == 4,
    ensures
        forall|n: int|
            1 <= n <= 4 ==> #[trigger] (direction_byte(slots) & slot_mask(n)) == slot_code(
                n,
                slots[n - 1],
            ),
{
    let c1 = slot_code(1, slots[0]);
    let c2 = slot_code(2, slots[1]);
    let c3 = slot_code(3, slots[2]);
    let c4 = slot_code(4, slots[3]);
    assert(c1 == 0 || c1 == 4 || c1 == 8);
    assert(c2 == 0 || c2 == 2 || c2 == 16);
    assert(c3 == 0 || c3 == 1 || c3 == 64);
    assert(c4 == 0 || c4 == 32 || c4 == 128);
    assert(4u8 | 8u8 == 12u8) by (bit_vector);
    assert(2u8 | 16u8 == 18u8) by (bit_vector);
    assert(1u8 | 64u8 == 65u8) by (bit_vector);
    assert(32u8 | 128u8 == 160u8) by (bit_vector);
    assert((c1 | c2 | c3 | c4) & 12u8 == c1 && (c1 | c2 | c3 | c4) & 18u8 == c2 && (c1 | c2 | c3
        | c4) & 65u8 == c3 && (c1 | c2 | c3 | c4) & 160u8 == c4) by (bit_vector)
        requires
            c1 == 0 || c1 == 4 || c1 == 8,
            c2 == 0 || c2 == 2 || c2 == 16,
            c3 == 0 || c3 == 1 || c3 == 64,
            c4 == 0 || c4 == 32 || c4 == 128,
    ;
}

/// The board after filling slots one after another: each pair is a slot
/// number and what is put in it. This is what successive `set_motor` calls
/// give, since each ensures `with_slot`.
pub open spec fn filled(v: BoardView, fills: Seq<(int, Option<MotorView>)>) -> BoardView
    decreases fills.len(),
{
    if fills.len() == 0 {
        v
    } else {
        filled(v, fills.drop_last()).with_slot(fills.last().0, fills.last().1)
    }
}

/// Whether each fill names a slot from 1 to 4 and no slot is named twice.
pub open spec fn distinct_fills(fills: Seq<(int, Option<MotorView>)>) -> bool {
    &&& forall|k: int| 0 <= k < fills.len() ==> 1 <= #[trigger] fills[k].0 <= 4
    &&& forall|i: int, j: int| 0 <= i < j < fills.len() ==> #[trigger] fills[i].0 != #[trigger] fills[j].0
}

/// After distinct fills, each filled slot holds what was put in it and every
/// other slot holds what it held before.
proof fn lemma_filled_slots(v: BoardView, fills: Seq<(int, Option<MotorView>)>)
    requires
        v.slots.len() == 4,
        distinct_fills(fills),
    ensures
        filled(v, fills).slots.len() == 4,
        filled(v, fills) == (BoardView { slots: filled(v, fills).slots, ..v }),
        forall|k: int|
            0 <= k < fills.len() ==> filled(v, fills).slots[#[trigger] fills[k].0 - 1] == fills[k].1,
        forall|n: int|
            1 <= n <= 4 && (forall|k: int| 0 <= k < fills.len() ==> fills[k].0 != n) ==> #[trigger] filled(
                v,
                fills,
            ).slots[n - 1] == v.slots[n - 1],
    decreases fills.len(),
{
    if fills.len() > 0 {
        let pre = fills.drop_last();
        assert(distinct_fills(pre)) by {
            assert forall|i: int, j: int| 0 <= i < j < pre.len() implies #[trigger] pre[i].0
                != #[trigger] pre[j].0 by {
                assert(pre[i] == fills[i] && pre[j] == fills[j]);
            }
        }
        lemma_filled_slots(v, pre);
        let last = fills.last();
        assert forall|k: int| 0 <= k < fills.len() implies filled(v, fills).slots[#[trigger] fills[k].0
            - 1] == fills[k].1 by {
            if k < fills.len() - 1 {
                assert(pre[k] == fills[k]);
                assert(fills[k].0 != fills[fills.len() - 1].0);
            }
        }
        assert forall|n: int|
            1 <= n <= 4 && (forall|k: int| 0 <= k < fills.len() ==> fills[k].0 != n) implies #[trigger] filled(
                v,
                fills,
            ).slots[n - 1] == v.slots[n - 1] by {
            assert(fills[fills.len() - 1].0 != n);
            assert forall|k: int| 0 <= k < pre.len() implies pre[k].0 != n by {
                assert(pre[k] == fills[k]);
            }
        }
    }
}

/// Filling distinct slots gives the same board, and so the same direction
/// byte, whatever the order of the fills.
pub proof fn lemma_fill_order_irrelevant(
    v: BoardView,
    f1: Seq<(int, Option<MotorView>)>,
    f2: Seq<(int, Option<MotorView>)>,
)
    requires
        v.slots.len() == 4,
        distinct_fills(f1),
        distinct_fills(f2),
        forall|x: (int, Option<MotorView>)| f1.contains(x) <==> f2.contains(x),
    ensures
        filled(v, f1) == filled(v, f2),
        filled(v, f1).directions() == filled(v, f2).directions(),
{
    lemma_filled_slots(v, f1);
    lemma_filled_slots(v, f2);
    assert forall|i: int| 0 <= i < 4 implies #[trigger] filled(v, f1).slots[i] == filled(
        v,
        f2,
    ).slots[i] by {
        let n = i + 1;
        if exists|k: int| 0 <= k < f1.len() && f1[k].0 == n {
            let k1 = choose|k: int| 0 <= k < f1.len() && f1[k].0 == n;
            assert(f1.contains(f1[k1]));
            let k2 = choose|k: int| 0 <= k < f2.len() && f2[k] == f1[k1];
            assert(f2[k2].0 == n);
            assert(filled(v, f1).slots[f1[k1].0 - 1] == f1[k1].1);
            assert(filled(v, f2).slots[f2[k2].0 - 1] == f2[k2].1);
        } else if exists|k: int| 0 <= k < f2.len() && f2[k].0 == n {
            let k2 = choose|k: int| 0 <= k < f2.len() && f2[k].0 == n;
            assert(f2.contains(f2[k2]));
            let k1 = choose|k: int| 0 <= k < f1.len() && f1[k] == f2[k2];
            assert(f1[k1].0 == n);
        } else {
            assert(filled(v, f1).slots[n - 1] == v.slots[n - 1]);
            assert(filled(v, f2).slots[n - 1] == v.slots[n - 1]);
        }
    }
    assert(filled(v, f1).slots =~= filled(v, f2).slots);
    assert(filled(v, f1) =~= filled(v, f2));
}

/// Setting a motor's direction twice to the same value changes nothing the
/// second time: the direction byte, and so the levels pushed for it, are
/// those of the first time.
pub proof fn lemma_change_direction_idempotent(v: BoardView, n: int, d: Direction)
    requires
        v.slots.len() == 4,
        1 <= n <= 4,
        v.slots[n - 1] is Some,
    ensures
        v.with_direction(n, d).with_direction(n, d) == v.with_direction(n, d),
        v.with_direction(n, d).with_direction(n, d).directions() == v.with_direction(
            n,
            d,
        ).directions(),
        serial_events(v.with_direction(n, d).with_direction(n, d).directions()) == serial_events(
            v.with_direction(n, d).directions(),
        ),
{
    assert(v.with_direction(n, d).with_direction(n, d) =~= v.with_direction(n, d));
}

/// Shifting in the first `i` levels of a push gives the top `i` bits of the
/// pushed byte.
proof fn lemma_decode_prefix(b: u8, i: nat)
    requires
        i <= 8,
    ensures
        decode_levels(serial_events(b).take(i as int)) == (if i == 0 {
            0u8
        } else {
            b >> ((8 - i) as u8)
        }),
    decreases i,
{
    let es = serial_events(b);
    if i > 0 {
        lemma_decode_prefix(b, (i - 1) as nat);
        assert(es.take(i as int).drop_last() =~= es.take(i - 1));
        let k: u8 = (8 - i) as u8;
        let x: u8 = if serial_bit(b, i - 1) {
            1
        } else {
            0
        };
        if i == 1 {
            assert((0u8 << 1u8) | (if (b >> 7u8) & 1u8 == 1u8 { 1u8 } else { 0u8 }) == b >> 7u8)
                by (bit_vector);
        } else {
            assert(((b >> ((k + 1) as u8)) << 1u8) | (if (b >> k) & 1u8 == 1u8 {
                1u8
            } else {
                0u8
            }) == b >> k) by (bit_vector)
                requires
                    k < 7,
            ;
        }
    }
}

/// What the serial line carries during a push reads back, shifted in one
/// level after another, as exactly the byte that was pushed.
pub proof fn lemma_push_decodes(b: u8)
    ensures
        decode_levels(serial_events(b)) == b,
{
    lemma_decode_prefix(b, 8);
    assert(serial_events(b).take(8) =~= serial_events(b));
    assert(b >> 0u8 == b) by (bit_vector);
}

/// The writes that shift in `i` bits come in threes: clock low, the bit's
/// level on the serial line, clock high.
proof fn lemma_bits_trace_shape(c: u8, s: u8, b: u8, i: nat)
    ensures
        bits_trace(c, s, b, i).len() == 3 * i,
        forall|k: int| 0 <= k < i ==> #[trigger] bits_trace(c, s, b, i)[3 * k] == (c, LineEvent::Low),
        forall|k: int|
            0 <= k < i ==> #[trigger] bits_trace(c, s, b, i)[3 * k + 1] == (s, level(serial_bit(b, k))),
        forall|k: int| 0 <= k < i ==> #[trigger] bits_trace(c, s, b, i)[3 * k + 2] == (c, LineEvent::High),
    decreases i,
{
    if i > 0 {
        lemma_bits_trace_shape(c, s, b, (i - 1) as nat);
        let pre = bits_trace(c, s, b, (i - 1) as nat);
        let last = bit_trace(c, s, serial_bit(b, i - 1));
        assert(bits_trace(c, s, b, i) == pre + last);
        assert forall|k: int| 0 <= k < i implies #[trigger] bits_trace(c, s, b, i)[3 * k] == (
            c,
            LineEvent::Low,
        ) by {
            if k < i - 1 {
                assert(pre[3 * k] == (c, LineEvent::Low));
            } else {
                assert((pre + last)[3 * k] == last[0]);
            }
        }
        assert forall|k: int| 0 <= k < i implies #[trigger] bits_trace(c, s, b, i)[3 * k + 1] == (
            s,
            level(serial_bit(b, k)),
        ) by {
            if k < i - 1 {
                assert(pre[3 * k + 1] == (s, level(serial_bit(b, k))));
            } else {
                assert((pre + last)[3 * k + 1] == last[1]);
            }
        }
        assert forall|k: int| 0 <= k < i implies #[trigger] bits_trace(c, s, b, i)[3 * k + 2] == (
            c,
            LineEvent::High,
        ) by {
            if k < i - 1 {
                assert(pre[3 * k + 2] == (c, LineEvent::High));
            } else {
                assert((pre + last)[3 * k + 2] == last[2]);
            }
        }
    }
}

/// A push is 26 writes: latch low; for each bit, most significant first,
/// clock low, the bit's level on the serial line, clock high; latch high.
/// So the serial level standing at the rising clock edge of step `i` is bit
/// `7 - i` of the byte, and those eight levels read back as the byte.
pub proof fn lemma_push_trace_shape(l: u8, c: u8, s: u8, b: u8)
    ensures
        push_trace(l, c, s, b).len() == 26,
        push_trace(l, c, s, b)[0] == (l, LineEvent::Low),
        push_trace(l, c, s, b)[25] == (l, LineEvent::High),
        forall|i: int|
            0 <= i < 8 ==> #[trigger] push_trace(l, c, s, b)[3 * i + 1] == (c, LineEvent::Low)
                && push_trace(l, c, s, b)[3 * i + 2] == (s, level(serial_bit(b, i)))
                && push_trace(l, c, s, b)[3 * i + 3] == (c, LineEvent::High),
        decode_levels(Seq::new(8, |i: int| push_trace(l, c, s, b)[3 * i + 2].1)) == b,
{
    lemma_bits_trace_shape(c, s, b, 8);
    let t = push_trace(l, c, s, b);
    let bits = bits_trace(c, s, b, 8);
    assert forall|i: int| 0 <= i < 8 implies #[trigger] t[3 * i + 1] == (c, LineEvent::Low) && t[3
        * i + 2] == (s, level(serial_bit(b, i))) && t[3 * i + 3] == (c, LineEvent::High) by {
        assert(bits[3 * i] == (c, LineEvent::Low));
        assert(bits[3 * i + 1] == (s, level(serial_bit(b, i))));
        assert(bits[3 * i + 2] == (c, LineEvent::High));
        assert(t[3 * i + 1] == bits[3 * i]);
        assert(t[3 * i + 2] == bits[3 * i + 1]);
        assert(t[3 * i + 3] == bits[3 * i + 2]);
    }
    assert(Seq::new(8, |i: int| t[3 * i + 2].1) =~= serial_events(b)) by {
        assert forall|i: int| 0 <= i < 8 implies #[trigger] t[3 * i + 2] == (s, level(
            serial_bit(b, i),
        )) by {
            assert(bits[3 * i + 1] == (s, level(serial_bit(b, i))));
            assert(t[3 * i + 2] == bits[3 * i + 1]);
        }
    }
    lemma_push_decodes(b);
}

/// Returns the bits of `slot_bits(slot, d)`.
fn direction_bits(slot: usize, d: Direction) -> (r: u8)
    requires
        1 <= slot <= 4,
    ensures
        r == slot_bits(slot as int, d),
{
    match d {
        Direction::Clockwise => if slot == 1 {
            4
        } else if slot == 2 {
            2
        } else if slot == 3 {
            1
        } else {
            32
        },
        Direction::Counterclockwise => if slot == 1 {
            8
        } else if slot == 2 {
            16
        } else if slot == 3 {
            64
        } else {
            128
        },
    }
}

/// Returns the levels pushed for `b`, most significant bit first.
pub fn serial_levels(b: u8) -> (r: Vec<bool>)
    ensures
        r@ == serial_bits(b),
{
    let mut r: Vec<bool> = Vec::new();
    let mut i: u8 = 0;
    while i < 8
        invariant
            i <= 8,
            r@.len() == i,
            forall|k: int| 0 <= k < i ==> r@[k] == serial_bit(b, k),
        decreases 8 - i,
    {
        r.push((b >> (7 - i)) & 1 == 1);
        i = i + 1;
    }
    assert(r@ =~= serial_bits(b));
    r
}

/// Pushes `b` into the shift register: latch low, then for each level of
/// `serial_levels(b)` clock low, serial line to the level, clock high (the
/// rising edge shifts it in), and latch high to show the byte on the outputs.
fn shift_out(
    latch: &mut Line,
    serial: &mut Line,
    clock: &mut Line,
    b: u8,
    trace: &mut Ghost<Seq<(u8, LineEvent)>>,
)
    ensures
        final(trace)@ == old(trace)@ + push_trace(old(latch)@.number, old(clock)@.number, old(serial)@.number, b),
        final(latch)@ == old(latch)@.after_all(latch_events()),
        final(serial)@ == old(serial)@.after_all(serial_events(b)),
        final(clock)@ == old(clock)@.after_all(clock_events()),
{
    let ghost l0 = latch@;
    let ghost s0 = serial@;
    let ghost c0 = clock@;
    let ghost t0 = trace@;
    let levels = serial_levels(b);
    latch.set_low(trace);
    assert(trace@ =~= t0 + seq![(l0.number, LineEvent::Low)] + bits_trace(c0.number, s0.number, b, 0));
    let mut i: usize = 0;
    while i < levels.len()
        invariant
            levels@ == serial_bits(b),
            0 <= i <= 8,
            latch@ == l0.after(LineEvent::Low),
            serial@ == s0.after_all(serial_events(b).take(i as int)),
            clock@ == c0.after_all(clock_events().take(2 * i)),
            trace@ == t0 + seq![(l0.number, LineEvent::Low)] + bits_trace(
                c0.number,
                s0.number,
                b,
                i as nat,
            ),
        decreases levels.len() - i,
    {
        clock.set_low(trace);
        if levels[i] {
            serial.set_high(trace);
        } else {
            serial.set_low(trace);
        }
        clock.set_high(trace);
        assert(bits_trace(c0.number, s0.number, b, (i + 1) as nat) == bits_trace(
            c0.number,
            s0.number,
            b,
            i as nat,
        ) + bit_trace(c0.number, s0.number, serial_bit(b, i as int)));
        assert(trace@ =~= t0 + seq![(l0.number, LineEvent::Low)] + bits_trace(
            c0.number,
            s0.number,
            b,
            (i + 1) as nat,
        ));
        assert(serial_events(b).take(i + 1) =~= serial_events(b).take(i as int).push(
            level(levels@[i as int]),
        ));
        assert(clock_events().take(2 * (i + 1)) =~= clock_events().take(2 * i).push(
            LineEvent::Low,
        ).push(LineEvent::High));
        assert(serial@.log =~= s0.log + serial_events(b).take(i + 1));
        assert(clock@.log =~= c0.log + clock_events().take(2 * (i + 1)));
        i = i + 1;
    }
    latch.set_high(trace);
    assert(trace@ =~= t0 + push_trace(l0.number, c0.number, s0.number, b));
    assert(serial_events(b).take(8) =~= serial_events(b));
    assert(clock_events().take(16) =~= clock_events());
    assert(latch@.log =~= l0.log + latch_events());
}

/// The abstract value of an optional line.
pub open spec fn opt_line(l: Option<Line>) -> Option<LineView> {
    match l {
        Some(x) => Some(x@),
        None => None,
    }
}

/// The motor shield. Its direction byte is computed from the slots whenever
/// it is read or pushed, so it never disagrees with them.
pub struct AMSBoard {
    pin_ser: Option<Line>,
    pin_clk: Option<Line>,
    pin_lat: Option<Line>,
    motors: [Option<Motor>; 4],
    _type: BoardType,
    trace: Ghost<Seq<(u8, LineEvent)>>,
}

impl View for AMSBoard {
    type V = BoardView;

    closed spec fn view(&self) -> BoardView {
        BoardView {
            slots: Seq::new(4, |i: int| opt_view(self.motors@[i])),
            serial: opt_line(self.pin_ser),
            clock: opt_line(self.pin_clk),
            latch: opt_line(self.pin_lat),
            trace: self.trace@,
        }
    }
}

impl AMSBoard {
    /// Every board has four slots.
    pub proof fn lemma_four_slots(&self)
        ensures
            self@.slots.len() == 4,
    {
    }

    /// Creates an empty board with no register lines bound.
    pub fn new(t: BoardType) -> (r: AMSBoard)
        ensures
            r@ == (BoardView {
                slots: seq![None::<MotorView>, None, None, None],
                serial: None,
                clock: None,
                latch: None,
                trace: Seq::empty(),
            }),
    {
        let ghost h = Seq::<(u8, LineEvent)>::empty();
        let r = AMSBoard {
            pin_ser: None,
            pin_clk: None,
            pin_lat: None,
            motors: [None, None, None, None],
            _type: t,
            trace: Ghost(h),
        };
        assert(r@.slots =~= seq![None::<MotorView>, None, None, None]);
        assert(r@ =~= (BoardView {
            slots: seq![None::<MotorView>, None, None, None],
            serial: None,
            clock: None,
            latch: None,
            trace: Seq::empty(),
        }));
        r
    }

    /// Computes the direction byte from the motors now in the slots.
    pub fn calculate_directions(&self) -> (r: u8)
        ensures
            r == self@.directions(),
    {
        let m1: u8 = match &self.motors[0] {
            Some(m) => direction_bits(1, m.get_direction()),
            None => 0,
        };
        let m2: u8 = match &self.motors[1] {
            Some(m) => direction_bits(2, m.get_direction()),
            None => 0,
        };
        let m3: u8 = match &self.motors[2] {
            Some(m) => direction_bits(3, m.get_direction()),
            None => 0,
        };
        let m4: u8 = match &self.motors[3] {
            Some(m) => direction_bits(4, m.get_direction()),
            None => 0,
        };
        m1 | m2 | m3 | m4
    }

    /// Whether all three register lines are bound.
    fn register_pins_are_valid(&self) -> (r: bool)
        ensures
            r == self@.lines_bound(),
    {
        self.pin_clk.is_some() && self.pin_ser.is_some() && self.pin_lat.is_some()
    }

    /// Pushes the direction byte into the shift register: the latch line gets
    /// low then high, the clock line eight rising edges, and the serial line
    /// the byte's bits, most significant first. Fails, writing nothing, when
    /// a register line is unbound.
    pub fn update_shift_register(&mut self) -> (r: Result<(), BoardError>)
        ensures
            old(self)@.lines_bound() ==> r is Ok && final(self)@ == old(self)@.pushed(),
            !old(self)@.lines_bound() ==> r == Err::<(), BoardError>(BoardError::RegisterPinNotSet)
                && final(self)@ == old(self)@,
    {
        let b = self.calculate_directions();
        let done = match &mut self.pin_lat {
            Some(latch) => match &mut self.pin_ser {
                Some(serial) => match &mut self.pin_clk {
                    Some(clock) => {
                        shift_out(latch, serial, clock, b, &mut self.trace);
                        true
                    },
                    None => false,
                },
                None => false,
            },
            None => false,
        };
        if done {
            assert(self@ =~= old(self)@.pushed());
            Ok(())
        } else {
            Err(BoardError::RegisterPinNotSet)
        }
    }

    /// Starts the motor in slot `n` with `cfg`: checks the slot, the register
    /// lines and the motor's line, pushes the direction byte, then drives the
    /// motor's line. Fails, writing nothing, on the first failed check.
    fn start_motor(&mut self, n: usize, cfg: MotorConfig) -> (r: Result<(), BoardError>)
        ensures
            match start_error(old(self)@, n as int) {
                Some(e) => r == Err::<(), BoardError>(e) && final(self)@ == old(self)@,
                None => r is Ok && final(self)@ == old(self)@.pushed().drove(
                    n as int,
                    started_event(cfg@),
                ).with_status(n as int, started_status(cfg@)),
            },
    {
        if n < 1 || n > 4 {
            return Err(BoardError::MotorError(MotorError::MotorIndexOutOfBounds));
        }
        if self.motors[n - 1].is_none() {
            return Err(BoardError::MotorError(MotorError::MotorNotFound));
        }
        if !self.register_pins_are_valid() {
            return Err(BoardError::RegisterPinNotSet);
        }
        let has_pin = match &self.motors[n - 1] {
            Some(m) => m.has_pin(),
            None => false,
        };
        if !has_pin {
            return Err(BoardError::MotorError(MotorError::PinNotSet));
        }
        let _ = self.update_shift_register();
        let ghost mid = self@;
        let ghost c = cfg@;
        match &mut self.motors[n - 1] {
            Some(motor) => {
                let _ = motor.start_traced(cfg, &mut self.trace);
            },
            None => {},
        }
        assert(self@ =~= mid.drove(n as int, started_event(c)).with_status(
            n as int,
            started_status(c),
        ));
        Ok(())
    }

    /// Returns the motor in slot `n` for changes in place. The direction byte
    /// is computed from the slots, so a direction set this way counts from
    /// then on.
    pub fn get_motor(&mut self, n: usize) -> (r: Result<&mut Motor, MotorError>)
        ensures
            match r {
                Ok(m) => slot_error(old(self)@, n as int) is None
                    && old(self)@.slots[n - 1] == Some(m@)
                    && final(self)@ == old(self)@.with_slot(n as int, Some(final(m)@)),
                Err(e) => slot_error(old(self)@, n as int) == Some(e)
                    && final(self)@ == old(self)@,
            },
    {
        if n < 1 || n > 4 {
            return Err(MotorError::MotorIndexOutOfBounds);
        }
        match &mut self.motors[n - 1] {
            Some(m) => Ok(m),
            None => Err(MotorError::MotorNotFound),
        }
    }

    /// Puts motor `m` in slot `n` (1 to 4), replacing any occupant.
    pub fn set_motor(&mut self, m: Motor, n: usize) -> (r: Result<bool, MotorError>)
        ensures
            !(1 <= n <= 4) ==> r == Err::<bool, MotorError>(MotorError::MotorIndexOutOfBounds)
                && final(self)@ == old(self)@,
            1 <= n <= 4 ==> r == Ok::<bool, MotorError>(true) && final(self)@ == old(self)@.with_slot(
                n as int,
                Some(m@),
            ),
    {
        if n < 1 || n > 4 {
            return Err(MotorError::MotorIndexOutOfBounds);
        }
        let ghost v = m@;
        self.motors[n - 1] = Some(m);
        assert(self@ =~= old(self)@.with_slot(n as int, Some(v)));
        Ok(true)
    }

    /// Binds the serial, clock and latch lines of the shift register to the
    /// given BCM pin numbers. On an error of the GPIO layer no line is bound
    /// and the board is left as it was.
    pub fn set_shift_register_pins(&mut self, ser: u8, clk: u8, lat: u8) -> (r: Result<
        (),
        GpioError,
    >)
        ensures
            r is Ok ==> final(self)@ == (BoardView {
                serial: Some(LineView { number: ser, log: Seq::empty() }),
                clock: Some(LineView { number: clk, log: Seq::empty() }),
                latch: Some(LineView { number: lat, log: Seq::empty() }),
                ..old(self)@
            }),
            r is Err ==> final(self)@ == old(self)@,
    {
        let latch = match Line::acquire(lat, false) {
            Ok(l) => l,
            Err(e) => return Err(e),
        };
        let serial = match Line::acquire(ser, false) {
            Ok(l) => l,
            Err(e) => return Err(e),
        };
        let clock = match Line::acquire(clk, false) {
            Ok(l) => l,
            Err(e) => return Err(e),
        };
        self.pin_clk = Some(clock);
        self.pin_lat = Some(latch);
        self.pin_ser = Some(serial);
        assert(self@ =~= (BoardView {
            serial: Some(LineView { number: ser, log: Seq::empty() }),
            clock: Some(LineView { number: clk, log: Seq::empty() }),
            latch: Some(LineView { number: lat, log: Seq::empty() }),
            ..old(self)@
        }));
        Ok(())
    }

    /// Returns the direction byte of the motors now in the slots.
    pub fn get_directions(&self) -> (r: u8)
        ensures
            r == self@.directions(),
    {
        self.calculate_directions()
    }

    /// Inverts the direction of the motor in slot `m` and pushes the new
    /// direction byte when the register lines are bound. An empty or unknown
    /// slot is left alone, and nothing is written: that is no failure.
    pub fn invert_motor_direction(&mut self, m: usize)
        ensures
            slot_error(old(self)@, m as int) is None ==> final(self)@ == old(self)@.with_direction(
                m as int,
                flipped(old(self)@.slots[m - 1]->Some_0.direction),
            ).pushed_if_bound(),
            slot_error(old(self)@, m as int) is Some ==> final(self)@ == old(self)@,
    {
        if m < 1 || m > 4 {
            return;
        }
        let ghost v = self@;
        match &mut self.motors[m - 1] {
            Some(motor) => motor.invert_direction(),
            None => return,
        }
        let ghost d = flipped(v.slots[m - 1]->Some_0.direction);
        assert(self@ =~= v.with_direction(m as int, d));
        if self.register_pins_are_valid() {
            let _ = self.update_shift_register();
        }
    }

    /// Sets the motor in slot `p` to direction `d` and pushes the new
    /// direction byte when the register lines are bound; otherwise the push
    /// waits for the next start, which always pushes.
    pub fn change_motor_direction(&mut self, p: usize, d: Direction) -> (r: Result<(), MotorError>)
        ensures
            match slot_error(old(self)@, p as int) {
                Some(e) => r == Err::<(), MotorError>(e) && final(self)@ == old(self)@,
                None => r is Ok && final(self)@ == old(self)@.with_direction(
                    p as int,
                    d,
                ).pushed_if_bound(),
            },
    {
        if p < 1 || p > 4 {
            return Err(MotorError::MotorIndexOutOfBounds);
        }
        let ghost v = self@;
        match &mut self.motors[p - 1] {
            Some(motor) => motor.set_direction(d),
            None => return Err(MotorError::MotorNotFound),
        }
        assert(self@ =~= v.with_direction(p as int, d));
        if self.register_pins_are_valid() {
            let _ = self.update_shift_register();
        }
        Ok(())
    }

    /// Starts the motor in slot `n` with the given configuration.
    pub fn start_motor_config(&mut self, n: usize, mc: MotorConfig) -> (r: Result<(), BoardError>)
        ensures
            match start_error(old(self)@, n as int) {
                Some(e) => r == Err::<(), BoardError>(e) && final(self)@ == old(self)@,
                None => r is Ok && final(self)@ == old(self)@.pushed().drove(
                    n as int,
                    started_event(mc@),
                ).with_status(n as int, started_status(mc@)),
            },
    {
        self.start_motor(n, mc)
    }

    /// Starts the motor in slot `n` by PWM with period `cycle` and active
    /// width `width`, in microseconds. A width longer than the period is
    /// refused before anything else is checked.
    pub fn start_motor_pwm(&mut self, n: usize, cycle: u64, width: u64) -> (r: Result<(), BoardError>)
        ensures
            width > cycle ==> r == Err::<(), BoardError>(
                BoardError::MotorError(MotorError::PWMDurationTooHigh),
            ) && final(self)@ == old(self)@,
            width <= cycle ==> match start_error(old(self)@, n as int) {
                Some(e) => r == Err::<(), BoardError>(e) && final(self)@ == old(self)@,
                None => r is Ok && final(self)@ == old(self)@.pushed().drove(
                    n as int,
                    LineEvent::Pwm(cycle, width),
                ).with_status(n as int, Status::PWM),
            },
    {
        match MotorConfig::new_pwm(cycle, width) {
            Ok(cfg) => self.start_motor(n, cfg),
            Err(e) => Err(BoardError::MotorError(e)),
        }
    }

    /// Starts the motor in slot `n` at full speed: its line is driven high.
    pub fn start_motor_full(&mut self, n: usize) -> (r: Result<(), BoardError>)
        ensures
            match start_error(old(self)@, n as int) {
                Some(e) => r == Err::<(), BoardError>(e) && final(self)@ == old(self)@,
                None => r is Ok && final(self)@ == old(self)@.pushed().drove(
                    n as int,
                    LineEvent::High,
                ).with_status(n as int, Status::Running),
            },
    {
        self.start_motor(n, MotorConfig::new_full())
    }

    /// Stops the motor in slot `n`: its line goes low and it is idle. Fails,
    /// writing nothing, on a bad slot or a motor without a line.
    pub fn stop_motor(&mut self, n: usize) -> (r: Result<(), BoardError>)
        ensures
            match stop_error(old(self)@, n as int) {
                Some(e) => r == Err::<(), BoardError>(e) && final(self)@ == old(self)@,
                None => r is Ok && final(self)@ == old(self)@.drove(n as int, LineEvent::Low).with_status(
                    n as int,
                    Status::Idle,
                ),
            },
    {
        if n < 1 || n > 4 {
            return Err(BoardError::MotorError(MotorError::MotorIndexOutOfBounds));
        }
        let ghost v = self@;
        match &mut self.motors[n - 1] {
            Some(motor) => match motor.stop_traced(&mut self.trace) {
                Ok(()) => {},
                Err(e) => return Err(BoardError::MotorError(e)),
            },
            None => return Err(BoardError::MotorError(MotorError::MotorNotFound)),
        }
        assert(self@ =~= v.drove(n as int, LineEvent::Low).with_status(n as int, Status::Idle));
        Ok(())
    }

    /// Drives one step of a PWM sweep on the motor in slot `n`, as
    /// `Motor::test_range` does, after checking the slot. Returns the next
    /// width of the sweep, if any.
    pub fn test_motor_range(&mut self, n: usize, cycle: u64, width: u64, up: u64, step: u64) -> (r:
        Result<Option<u64>, BoardError>)
        ensures
            match stop_error(old(self)@, n as int) {
                Some(e) => r == Err::<Option<u64>, BoardError>(e) && final(self)@ == old(self)@,
                None => r == Ok::<Option<u64>, BoardError>(
                    if width < up && width + step < up {
                        Some((width + step) as u64)
                    } else {
                        None
                    },
                ) && final(self)@ == if width < up {
                    old(self)@.drove(n as int, LineEvent::Pwm(cycle, width))
                } else {
                    old(self)@
                },
            },
    {
        if n < 1 || n > 4 {
            return Err(BoardError::MotorError(MotorError::MotorIndexOutOfBounds));
        }
        let ghost v = self@;
        let r = match &mut self.motors[n - 1] {
            Some(motor) => match motor.test_range_traced(cycle, width, up, step, &mut self.trace) {
                Ok(next) => Ok(next),
                Err(e) => Err(BoardError::MotorError(e)),
            },
            None => Err(BoardError::MotorError(MotorError::MotorNotFound)),
        };
        if r.is_ok() && width < up {
            assert(self@ =~= v.drove(n as int, LineEvent::Pwm(cycle, width)));
        } else {
            assert(self@ =~= v);
        }
        r
    }
}

} // verus!
