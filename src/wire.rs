use vstd::prelude::*;

use crate::bits::bit_is_set;

verus! {

/// One of the three bus lines.
#[derive(Clone, Copy, Debug, PartialEq, Eq, Structural)]
pub enum Line {
    Data,
    Load,
    Clock,
}

/// Driving one line high or low.
#[derive(Clone, Copy, Debug, PartialEq, Eq, Structural)]
pub struct PinWrite {
    pub line: Line,
    pub high: bool,
}

/// Order in which the bits of a byte go out on the data line.
#[derive(Clone, Copy, Debug, PartialEq, Eq, Structural)]
pub enum ShiftOrder {
    LsbFirst,
    MsbFirst,
}

/// The write that drives `line` to `high`.
pub open spec fn write_of(line: Line, high: bool) -> PinWrite {
    PinWrite { line, high }
}

/// The bit that goes out in clock period `k` (0..8) of a byte transfer.
pub open spec fn sent_bit(order: ShiftOrder, val: u8, k: nat) -> bool {
    match order {
        ShiftOrder::MsbFirst => bit_is_set(val, (7 - k) as u8),
        ShiftOrder::LsbFirst => bit_is_set(val, k as u8),
    }
}

/// One bit on the bus: data line to the bit, then a clock pulse.
pub open spec fn clocked_bit(b: bool) -> Seq<PinWrite> {
    seq![write_of(Line::Data, b), write_of(Line::Clock, true), write_of(Line::Clock, false)]
}

/// The first `k` clock periods of a byte transfer.
pub open spec fn bit_writes(order: ShiftOrder, val: u8, k: nat) -> Seq<PinWrite>
    decreases k,
{
    if k == 0 {
        Seq::empty()
    } else {
        bit_writes(order, val, (k - 1) as nat) + clocked_bit(sent_bit(order, val, (k - 1) as nat))
    }
}

/// A whole byte transfer: eight clocked bits.
pub open spec fn byte_writes(order: ShiftOrder, val: u8) -> Seq<PinWrite> {
    bit_writes(order, val, 8)
}

/// A register/value pair, most significant bit first.
pub open spec fn pair_writes(p: (u8, u8)) -> Seq<PinWrite> {
    byte_writes(ShiftOrder::MsbFirst, p.0) + byte_writes(ShiftOrder::MsbFirst, p.1)
}

/// Pairs sent back to back, the first one in the sequence first.
pub open spec fn pairs_writes(ps: Seq<(u8, u8)>) -> Seq<PinWrite>
    decreases ps.len(),
{
    if ps.len() == 0 {
        Seq::empty()
    } else {
        pairs_writes(ps.drop_last()) + pair_writes(ps.last())
    }
}

/// One latch cycle: load low, the pairs, then load low and high, which
/// commits the shifted-in pairs in every chip of the chain at once.
pub open spec fn latch_cycle(ps: Seq<(u8, u8)>) -> Seq<PinWrite> {
    seq![write_of(Line::Load, false)] + pairs_writes(ps) + seq![
        write_of(Line::Load, false),
        write_of(Line::Load, true),
    ]
}

pub proof fn lemma_pairs_writes_push(ps: Seq<(u8, u8)>, p: (u8, u8))
    ensures
        pairs_writes(ps.push(p)) == pairs_writes(ps) + pair_writes(p),
{
    assert(ps.push(p).drop_last() =~= ps);
}

/// Queues one write.
pub fn drive(out: &mut Vec<PinWrite>, line: Line, high: bool)
    ensures
        final(out)@ == old(out)@.push(write_of(line, high)),
{
    out.push(PinWrite { line, high });
}

/// Queues the transfer of one byte in the given bit order.
pub fn shift_out(out: &mut Vec<PinWrite>, bit_order: ShiftOrder, val: u8)
    ensures
        final(out)@ == old(out)@ + byte_writes(bit_order, val),
{
    let ghost start = out@;
    let mut k: u8 = 0;
    while k < 8
        invariant
            k <= 8,
            out@ == start + bit_writes(bit_order, val, k as nat),
        decreases 8 - k,
    {
        let b = match bit_order {
            ShiftOrder::LsbFirst => (val >> k) & 1u8 == 1u8,
            ShiftOrder::MsbFirst => (val >> (7 - k)) & 1u8 == 1u8,
        };
        drive(out, Line::Data, b);
        drive(out, Line::Clock, true);
        drive(out, Line::Clock, false);
        proof {
            assert(b == sent_bit(bit_order, val, k as nat));
            assert(out@ =~= start + bit_writes(bit_order, val, (k + 1) as nat));
        }
        k = k + 1;
    }
}

/// Queues one register/value pair.
pub fn send_pair(out: &mut Vec<PinWrite>, register: u8, value: u8)
    ensures
        final(out)@ == old(out)@ + pair_writes((register, value)),
{
    shift_out(out, ShiftOrder::MsbFirst, register);
    shift_out(out, ShiftOrder::MsbFirst, value);
    assert(out@ =~= old(out)@ + pair_writes((register, value)));
}

} // verus!
