use vstd::prelude::*;

use crate::bits::{bit_is_set, with_bit};
use crate::matrix::{byte_up, shifted_left, shifted_right, shifted_up, with_dot, BUFFER_LEN};

verus! {

/// Setting a dot that was off and then clearing it again gives its column
/// back unchanged. (Were the dot on before, the pair would leave it off.)
pub proof fn lemma_set_dot_then_unset(buf: Seq<u8>, col: int, row: u8)
    requires
        0 <= col < buf.len(),
        row < 8,
        !bit_is_set(buf[col], row),
    ensures
        with_dot(with_dot(buf, col, row, true), col, row, false)[col] == buf[col],
{
    let v = buf[col];
    assert(with_bit(with_bit(v, row, true), row, false) == v) by (bit_vector)
        requires
            row < 8,
            !((v >> row) & 1u8 == 1u8),
    ;
}

/// A rotating shift left followed by a rotating shift right gives the
/// whole buffer back.
pub proof fn lemma_shift_left_right_round_trip(buf: Seq<u8>)
    requires
        buf.len() == BUFFER_LEN,
    ensures
        shifted_right(shifted_left(buf, true, false), true, false) == buf,
{
    let back = shifted_right(shifted_left(buf, true, false), true, false);
    assert(back =~= buf);
}

/// `k` rotating shifts up of the whole chain.
pub open spec fn shifted_up_times(buf: Seq<u8>, n: nat, k: nat) -> Seq<u8>
    decreases k,
{
    if k == 0 {
        buf
    } else {
        shifted_up(shifted_up_times(buf, n, (k - 1) as nat), n, true)
    }
}

/// `k` rotating shifts up of one column.
pub open spec fn byte_up_times(v: u8, k: nat) -> u8
    decreases k,
{
    if k == 0 {
        v
    } else {
        byte_up(byte_up_times(v, (k - 1) as nat), true)
    }
}

proof fn lemma_shifted_up_times_len(buf: Seq<u8>, n: nat, k: nat)
    ensures
        shifted_up_times(buf, n, k).len() == buf.len(),
    decreases k,
{
    if k > 0 {
        lemma_shifted_up_times_len(buf, n, (k - 1) as nat);
    }
}

proof fn lemma_shifted_up_times_at(buf: Seq<u8>, n: nat, k: nat, i: int)
    requires
        0 <= i < buf.len(),
    ensures
        shifted_up_times(buf, n, k)[i] == if i < 8 * n {
            byte_up_times(buf[i], k)
        } else {
            buf[i]
        },
    decreases k,
{
    if k > 0 {
        lemma_shifted_up_times_len(buf, n, (k - 1) as nat);
        lemma_shifted_up_times_at(buf, n, (k - 1) as nat, i);
    }
}

/// Eight rotating shifts up bring every column back to where it started.
pub proof fn lemma_byte_up_eight(v: u8)
    ensures
        byte_up_times(v, 8) == v,
{
    reveal_with_fuel(byte_up_times, 9);
    assert(byte_up(
        byte_up(
            byte_up(
                byte_up(byte_up(byte_up(byte_up(byte_up(v, true), true), true), true), true),
                true,
            ),
            true,
        ),
        true,
    ) == v) by (bit_vector);
}

/// Eight rotating shifts up give the whole buffer back.
pub proof fn lemma_shift_up_eight(buf: Seq<u8>, n: nat)
    ensures
        shifted_up_times(buf, n, 8) == buf,
{
    assert forall|i: int| 0 <= i < buf.len() implies #[trigger] shifted_up_times(buf, n, 8)[i]
        == buf[i] by {
        lemma_shifted_up_times_at(buf, n, 8, i);
        lemma_byte_up_eight(buf[i]);
    }
    lemma_shifted_up_times_len(buf, n, 8);
    assert(shifted_up_times(buf, n, 8) =~= buf);
}

} // verus!
