use vstd::prelude::*;

use crate::bits::{bit_write, with_bit};
use crate::wire::{
    drive, latch_cycle, lemma_pairs_writes_push, pairs_writes, send_pair, write_of, Line,
    PinWrite,
};

verus! {

/// Bytes in the framebuffer: eight columns for each of up to ten panels.
pub const BUFFER_LEN: usize = 80;

/// Most panels that the framebuffer can hold.
pub const MAX_PANELS: u8 = 10;

/// Register that selects digit decoding (0: raw LED matrix).
pub const REG_DECODE_MODE: u8 = 0x09;
/// Brightness register (0 to 15).
pub const REG_INTENSITY: u8 = 0x0a;
/// Register that sets how many columns are scanned (7: all eight).
pub const REG_SCAN_LIMIT: u8 = 0x0b;
/// Shutdown register (1: normal operation).
pub const REG_SHUTDOWN: u8 = 0x0c;
/// Display-test register (0: off).
pub const REG_DISPLAY_TEST: u8 = 0x0f;

/// The same register/value pair for each of `n` chips.
pub open spec fn broadcast_pairs(n: nat, register: u8, value: u8) -> Seq<(u8, u8)> {
    Seq::new(n, |_i: int| (register, value))
}

/// Local column `k` of every chip, taken from the buffer, chip 0 first.
pub open spec fn reload_pairs(buf: Seq<u8>, n: nat, k: int) -> Seq<(u8, u8)> {
    Seq::new(n, |i: int| ((k + 1) as u8, buf[i * 8 + k]))
}

/// Local column `col % 8` of chip `col / 8` gets `value`; every other chip
/// gets the no-op pair, which leaves its display as it is.
pub open spec fn addressed_pairs(n: nat, col: u8, value: u8) -> Seq<(u8, u8)> {
    Seq::new(
        n,
        |i: int|
            if i == (col / 8) as int {
                ((col % 8 + 1) as u8, value)
            } else {
                (0u8, 0u8)
            },
    )
}

/// `buf` with bit `row` of column `col` set to `value`.
pub open spec fn with_dot(buf: Seq<u8>, col: int, row: u8, value: bool) -> Seq<u8> {
    buf.update(col, with_bit(buf[col], row, value))
}

/// Whether buffer index `j` is `col * m` for some chip position `m < n`:
/// the indices that a column broadcast stores its value at.
pub open spec fn broadcast_target(col: u8, n: nat, j: int) -> bool {
    exists|m: int| 0 <= m < n && j == #[trigger] broadcast_index(col, m)
}

/// Buffer index that a column broadcast writes for chip position `m`.
pub open spec fn broadcast_index(col: u8, m: int) -> int {
    col * m
}

/// The buffer after a broadcast of `value` to local column `col` of `n` chips.
pub open spec fn broadcast_buffer(buf: Seq<u8>, n: nat, col: u8, value: u8) -> Seq<u8> {
    Seq::new(buf.len(), |j: int| if broadcast_target(col, n, j) { value } else { buf[j] })
}

/// The first `k` latch cycles of a clear: local column `j` of every chip
/// set to zero, for `j < k`.
pub open spec fn clear_writes(n: nat, k: nat) -> Seq<PinWrite>
    decreases k,
{
    if k == 0 {
        Seq::empty()
    } else {
        clear_writes(n, (k - 1) as nat) + latch_cycle(broadcast_pairs(n, k as u8, 0))
    }
}

/// The power-up sequence: clock idle high, scan limit, decode mode, out of
/// shutdown, display test off, a clear, then full brightness.
pub open spec fn init_writes(n: nat) -> Seq<PinWrite> {
    seq![write_of(Line::Clock, true)] + latch_cycle(broadcast_pairs(n, REG_SCAN_LIMIT, 0x07))
        + latch_cycle(broadcast_pairs(n, REG_DECODE_MODE, 0x00)) + latch_cycle(
        broadcast_pairs(n, REG_SHUTDOWN, 0x01),
    ) + latch_cycle(broadcast_pairs(n, REG_DISPLAY_TEST, 0x00)) + clear_writes(n, 8)
        + latch_cycle(broadcast_pairs(n, REG_INTENSITY, 0x0f))
}

proof fn lemma_broadcast_target_step(col: u8, i: nat, j: int)
    ensures
        broadcast_target(col, i + 1, j) == (j == col * i || broadcast_target(col, i, j)),
{
    if broadcast_target(col, i + 1, j) {
        let m = choose|m: int| 0 <= m < i + 1 && j == broadcast_index(col, m);
        if m < i {
            assert(broadcast_target(col, i, j));
        }
    }
    if broadcast_target(col, i, j) {
        let m = choose|m: int| 0 <= m < i && j == broadcast_index(col, m);
        assert(0 <= m < i + 1 && j == broadcast_index(col, m));
    }
    if j == col * i {
        assert(0 <= i < i + 1 && j == broadcast_index(col, i as int));
    }
}

/// The whole buffer with every byte moved one index down. The vacated last
/// byte gets the byte pushed out at index 0 (`rotate`), or zero
/// (`fill_zero`), or keeps its value.
pub open spec fn shifted_left(buf: Seq<u8>, rotate: bool, fill_zero: bool) -> Seq<u8> {
    let moved = Seq::new(buf.len(), |i: int| if i + 1 < buf.len() { buf[i + 1] } else { buf[i] });
    if rotate {
        moved.update(BUFFER_LEN - 1, buf[0])
    } else if fill_zero {
        moved.update(BUFFER_LEN - 1, 0u8)
    } else {
        moved
    }
}

/// The whole buffer with every byte moved one index up. The vacated byte 0
/// gets the byte pushed out at the last index (`rotate`), or zero
/// (`fill_zero`), or keeps its value.
pub open spec fn shifted_right(buf: Seq<u8>, rotate: bool, fill_zero: bool) -> Seq<u8> {
    let moved = Seq::new(buf.len(), |i: int| if i == 0 { buf[0] } else { buf[i - 1] });
    if rotate {
        moved.update(0, buf[BUFFER_LEN - 1])
    } else if fill_zero {
        moved.update(0, 0u8)
    } else {
        moved
    }
}

/// A column moved one row toward row 0; row 7 gets the old row 0 when
/// rotating, else zero.
pub open spec fn byte_up(v: u8, rotate: bool) -> u8 {
    if rotate {
        (v >> 1u8) | ((v & 1u8) << 7u8)
    } else {
        v >> 1u8
    }
}

/// A column moved one row toward row 7; row 0 gets the old row 7 when
/// rotating, else zero.
pub open spec fn byte_down(v: u8, rotate: bool) -> u8 {
    if rotate {
        (v << 1u8) | (v >> 7u8)
    } else {
        v << 1u8
    }
}

/// Every column of the chain moved up a row; the unused tail stays.
pub open spec fn shifted_up(buf: Seq<u8>, n: nat, rotate: bool) -> Seq<u8> {
    Seq::new(buf.len(), |i: int| if i < 8 * n { byte_up(buf[i], rotate) } else { buf[i] })
}

/// Every column of the chain moved down a row; the unused tail stays.
pub open spec fn shifted_down(buf: Seq<u8>, n: nat, rotate: bool) -> Seq<u8> {
    Seq::new(buf.len(), |i: int| if i < 8 * n { byte_down(buf[i], rotate) } else { buf[i] })
}

/// The first `k` latch cycles of a reload: one per local column.
pub open spec fn reload_writes(buf: Seq<u8>, n: nat, k: nat) -> Seq<PinWrite>
    decreases k,
{
    if k == 0 {
        Seq::empty()
    } else {
        reload_writes(buf, n, (k - 1) as nat) + latch_cycle(reload_pairs(buf, n, k - 1))
    }
}

/// A chain of MAX7219 controllers with its framebuffer and the queue of
/// bus writes that have not been played yet.
pub struct MaxMatrix {
    num_panels: u8,
    data_buffer: [u8; 80],
    pending: Vec<PinWrite>,
}

impl MaxMatrix {
    /// Number of panels in the chain.
    pub closed spec fn panels(&self) -> nat {
        self.num_panels as nat
    }

    /// The framebuffer: byte `c` is column `c`, bit `r` of it row `r`.
    pub closed spec fn buffer(&self) -> Seq<u8> {
        self.data_buffer@
    }

    /// The bus writes queued so far, oldest first.
    pub closed spec fn writes(&self) -> Seq<PinWrite> {
        self.pending@
    }

    /// A chain of one to ten panels over the full-size buffer.
    pub open spec fn wf(&self) -> bool {
        &&& 1 <= self.panels() <= MAX_PANELS
        &&& self.buffer().len() == BUFFER_LEN
    }

    /// A driver for a chain of `num` panels, with a blank framebuffer and
    /// nothing queued.
    pub fn new(num: u8) -> (r: Self)
        requires
            1 <= num <= MAX_PANELS,
        ensures
            r.wf(),
            r.panels() == num,
            r.buffer() == Seq::new(BUFFER_LEN as nat, |_i: int| 0u8),
            r.writes() == Seq::<PinWrite>::empty(),
    {
        let r = MaxMatrix { num_panels: num, data_buffer: [0u8; 80], pending: Vec::new() };
        assert(r.data_buffer@ =~= Seq::new(BUFFER_LEN as nat, |_i: int| 0u8));
        r
    }

    /// Writes `register` with `value` in every chip of the chain.
    fn set_command(&mut self, command: u8, value: u8)
        requires
            old(self).wf(),
        ensures
            final(self).wf(),
            final(self).panels() == old(self).panels(),
            final(self).buffer() == old(self).buffer(),
            final(self).writes() == old(self).writes() + latch_cycle(
                broadcast_pairs(old(self).panels(), command, value),
            ),
    {
        let ghost start = self.pending@;
        drive(&mut self.pending, Line::Load, false);
        let mut i: u8 = 0;
        while i < self.num_panels
            invariant
                self.wf(),
                i <= self.num_panels,
                self.num_panels == old(self).num_panels,
                self.data_buffer == old(self).data_buffer,
                self.pending@ == start + seq![write_of(Line::Load, false)] + pairs_writes(
                    broadcast_pairs(i as nat, command, value),
                ),
            decreases self.num_panels - i,
        {
            send_pair(&mut self.pending, command, value);
            proof {
                assert(broadcast_pairs((i + 1) as nat, command, value) =~= broadcast_pairs(
                    i as nat,
                    command,
                    value,
                ).push((command, value)));
                lemma_pairs_writes_push(broadcast_pairs(i as nat, command, value), (command, value));
            }
            i = i + 1;
        }
        drive(&mut self.pending, Line::Load, false);
        drive(&mut self.pending, Line::Load, true);
        assert(self.pending@ =~= start + latch_cycle(broadcast_pairs(self.panels(), command, value)));
    }

    /// Sends every column of the framebuffer to its chip: one latch cycle
    /// per local column, each carrying that column of every chip.
    pub fn reload(&mut self)
        requires
            old(self).wf(),
        ensures
            final(self).wf(),
            final(self).panels() == old(self).panels(),
            final(self).buffer() == old(self).buffer(),
            final(self).writes() == old(self).writes() + reload_writes(
                old(self).buffer(),
                old(self).panels(),
                8,
            ),
    {
        let ghost start = self.pending@;
        let ghost buf = self.data_buffer@;
        let ghost n = self.num_panels as nat;
        let mut k: u8 = 0;
        while k < 8
            invariant
                self.wf(),
                k <= 8,
                self.num_panels == old(self).num_panels,
                self.data_buffer == old(self).data_buffer,
                buf == self.data_buffer@,
                n == self.num_panels,
                self.pending@ == start + reload_writes(buf, n, k as nat),
            decreases 8 - k,
        {
            let ghost before = self.pending@;
            drive(&mut self.pending, Line::Load, false);
            let mut i: u8 = 0;
            let mut col: usize = k as usize;
            while i < self.num_panels
                invariant
                    self.wf(),
                    k < 8,
                    i <= self.num_panels,
                    col == i as int * 8 + k as int,
                    self.num_panels == old(self).num_panels,
                    self.data_buffer == old(self).data_buffer,
                    buf == self.data_buffer@,
                    n == self.num_panels,
                    self.pending@ == before + seq![write_of(Line::Load, false)] + pairs_writes(
                        reload_pairs(buf, i as nat, k as int),
                    ),
                decreases self.num_panels - i,
            {
                send_pair(&mut self.pending, k + 1, self.data_buffer[col]);
                proof {
                    assert(reload_pairs(buf, (i + 1) as nat, k as int) =~= reload_pairs(
                        buf,
                        i as nat,
                        k as int,
                    ).push(((k + 1) as u8, buf[col as int])));
                    lemma_pairs_writes_push(
                        reload_pairs(buf, i as nat, k as int),
                        ((k + 1) as u8, buf[col as int]),
                    );
                }
                i = i + 1;
                col = col + 8;
            }
            drive(&mut self.pending, Line::Load, false);
            drive(&mut self.pending, Line::Load, true);
            assert(self.pending@ =~= start + reload_writes(buf, n, (k + 1) as nat));
            k = k + 1;
        }
    }

    /// One latch cycle that writes `value` to column `col` of the chain and
    /// leaves every other chip alone.
    fn write_column(&mut self, col: u8, value: u8)
        requires
            old(self).wf(),
            (col as nat) < 8 * old(self).panels(),
        ensures
            final(self).wf(),
            final(self).panels() == old(self).panels(),
            final(self).buffer() == old(self).buffer(),
            final(self).writes() == old(self).writes() + latch_cycle(
                addressed_pairs(old(self).panels(), col, value),
            ),
    {
        let ghost start = self.pending@;
        let n: u8 = col / 8;
        let c: u8 = col % 8;
        drive(&mut self.pending, Line::Load, false);
        let mut i: u8 = 0;
        while i < self.num_panels
            invariant
                self.wf(),
                i <= self.num_panels,
                n == col / 8,
                c == col % 8,
                self.num_panels == old(self).num_panels,
                self.data_buffer == old(self).data_buffer,
                self.pending@ == start + seq![write_of(Line::Load, false)] + pairs_writes(
                    addressed_pairs(i as nat, col, value),
                ),
            decreases self.num_panels - i,
        {
            let ghost p: (u8, u8) = if i == n {
                ((c + 1) as u8, value)
            } else {
                (0u8, 0u8)
            };
            if i == n {
                send_pair(&mut self.pending, c + 1, value);
            } else {
                send_pair(&mut self.pending, 0, 0);
            }
            proof {
                assert(addressed_pairs((i + 1) as nat, col, value) =~= addressed_pairs(
                    i as nat,
                    col,
                    value,
                ).push(p));
                lemma_pairs_writes_push(addressed_pairs(i as nat, col, value), p);
            }
            i = i + 1;
        }
        drive(&mut self.pending, Line::Load, false);
        drive(&mut self.pending, Line::Load, true);
        assert(self.pending@ =~= start + latch_cycle(addressed_pairs(self.panels(), col, value)));
    }

    /// Sets column `col` of the chain to `value` (bit `r` is row `r`), in the
    /// buffer and on the display.
    pub fn set_column(&mut self, col: u8, value: u8)
        requires
            old(self).wf(),
            (col as nat) < 8 * old(self).panels(),
        ensures
            final(self).wf(),
            final(self).panels() == old(self).panels(),
            final(self).buffer() == old(self).buffer().update(col as int, value),
            final(self).writes() == old(self).writes() + latch_cycle(
                addressed_pairs(old(self).panels(), col, value),
            ),
    {
        self.write_column(col, value);
        self.data_buffer[col as usize] = value;
    }

    /// Sets local column `col` of every chip to `value` in one latch cycle.
    ///
    /// In the buffer, the value goes to index `col * i` for each chip
    /// position `i`. This index does not follow the `chip * 8 + col` layout
    /// of the other operations (for column 0 only index 0 changes); it is
    /// kept so on purpose.
    pub fn set_column_all(&mut self, col: u8, value: u8)
        requires
            old(self).wf(),
            col < 8,
        ensures
            final(self).wf(),
            final(self).panels() == old(self).panels(),
            final(self).buffer() == broadcast_buffer(
                old(self).buffer(),
                old(self).panels(),
                col,
                value,
            ),
            final(self).writes() == old(self).writes() + latch_cycle(
                broadcast_pairs(old(self).panels(), (col + 1) as u8, value),
            ),
    {
        let ghost start = self.pending@;
        let ghost buf = self.data_buffer@;
        drive(&mut self.pending, Line::Load, false);
        let mut i: u8 = 0;
        while i < self.num_panels
            invariant
                self.wf(),
                col < 8,
                i <= self.num_panels,
                self.num_panels == old(self).num_panels,
                buf == old(self).data_buffer@,
                self.data_buffer@ == broadcast_buffer(buf, i as nat, col, value),
                self.pending@ == start + seq![write_of(Line::Load, false)] + pairs_writes(
                    broadcast_pairs(i as nat, (col + 1) as u8, value),
                ),
            decreases self.num_panels - i,
        {
            send_pair(&mut self.pending, col + 1, value);
            proof {
                assert(broadcast_pairs((i + 1) as nat, (col + 1) as u8, value) =~= broadcast_pairs(
                    i as nat,
                    (col + 1) as u8,
                    value,
                ).push(((col + 1) as u8, value)));
                lemma_pairs_writes_push(
                    broadcast_pairs(i as nat, (col + 1) as u8, value),
                    ((col + 1) as u8, value),
                );
                assert((col as int) * (i as int) <= 7 * 9) by (nonlinear_arith)
                    requires col < 8, i < 10;
            }
            self.data_buffer[(col * i) as usize] = value;
            proof {
                assert forall|j: int| 0 <= j < BUFFER_LEN implies #[trigger] self.data_buffer@[j]
                    == broadcast_buffer(buf, (i + 1) as nat, col, value)[j] by {
                    lemma_broadcast_target_step(col, i as nat, j);
                }
                assert(self.data_buffer@ =~= broadcast_buffer(buf, (i + 1) as nat, col, value));
            }
            i = i + 1;
        }
        drive(&mut self.pending, Line::Load, false);
        drive(&mut self.pending, Line::Load, true);
        assert(self.pending@ =~= start + latch_cycle(
            broadcast_pairs(self.panels(), (col + 1) as u8, value),
        ));
    }

    /// Sets bit `row` of column `col` in the buffer only; the display is not
    /// touched.
    pub fn update_buffer_at(&mut self, col: u8, row: u8, value: bool)
        requires
            old(self).wf(),
            (col as nat) < 8 * old(self).panels(),
            row < 8,
        ensures
            final(self).wf(),
            final(self).panels() == old(self).panels(),
            final(self).buffer() == with_dot(old(self).buffer(), col as int, row, value),
            final(self).writes() == old(self).writes(),
    {
        let mut b: u8 = self.data_buffer[col as usize];
        bit_write(&mut b, row, value);
        self.data_buffer[col as usize] = b;
    }

    /// Sets bit `row` of column `col` and sends that column to its chip.
    pub fn set_dot(&mut self, col: u8, row: u8, value: bool)
        requires
            old(self).wf(),
            (col as nat) < 8 * old(self).panels(),
            row < 8,
        ensures
            final(self).wf(),
            final(self).panels() == old(self).panels(),
            final(self).buffer() == with_dot(old(self).buffer(), col as int, row, value),
            final(self).writes() == old(self).writes() + latch_cycle(
                addressed_pairs(
                    old(self).panels(),
                    col,
                    with_bit(old(self).buffer()[col as int], row, value),
                ),
            ),
    {
        self.update_buffer_at(col, row, value);
        let b: u8 = self.data_buffer[col as usize];
        self.write_column(col, b);
    }

    /// Writes the intensity register (0 to 15) of every chip.
    pub fn set_intensity(&mut self, intensity: u8)
        requires
            old(self).wf(),
        ensures
            final(self).wf(),
            final(self).panels() == old(self).panels(),
            final(self).buffer() == old(self).buffer(),
            final(self).writes() == old(self).writes() + latch_cycle(
                broadcast_pairs(old(self).panels(), REG_INTENSITY, intensity),
            ),
    {
        self.set_command(REG_INTENSITY, intensity);
    }

    /// Blanks every column of every chip, then zeroes the whole buffer.
    pub fn clear(&mut self)
        requires
            old(self).wf(),
        ensures
            final(self).wf(),
            final(self).panels() == old(self).panels(),
            final(self).buffer() == Seq::new(BUFFER_LEN as nat, |_i: int| 0u8),
            final(self).writes() == old(self).writes() + clear_writes(old(self).panels(), 8),
    {
        let ghost start = self.pending@;
        let mut k: u8 = 0;
        while k < 8
            invariant
                self.wf(),
                k <= 8,
                self.num_panels == old(self).num_panels,
                self.pending@ == start + clear_writes(self.panels(), k as nat),
            decreases 8 - k,
        {
            self.set_column_all(k, 0);
            assert(self.pending@ =~= start + clear_writes(self.panels(), (k + 1) as nat));
            k = k + 1;
        }
        let mut i: usize = 0;
        while i < BUFFER_LEN
            invariant
                self.wf(),
                i <= BUFFER_LEN,
                self.num_panels == old(self).num_panels,
                self.pending@ == start + clear_writes(self.panels(), 8),
                forall|j: int| 0 <= j < i ==> self.data_buffer@[j] == 0u8,
            decreases BUFFER_LEN - i,
        {
            self.data_buffer[i] = 0;
            i = i + 1;
        }
        assert(self.data_buffer@ =~= Seq::new(BUFFER_LEN as nat, |_i: int| 0u8));
    }

    /// Brings the chain up: clock idle high, all eight columns scanned, raw
    /// matrix mode, out of shutdown, display test off, a clear, and full
    /// brightness.
    pub fn init(&mut self)
        requires
            old(self).wf(),
        ensures
            final(self).wf(),
            final(self).panels() == old(self).panels(),
            final(self).buffer() == Seq::new(BUFFER_LEN as nat, |_i: int| 0u8),
            final(self).writes() == old(self).writes() + init_writes(old(self).panels()),
    {
        let ghost start = self.pending@;
        drive(&mut self.pending, Line::Clock, true);
        self.set_command(REG_SCAN_LIMIT, 0x07);
        self.set_command(REG_DECODE_MODE, 0x00);
        self.set_command(REG_SHUTDOWN, 0x01);
        self.set_command(REG_DISPLAY_TEST, 0x00);
        self.clear();
        self.set_intensity(0x0f);
        assert(self.pending@ =~= start + init_writes(self.panels()));
    }

    /// Moves every byte of the whole buffer one index toward index 0, fills
    /// the last byte as `rotate` and `fill_zero` say, and reloads.
    pub fn shift_left(&mut self, rotate: bool, fill_zero: bool)
        requires
            old(self).wf(),
        ensures
            final(self).wf(),
            final(self).panels() == old(self).panels(),
            final(self).buffer() == shifted_left(old(self).buffer(), rotate, fill_zero),
            final(self).writes() == old(self).writes() + reload_writes(
                final(self).buffer(),
                old(self).panels(),
                8,
            ),
    {
        let ghost buf = self.data_buffer@;
        let first: u8 = self.data_buffer[0];
        let mut i: usize = 0;
        while i < BUFFER_LEN - 1
            invariant
                self.wf(),
                i <= BUFFER_LEN - 1,
                self.num_panels == old(self).num_panels,
                self.pending == old(self).pending,
                buf == old(self).data_buffer@,
                forall|j: int| 0 <= j < i ==> self.data_buffer@[j] == buf[j + 1],
                forall|j: int| i <= j < BUFFER_LEN ==> self.data_buffer@[j] == buf[j],
            decreases BUFFER_LEN - 1 - i,
        {
            self.data_buffer[i] = self.data_buffer[i + 1];
            i = i + 1;
        }
        if rotate {
            self.data_buffer[BUFFER_LEN - 1] = first;
        } else if fill_zero {
            self.data_buffer[BUFFER_LEN - 1] = 0;
        }
        assert(self.data_buffer@ =~= shifted_left(buf, rotate, fill_zero));
        self.reload();
    }

    /// Moves every byte of the whole buffer one index away from index 0,
    /// fills index 0 as `rotate` and `fill_zero` say, and reloads.
    pub fn shift_right(&mut self, rotate: bool, fill_zero: bool)
        requires
            old(self).wf(),
        ensures
            final(self).wf(),
            final(self).panels() == old(self).panels(),
            final(self).buffer() == shifted_right(old(self).buffer(), rotate, fill_zero),
            final(self).writes() == old(self).writes() + reload_writes(
                final(self).buffer(),
                old(self).panels(),
                8,
            ),
    {
        let ghost buf = self.data_buffer@;
        let old_last: u8 = self.data_buffer[BUFFER_LEN - 1];
        let mut i: usize = BUFFER_LEN - 1;
        while i > 0
            invariant
                self.wf(),
                i <= BUFFER_LEN - 1,
                self.num_panels == old(self).num_panels,
                self.pending == old(self).pending,
                buf == old(self).data_buffer@,
                forall|j: int| i < j < BUFFER_LEN ==> self.data_buffer@[j] == buf[j - 1],
                forall|j: int| 0 <= j <= i ==> self.data_buffer@[j] == buf[j],
            decreases i,
        {
            self.data_buffer[i] = self.data_buffer[i - 1];
            i = i - 1;
        }
        if rotate {
            self.data_buffer[0] = old_last;
        } else if fill_zero {
            self.data_buffer[0] = 0;
        }
        assert(self.data_buffer@ =~= shifted_right(buf, rotate, fill_zero));
        self.reload();
    }

    /// Moves every column of the chain one row toward row 0 (rotating row 0
    /// into row 7 when `rotate`), and reloads.
    pub fn shift_up(&mut self, rotate: bool)
        requires
            old(self).wf(),
        ensures
            final(self).wf(),
            final(self).panels() == old(self).panels(),
            final(self).buffer() == shifted_up(old(self).buffer(), old(self).panels(), rotate),
            final(self).writes() == old(self).writes() + reload_writes(
                final(self).buffer(),
                old(self).panels(),
                8,
            ),
    {
        let ghost buf = self.data_buffer@;
        let end: usize = self.num_panels as usize * 8;
        let mut i: usize = 0;
        while i < end
            invariant
                self.wf(),
                i <= end,
                end == 8 * self.panels(),
                self.num_panels == old(self).num_panels,
                self.pending == old(self).pending,
                buf == old(self).data_buffer@,
                forall|j: int| 0 <= j < i ==> self.data_buffer@[j] == byte_up(buf[j], rotate),
                forall|j: int| i <= j < BUFFER_LEN ==> self.data_buffer@[j] == buf[j],
            decreases end - i,
        {
            let v: u8 = self.data_buffer[i];
            let low: bool = v & 1u8 > 0;
            let mut b: u8 = v >> 1u8;
            if rotate {
                bit_write(&mut b, 7, low);
            }
            assert(b == byte_up(v, rotate)) by {
                assert(with_bit(v >> 1u8, 7, v & 1u8 > 0) == (v >> 1u8) | ((v & 1u8) << 7u8))
                    by (bit_vector);
            }
            self.data_buffer[i] = b;
            i = i + 1;
        }
        assert(self.data_buffer@ =~= shifted_up(buf, self.panels(), rotate));
        self.reload();
    }

    /// Moves every column of the chain one row toward row 7 (rotating row 7
    /// into row 0 when `rotate`), and reloads.
    pub fn shift_down(&mut self, rotate: bool)
        requires
            old(self).wf(),
        ensures
            final(self).wf(),
            final(self).panels() == old(self).panels(),
            final(self).buffer() == shifted_down(old(self).buffer(), old(self).panels(), rotate),
            final(self).writes() == old(self).writes() + reload_writes(
                final(self).buffer(),
                old(self).panels(),
                8,
            ),
    {
        let ghost buf = self.data_buffer@;
        let end: usize = self.num_panels as usize * 8;
        let mut i: usize = 0;
        while i < end
            invariant
                self.wf(),
                i <= end,
                end == 8 * self.panels(),
                self.num_panels == old(self).num_panels,
                self.pending == old(self).pending,
                buf == old(self).data_buffer@,
                forall|j: int| 0 <= j < i ==> self.data_buffer@[j] == byte_down(buf[j], rotate),
                forall|j: int| i <= j < BUFFER_LEN ==> self.data_buffer@[j] == buf[j],
            decreases end - i,
        {
            let v: u8 = self.data_buffer[i];
            let high: bool = v & 0x80u8 > 0;
            let mut b: u8 = v << 1u8;
            if rotate {
                bit_write(&mut b, 0, high);
            }
            assert(b == byte_down(v, rotate)) by {
                assert(with_bit(v << 1u8, 0, v & 0x80u8 > 0) == (v << 1u8) | (v >> 7u8))
                    by (bit_vector);
            }
            self.data_buffer[i] = b;
            i = i + 1;
        }
        assert(self.data_buffer@ =~= shifted_down(buf, self.panels(), rotate));
        self.reload();
    }

    /// Column `col` of the buffer.
    pub fn column(&self, col: u8) -> (r: u8)
        requires
            self.wf(),
            (col as nat) < BUFFER_LEN,
        ensures
            r == self.buffer()[col as int],
    {
        self.data_buffer[col as usize]
    }

    /// Number of panels in the chain.
    pub fn num_panels(&self) -> (r: u8)
        ensures
            r == self.panels(),
    {
        self.num_panels
    }

    /// The queued bus writes, oldest first.
    pub fn pending_writes(&self) -> (r: &Vec<PinWrite>)
        ensures
            r@ == self.writes(),
    {
        &self.pending
    }

    /// Hands over the queued bus writes, oldest first, and empties the queue.
    pub fn take_writes(&mut self) -> (r: Vec<PinWrite>)
        requires
            old(self).wf(),
        ensures
            final(self).wf(),
            final(self).panels() == old(self).panels(),
            final(self).buffer() == old(self).buffer(),
            final(self).writes() == Seq::<PinWrite>::empty(),
            r@ == old(self).writes(),
    {
        let mut taken: Vec<PinWrite> = Vec::new();
        std::mem::swap(&mut self.pending, &mut taken);
        taken
    }
}

} // verus!
