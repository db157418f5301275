use maxmatrix_rs::{bit_write, shift_out, Line, MaxMatrix, PinWrite, ShiftOrder};

fn w(line: Line, high: bool) -> PinWrite {
    PinWrite { line, high }
}

fn byte_msb(out: &mut Vec<PinWrite>, v: u8) {
    for k in 0..8 {
        out.push(w(Line::Data, (v >> (7 - k)) & 1 == 1));
        out.push(w(Line::Clock, true));
        out.push(w(Line::Clock, false));
    }
}

fn cycle(pairs: &[(u8, u8)]) -> Vec<PinWrite> {
    let mut out = vec![w(Line::Load, false)];
    for &(a, b) in pairs {
        byte_msb(&mut out, a);
        byte_msb(&mut out, b);
    }
    out.push(w(Line::Load, false));
    out.push(w(Line::Load, true));
    out
}

fn buffer_of(m: &MaxMatrix) -> Vec<u8> {
    (0..80u8).map(|c| m.column(c)).collect()
}

fn reload_expected(buf: &[u8], n: usize) -> Vec<PinWrite> {
    let mut out = Vec::new();
    for k in 0..8usize {
        let pairs: Vec<(u8, u8)> = (0..n).map(|i| (k as u8 + 1, buf[i * 8 + k])).collect();
        out.extend(cycle(&pairs));
    }
    out
}

#[test]
fn new_matrix_is_blank() {
    let m = MaxMatrix::new(4);
    assert_eq!(m.num_panels(), 4);
    assert_eq!(buffer_of(&m), vec![0u8; 80]);
    assert!(m.pending_writes().is_empty());
}

#[test]
fn set_dot_addresses_only_first_chip_of_four() {
    let mut m = MaxMatrix::new(4);
    m.set_dot(0, 0, true);
    let expected = cycle(&[(1, 0x01), (0, 0), (0, 0), (0, 0)]);
    assert_eq!(m.take_writes(), expected);
    assert_eq!(m.column(0), 0x01);
    assert!(m.pending_writes().is_empty());
}

#[test]
fn set_dot_on_later_chip() {
    let mut m = MaxMatrix::new(3);
    m.set_dot(13, 7, true);
    assert_eq!(m.take_writes(), cycle(&[(0, 0), (6, 0x80), (0, 0)]));
    assert_eq!(m.column(13), 0x80);
}

#[test]
fn set_dot_then_unset_restores_column() {
    let mut m = MaxMatrix::new(2);
    m.set_column(9, 0b1010_0101);
    m.set_dot(9, 1, true);
    assert_eq!(m.column(9), 0b1010_0111);
    m.set_dot(9, 1, false);
    assert_eq!(m.column(9), 0b1010_0101);
}

#[test]
fn update_buffer_at_sends_nothing() {
    let mut m = MaxMatrix::new(2);
    m.update_buffer_at(3, 2, true);
    assert_eq!(m.column(3), 0x04);
    assert!(m.pending_writes().is_empty());
    m.update_buffer_at(3, 2, false);
    assert_eq!(m.column(3), 0);
}

#[test]
fn set_column_writes_buffer_and_bus() {
    let mut m = MaxMatrix::new(2);
    m.set_column(10, 0x3c);
    assert_eq!(m.column(10), 0x3c);
    assert_eq!(m.take_writes(), cycle(&[(0, 0), (3, 0x3c)]));
}

#[test]
fn set_column_all_with_three_chips() {
    let mut m = MaxMatrix::new(3);
    m.set_column_all(2, 0xaa);
    assert_eq!(m.take_writes(), cycle(&[(3, 0xaa), (3, 0xaa), (3, 0xaa)]));
    let buf = buffer_of(&m);
    for (i, b) in buf.iter().enumerate() {
        let expected = if i == 0 || i == 2 || i == 4 { 0xaa } else { 0 };
        assert_eq!(*b, expected, "index {}", i);
    }
}

#[test]
fn set_column_all_column_zero_writes_index_zero_only() {
    let mut m = MaxMatrix::new(3);
    m.set_column_all(0, 0x55);
    let buf = buffer_of(&m);
    assert_eq!(buf[0], 0x55);
    assert!(buf[1..].iter().all(|b| *b == 0));
}

#[test]
fn clear_zeroes_buffer_and_every_column() {
    let mut m = MaxMatrix::new(2);
    for c in 0..16u8 {
        m.set_column(c, c.wrapping_mul(37) | 1);
    }
    m.update_buffer_at(15, 3, true);
    m.take_writes();
    m.clear();
    assert_eq!(buffer_of(&m), vec![0u8; 80]);
    let mut expected = Vec::new();
    for k in 0..8u8 {
        expected.extend(cycle(&[(k + 1, 0), (k + 1, 0)]));
    }
    assert_eq!(m.take_writes(), expected);
}

#[test]
fn init_sequence() {
    let mut m = MaxMatrix::new(2);
    m.set_column(4, 0xff);
    m.take_writes();
    m.init();
    let mut expected = vec![w(Line::Clock, true)];
    expected.extend(cycle(&[(0x0b, 7), (0x0b, 7)]));
    expected.extend(cycle(&[(0x09, 0), (0x09, 0)]));
    expected.extend(cycle(&[(0x0c, 1), (0x0c, 1)]));
    expected.extend(cycle(&[(0x0f, 0), (0x0f, 0)]));
    for k in 0..8u8 {
        expected.extend(cycle(&[(k + 1, 0), (k + 1, 0)]));
    }
    expected.extend(cycle(&[(0x0a, 0x0f), (0x0a, 0x0f)]));
    assert_eq!(m.take_writes(), expected);
    assert_eq!(buffer_of(&m), vec![0u8; 80]);
}

#[test]
fn set_intensity_broadcasts() {
    let mut m = MaxMatrix::new(3);
    m.set_intensity(5);
    assert_eq!(m.take_writes(), cycle(&[(0x0a, 5), (0x0a, 5), (0x0a, 5)]));
}

#[test]
fn reload_sends_every_column() {
    let mut m = MaxMatrix::new(2);
    m.set_column(0, 0x11);
    m.set_column(7, 0x22);
    m.set_column(8, 0x33);
    m.set_column(15, 0x44);
    m.take_writes();
    m.reload();
    let buf = buffer_of(&m);
    let writes = m.take_writes();
    assert_eq!(writes, reload_expected(&buf, 2));
    assert_eq!(&writes[..3], &[w(Line::Load, false), w(Line::Data, false), w(Line::Clock, true)]);
}

#[test]
fn shift_left_rotate_then_right_rotate_full_chain() {
    let mut m = MaxMatrix::new(10);
    for c in 0..80u8 {
        m.set_column(c, c.wrapping_mul(7).wrapping_add(3));
    }
    let before = buffer_of(&m);
    m.shift_left(true, false);
    let mid = buffer_of(&m);
    assert_eq!(mid[0], before[1]);
    assert_eq!(mid[79], before[0]);
    m.shift_right(true, false);
    assert_eq!(buffer_of(&m), before);
}

#[test]
fn shift_left_rotate_then_right_rotate_short_chain() {
    let mut m = MaxMatrix::new(2);
    for c in 1..16u8 {
        m.set_column(c, c + 1);
    }
    let before = buffer_of(&m);
    m.shift_left(true, false);
    assert_eq!(m.column(15), 0);
    assert_eq!(m.column(14), 16);
    m.shift_right(true, false);
    assert_eq!(buffer_of(&m), before);
}

#[test]
fn shift_left_right_short_chain_rotates_whole_buffer() {
    let mut m = MaxMatrix::new(2);
    m.set_column(0, 0x81);
    let before = buffer_of(&m);
    m.shift_left(true, false);
    assert_eq!(m.column(15), 0);
    assert_eq!(m.column(79), 0x81);
    m.shift_right(true, false);
    assert_eq!(m.column(0), 0x81);
    assert_eq!(m.column(16), 0);
    assert_eq!(buffer_of(&m), before);
}

#[test]
fn shift_left_fill_zero_clears_last_byte() {
    let mut m = MaxMatrix::new(1);
    m.set_column(0, 5);
    m.shift_left(true, false);
    assert_eq!(m.column(79), 5);
    assert_eq!(m.column(7), 0);
    m.shift_left(false, true);
    assert_eq!(m.column(78), 5);
    assert_eq!(m.column(79), 0);
    m.shift_right(true, false);
    assert_eq!(m.column(0), 0);
    assert_eq!(m.column(79), 5);
}

#[test]
fn shift_left_fill_zero_and_keep() {
    let mut m = MaxMatrix::new(1);
    for c in 0..8u8 {
        m.set_column(c, 0x10 + c);
    }
    m.take_writes();
    m.shift_left(false, true);
    let buf = buffer_of(&m);
    assert_eq!(&buf[..8], &[0x11, 0x12, 0x13, 0x14, 0x15, 0x16, 0x17, 0x00]);
    assert_eq!(m.take_writes(), reload_expected(&buf, 1));
    m.shift_left(false, false);
    assert_eq!(&buffer_of(&m)[..8], &[0x12, 0x13, 0x14, 0x15, 0x16, 0x17, 0x00, 0x00]);
}

#[test]
fn shift_right_variants() {
    let mut m = MaxMatrix::new(1);
    for c in 0..8u8 {
        m.set_column(c, 0x20 + c);
    }
    m.shift_right(true, false);
    assert_eq!(&buffer_of(&m)[..9], &[0x00, 0x20, 0x21, 0x22, 0x23, 0x24, 0x25, 0x26, 0x27]);
    m.shift_right(false, true);
    assert_eq!(&buffer_of(&m)[..3], &[0x00, 0x00, 0x20]);
    m.set_column(0, 0x3f);
    m.shift_right(false, false);
    assert_eq!(&buffer_of(&m)[..4], &[0x3f, 0x3f, 0x00, 0x20]);
}

#[test]
fn shift_up_eight_times_restores() {
    let mut m = MaxMatrix::new(2);
    for c in 0..16u8 {
        m.set_column(c, c.wrapping_mul(29) ^ 0x5a);
    }
    let before = buffer_of(&m);
    for _ in 0..8 {
        m.shift_up(true);
    }
    assert_eq!(buffer_of(&m), before);
}

#[test]
fn shift_up_and_down_single_step() {
    let mut m = MaxMatrix::new(1);
    m.set_column(0, 0b1000_0011);
    m.shift_up(true);
    assert_eq!(m.column(0), 0b1100_0001);
    m.shift_up(false);
    assert_eq!(m.column(0), 0b0110_0000);
    m.shift_down(false);
    assert_eq!(m.column(0), 0b1100_0000);
    m.shift_down(true);
    assert_eq!(m.column(0), 0b1000_0001);
    let buf = buffer_of(&m);
    m.take_writes();
    m.shift_down(true);
    assert_eq!(m.column(0), 0b0000_0011);
    assert_eq!(m.take_writes(), reload_expected(&buffer_of(&m), 1));
    assert_ne!(buf, buffer_of(&m));
}

#[test]
fn shift_up_leaves_unused_tail() {
    let mut m = MaxMatrix::new(1);
    m.set_column(7, 0x02);
    m.shift_right(false, false);
    assert_eq!(m.column(8), 0x02);
    m.set_column(7, 0x08);
    m.shift_up(false);
    assert_eq!(m.column(7), 0x04);
    assert_eq!(m.column(8), 0x02);
    m.shift_down(true);
    assert_eq!(m.column(7), 0x08);
    assert_eq!(m.column(8), 0x02);
}

#[test]
fn shift_out_both_orders() {
    let mut out = Vec::new();
    shift_out(&mut out, ShiftOrder::LsbFirst, 0b0000_0110);
    let data: Vec<bool> = out.iter().step_by(3).map(|p| p.high).collect();
    assert_eq!(data, vec![false, true, true, false, false, false, false, false]);
    assert_eq!(out.len(), 24);
    assert_eq!(out[1], w(Line::Clock, true));
    assert_eq!(out[2], w(Line::Clock, false));
    let mut msb = Vec::new();
    shift_out(&mut msb, ShiftOrder::MsbFirst, 0b0000_0110);
    let data: Vec<bool> = msb.iter().step_by(3).map(|p| p.high).collect();
    assert_eq!(data, vec![false, false, false, false, false, true, true, false]);
}

#[test]
fn bit_write_sets_and_clears() {
    let mut v: u8 = 0b0101_0000;
    bit_write(&mut v, 0, true);
    assert_eq!(v, 0b0101_0001);
    bit_write(&mut v, 6, false);
    assert_eq!(v, 0b0001_0001);
    bit_write(&mut v, 7, true);
    assert_eq!(v, 0b1001_0001);
}
