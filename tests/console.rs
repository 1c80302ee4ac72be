use volatile::Volatile;
use woshd_console::vga::{
    Buffer, Character, Color, ColorCode, Writer, GRID_LEN, PLACEHOLDER, VGA_SIZE_H, VGA_SIZE_W,
};

/// A region of blank cells that lives as long as the program, as video
/// memory does.
fn region() -> &'static mut [Volatile<u16>; GRID_LEN] {
    Box::leak(Box::new(std::array::from_fn(|_| Volatile::new(0x0020u16))))
}

fn writer(color: ColorCode) -> Writer {
    Writer::new(color, Buffer::bind(region()))
}

fn white() -> ColorCode {
    ColorCode::new(Color::White, Color::Black)
}

fn blank() -> Character {
    Character { ascii: b' ', color: ColorCode(0) }
}

fn cell(b: u8, color: ColorCode) -> Character {
    Character { ascii: b, color }
}

fn last(w: &Writer, col: usize) -> Character {
    w.read_char(VGA_SIZE_H - 1, col)
}

fn snapshot(w: &Writer) -> Vec<Character> {
    let mut v = Vec::new();
    for r in 0..VGA_SIZE_H {
        for c in 0..VGA_SIZE_W {
            v.push(w.read_char(r, c));
        }
    }
    v
}

/// A writer whose row `r` holds the letter `b'a' + r % 26` in every column,
/// with the cursor past the last column.
fn patterned() -> Writer {
    let mut w = writer(white());
    for r in 0..VGA_SIZE_H {
        if r > 0 {
            w.new_line();
        }
        let line = vec![b'a' + (r % 26) as u8; VGA_SIZE_W];
        w.write_string(std::str::from_utf8(&line).unwrap());
    }
    w
}

#[test]
fn color_code_packs_background_high_and_text_low() {
    assert_eq!(ColorCode::new(Color::White, Color::Black).0, 0x0f);
    assert_eq!(ColorCode::new(Color::Yellow, Color::BlueDark).0, 0x1e);
    assert_eq!(ColorCode::new(Color::Black, Color::White).0, 0xf0);
    assert_eq!(ColorCode::new(Color::Black, Color::Black).0, 0x00);
    assert_eq!(Color::Pink.index(), 13);
}

#[test]
fn new_writer_is_blank_at_column_zero() {
    let w = writer(white());
    assert_eq!(w.col_pos(), 0);
    assert_eq!(w.color(), white());
    assert!(snapshot(&w).iter().all(|c| *c == blank()));
    assert_eq!(snapshot(&w).len(), GRID_LEN);
}

#[test]
fn printable_byte_lands_at_cursor() {
    let mut w = writer(white());
    w.write_string("~");
    assert_eq!(last(&w, 0), cell(b'~', white()));
    assert_eq!(w.col_pos(), 1);
    w.write_string(" ");
    assert_eq!(last(&w, 1), cell(b' ', white()));
    assert_eq!(w.col_pos(), 2);
}

#[test]
fn newline_scrolls_and_stores_nothing() {
    let mut w = writer(white());
    w.write_string("X");
    w.write_string("\n");
    assert_eq!(w.col_pos(), 0);
    assert_eq!(w.read_char(VGA_SIZE_H - 2, 0), cell(b'X', white()));
    assert!((0..VGA_SIZE_W).all(|c| last(&w, c) == blank()));
}

#[test]
fn unprintable_byte_becomes_placeholder() {
    let mut w = writer(white());
    w.write_string("\u{7f}");
    assert_eq!(last(&w, 0), cell(PLACEHOLDER, white()));
    w.write_string("\t");
    assert_eq!(last(&w, 1), cell(0xfe, white()));
    // two bytes of UTF-8, two placeholders
    w.write_string("é");
    assert_eq!(last(&w, 2), cell(0xfe, white()));
    assert_eq!(last(&w, 3), cell(0xfe, white()));
    assert_eq!(w.col_pos(), 4);
}

#[test]
fn placeholder_for_control_byte_in_string() {
    let color = ColorCode::new(Color::GreenLight, Color::Black);
    let mut w = writer(color);
    w.write_string("a\u{1}b");
    assert_eq!(last(&w, 0), cell(b'a', color));
    assert_eq!(last(&w, 1), cell(0xfe, color));
    assert_eq!(last(&w, 2), cell(b'b', color));
}

#[test]
fn write_byte_stores_raw_byte() {
    let mut w = writer(white());
    w.write_byte(0x01);
    assert_eq!(last(&w, 0), cell(0x01, white()));
    w.write_byte(b'\n');
    assert_eq!(w.col_pos(), 0);
    assert_eq!(w.read_char(VGA_SIZE_H - 2, 0), cell(0x01, white()));
}

#[test]
fn ab_newline_c_scenario() {
    let mut w = writer(white());
    w.write_string("AB");
    assert_eq!(last(&w, 0), cell(b'A', white()));
    assert_eq!(last(&w, 1), cell(b'B', white()));
    w.write_string("\nC");
    assert_eq!(w.read_char(VGA_SIZE_H - 2, 0), cell(b'A', white()));
    assert_eq!(w.read_char(VGA_SIZE_H - 2, 1), cell(b'B', white()));
    assert_eq!(last(&w, 0), cell(b'C', white()));
    assert_eq!(last(&w, 1), blank());
    assert_eq!(w.col_pos(), 1);

    let mut once = writer(white());
    once.write_string("AB\nC");
    assert_eq!(snapshot(&once), snapshot(&w));
}

#[test]
fn a_full_row_does_not_wrap() {
    let mut w = writer(white());
    let line: String = (0..VGA_SIZE_W).map(|i| (b'!' + (i % 90) as u8) as char).collect();
    w.write_string(&line);
    assert_eq!(w.col_pos(), VGA_SIZE_W);
    for c in 0..VGA_SIZE_W {
        assert_eq!(last(&w, c), cell(b'!' + (c % 90) as u8, white()));
    }
    assert!((0..VGA_SIZE_W).all(|c| w.read_char(VGA_SIZE_H - 2, c) == blank()));
}

#[test]
fn one_byte_past_a_full_row_wraps_once() {
    let mut w = writer(white());
    let line = "x".repeat(VGA_SIZE_W) + "y";
    w.write_string(&line);
    assert_eq!(w.col_pos(), 1);
    assert!((0..VGA_SIZE_W).all(|c| w.read_char(VGA_SIZE_H - 2, c) == cell(b'x', white())));
    assert!((0..VGA_SIZE_W).all(|c| w.read_char(VGA_SIZE_H - 3, c) == blank()));
    assert_eq!(last(&w, 0), cell(b'y', white()));
    assert!((1..VGA_SIZE_W).all(|c| last(&w, c) == blank()));
}

#[test]
fn two_writes_equal_one_concatenated_write() {
    let mut a = writer(white());
    a.write_string("Exception: ");
    a.write_string("BREAKPOINT\n");
    let mut b = writer(white());
    b.write_string("Exception: BREAKPOINT\n");
    assert_eq!(snapshot(&a), snapshot(&b));
    assert_eq!(a.col_pos(), b.col_pos());
}

#[test]
fn new_line_moves_every_row_up() {
    let mut w = patterned();
    let before = snapshot(&w);
    w.new_line();
    let after = snapshot(&w);
    for r in 0..VGA_SIZE_H - 1 {
        for c in 0..VGA_SIZE_W {
            assert_eq!(after[r * VGA_SIZE_W + c], before[(r + 1) * VGA_SIZE_W + c]);
        }
    }
    assert!((0..VGA_SIZE_W).all(|c| last(&w, c) == blank()));
    assert_eq!(w.col_pos(), 0);
}

#[test]
fn clear_row_twice_equals_once() {
    let mut w = patterned();
    w.clear_row(3);
    let once = snapshot(&w);
    w.clear_row(3);
    assert_eq!(snapshot(&w), once);
    assert!((0..VGA_SIZE_W).all(|c| w.read_char(3, c) == blank()));
    assert_eq!(w.read_char(4, 0), cell(b'e', white()));
}

#[test]
fn clear_off_the_grid_changes_nothing() {
    let mut w = patterned();
    let before = snapshot(&w);
    w.clear_row(VGA_SIZE_H);
    w.clear_col(VGA_SIZE_W + 7);
    assert_eq!(snapshot(&w), before);
}

#[test]
fn clear_col_blanks_one_column() {
    let mut w = patterned();
    w.clear_col(5);
    for r in 0..VGA_SIZE_H {
        assert_eq!(w.read_char(r, 5), blank());
        assert_eq!(w.read_char(r, 4), cell(b'a' + (r % 26) as u8, white()));
        assert_eq!(w.read_char(r, 6), cell(b'a' + (r % 26) as u8, white()));
    }
}

#[test]
fn shift_up_and_down_by_rows() {
    let mut w = patterned();
    let before = snapshot(&w);
    w.shift_up(3);
    assert_eq!(w.read_char(0, 0), before[3 * VGA_SIZE_W]);
    assert_eq!(w.read_char(20, 9), before[23 * VGA_SIZE_W + 9]);
    assert_eq!(w.read_char(22, 0), blank());
    w.shift_down(2);
    assert_eq!(w.read_char(0, 0), blank());
    assert_eq!(w.read_char(1, 0), blank());
    assert_eq!(w.read_char(2, 0), before[3 * VGA_SIZE_W]);
    w.shift_down(VGA_SIZE_H);
    assert!(snapshot(&w).iter().all(|c| *c == blank()));
}

#[test]
fn shift_left_and_right_by_columns() {
    let mut w = writer(white());
    w.write_string("0123456789");
    w.shift_right(2);
    assert_eq!(last(&w, 0), blank());
    assert_eq!(last(&w, 1), blank());
    assert_eq!(last(&w, 2), cell(b'0', white()));
    assert_eq!(last(&w, 11), cell(b'9', white()));
    w.shift_left(5);
    assert_eq!(last(&w, 0), cell(b'3', white()));
    assert_eq!(last(&w, 6), cell(b'9', white()));
    assert_eq!(last(&w, 7), blank());
    assert_eq!(last(&w, VGA_SIZE_W - 1), blank());
    w.shift_left(usize::MAX);
    assert!(snapshot(&w).iter().all(|c| *c == blank()));
}

#[test]
fn shift_right_drops_the_right_edge() {
    let mut w = writer(white());
    let line = "z".repeat(VGA_SIZE_W);
    w.write_string(&line);
    w.shift_right(VGA_SIZE_W - 1);
    assert_eq!(last(&w, VGA_SIZE_W - 1), cell(b'z', white()));
    assert!((0..VGA_SIZE_W - 1).all(|c| last(&w, c) == blank()));
    w.shift_up(usize::MAX);
    assert!(snapshot(&w).iter().all(|c| *c == blank()));
}

#[test]
fn buffer_ignores_positions_off_the_grid() {
    let mut b = Buffer::bind(region());
    let c = cell(b'Q', white());
    b.write_char(c, VGA_SIZE_H, 0);
    b.write_char(c, 0, VGA_SIZE_W);
    for r in 0..VGA_SIZE_H {
        for col in 0..VGA_SIZE_W {
            assert_eq!(b.read_char(r, col), blank());
        }
    }
    b.write_byte_with_color(b'Q', white(), 7, 11);
    assert_eq!(b.read_char(7, 11), c);
    assert_eq!(b.read_char(7, 12), blank());
}

#[test]
fn character_blank_is_space_on_black() {
    assert_eq!(Character::blank(), blank());
}

#[test]
fn bound_region_keeps_what_it_held() {
    let cells = region();
    cells[0].write(0x4f41);
    cells[GRID_LEN - 1].write(0x1e7e);
    let w = Writer::new(white(), Buffer::bind(cells));
    assert_eq!(w.read_char(0, 0), cell(b'A', ColorCode(0x4f)));
    assert_eq!(last(&w, VGA_SIZE_W - 1), cell(b'~', ColorCode(0x1e)));
    assert_eq!(w.read_char(0, 1), blank());
    assert_eq!(w.col_pos(), 0);
}
