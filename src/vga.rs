use vstd::prelude::*;
use vstd::string::StringSliceAdditionalSpecFns;
use volatile::Volatile;
use vstd::arithmetic::div_mod::lemma_fundamental_div_mod_converse;

verus! {

/// Number of rows of the text grid.
pub const VGA_SIZE_H: usize = 25;

/// Number of columns of the text grid.
pub const VGA_SIZE_W: usize = 80;

/// Number of cells of the text grid: rows times columns.
pub const GRID_LEN: usize = 2000;

/// The byte stored in place of one that the grid cannot show.
pub const PLACEHOLDER: u8 = 0xfe;

/// The byte that ends a line.
pub const NEWLINE: u8 = 0x0a;

/// The sixteen colors of the text mode palette.
#[derive(Debug, Clone, Copy, PartialEq, Eq, Structural)]
pub enum Color {
    Black,
    BlueDark,
    GreenDark,
    CyanDark,
    RedDark,
    Magenta,
    Brown,
    GrayLight,
    GrayDark,
    BlueLight,
    GreenLight,
    CyanLight,
    RedLight,
    Pink,
    Yellow,
    White,
}

/// The palette index of a color.
pub open spec fn color_index(c: Color) -> u8 {
    match c {
        Color::Black => 0,
        Color::BlueDark => 1,
        Color::GreenDark => 2,
        Color::CyanDark => 3,
        Color::RedDark => 4,
        Color::Magenta => 5,
        Color::Brown => 6,
        Color::GrayLight => 7,
        Color::GrayDark => 8,
        Color::BlueLight => 9,
        Color::GreenLight => 10,
        Color::CyanLight => 11,
        Color::RedLight => 12,
        Color::Pink => 13,
        Color::Yellow => 14,
        Color::White => 15,
    }
}

impl Color {
    /// The palette index of this color, in `0..16`.
    pub fn index(self) -> (r: u8)
        ensures
            r == color_index(self),
            r < 16,
    {
        match self {
            Color::Black => 0,
            Color::BlueDark => 1,
            Color::GreenDark => 2,
            Color::CyanDark => 3,
            Color::RedDark => 4,
            Color::Magenta => 5,
            Color::Brown => 6,
            Color::GrayLight => 7,
            Color::GrayDark => 8,
            Color::BlueLight => 9,
            Color::GreenLight => 10,
            Color::CyanLight => 11,
            Color::RedLight => 12,
            Color::Pink => 13,
            Color::Yellow => 14,
            Color::White => 15,
        }
    }
}

/// An attribute byte: background color in the high nibble, foreground color
/// in the low nibble.
#[derive(Debug, Clone, Copy, PartialEq, Eq, Structural)]
pub struct ColorCode(pub u8);

/// The attribute byte of a foreground and a background color.
pub open spec fn attribute_of(text: Color, background: Color) -> u8 {
    (color_index(background) * 16 + color_index(text)) as u8
}

impl ColorCode {
    /// The attribute that shows `text` on `background`.
    pub fn new(text: Color, background: Color) -> (r: ColorCode)
        ensures
            r.0 == attribute_of(text, background),
            r.0 / 16 == color_index(background),
            r.0 % 16 == color_index(text),
    {
        let t = text.index();
        let b = background.index();
        ColorCode(b * 16 + t)
    }
}

/// One cell of the grid: a byte to show and its attribute.
#[derive(Debug, Clone, Copy, PartialEq, Eq, Structural)]
pub struct Character {
    pub ascii: u8,
    pub color: ColorCode,
}

/// The cell that cleared parts of the grid hold: a space, black on black.
pub open spec fn blank() -> Character {
    Character { ascii: 0x20, color: ColorCode(0) }
}

impl Character {
    /// A space, black on black.
    pub fn blank() -> (r: Character)
        ensures
            r == blank(),
    {
        Character { ascii: 0x20, color: ColorCode(0) }
    }
}

/// The two bytes of a cell as the hardware lays them out: the byte to show
/// low, the attribute high.
pub open spec fn encode(c: Character) -> u16 {
    (c.color.0 as int * 256 + c.ascii as int) as u16
}

/// The cell that a hardware word holds.
pub open spec fn decode(w: u16) -> Character {
    Character { ascii: (w as int % 256) as u8, color: ColorCode((w as int / 256) as u8) }
}

proof fn lemma_decode_encode(c: Character)
    ensures
        decode(encode(c)) == c,
{
    let a = c.ascii as int;
    let k = c.color.0 as int;
    assert((k * 256 + a) % 256 == a && (k * 256 + a) / 256 == k) by (nonlinear_arith)
        requires
            0 <= a < 256,
            0 <= k < 256,
    ;
}

fn encode_cell(c: Character) -> (r: u16)
    ensures
        r == encode(c),
{
    (c.color.0 as u16) * 256 + (c.ascii as u16)
}

fn decode_cell(w: u16) -> (r: Character)
    ensures
        r == decode(w),
{
    Character { ascii: (w % 256) as u8, color: ColorCode((w / 256) as u8) }
}

/// volatile::Volatile, a cell whose loads and stores the compiler may not
/// elide, reorder or merge.
#[verifier::external_type_specification]
#[verifier::external_body]
#[verifier::reject_recursive_types(T)]
pub struct ExVolatile<T: Copy>(Volatile<T>);

/// The word that a volatile cell holds.
pub uninterp spec fn held_word(v: Volatile<u16>) -> u16;

/// Relies on volatile::Volatile::read: a volatile load returns the word held.
#[verifier::external_body]
fn load_cell(v: &Volatile<u16>) -> (r: u16)
    ensures
        r == held_word(*v),
{
    v.read()
}

/// Relies on volatile::Volatile::write: a volatile store into cell `i` that
/// leaves every other cell as it was.
#[verifier::external_body]
fn store_cell(cells: &mut [Volatile<u16>; GRID_LEN], i: usize, w: u16)
    requires
        i < old(cells)@.len(),
    ensures
        final(cells)@.len() == old(cells)@.len(),
        held_word(final(cells)@[i as int]) == w,
        forall|j: int| 0 <= j < old(cells)@.len() && j != i ==> final(cells)@[j] == old(cells)@[j],
{
    cells[i].write(w)
}

/// Position of the cell at `row` and `col` in the grid's row-major order.
pub open spec fn cell_index(row: int, col: int) -> int {
    row * VGA_SIZE_W + col
}

/// Position in row-major order of column `col` of the last row.
pub open spec fn last_row_index(col: int) -> int {
    cell_index(VGA_SIZE_H - 1, col)
}

/// `g` moved up by `d` rows: the top `d` rows are dropped, the bottom `d`
/// rows are blank.
pub open spec fn shifted_up(g: Seq<Character>, d: int) -> Seq<Character> {
    Seq::new(
        GRID_LEN as nat,
        |i: int|
            if i + d * VGA_SIZE_W < GRID_LEN {
                g[i + d * VGA_SIZE_W]
            } else {
                blank()
            },
    )
}

/// `g` moved down by `d` rows: the bottom `d` rows are dropped, the top `d`
/// rows are blank.
pub open spec fn shifted_down(g: Seq<Character>, d: int) -> Seq<Character> {
    Seq::new(
        GRID_LEN as nat,
        |i: int|
            if i >= d * VGA_SIZE_W {
                g[i - d * VGA_SIZE_W]
            } else {
                blank()
            },
    )
}

/// `g` moved left by `d` columns: the left `d` columns are dropped, the right
/// `d` columns are blank.
pub open spec fn shifted_left(g: Seq<Character>, d: int) -> Seq<Character> {
    Seq::new(
        GRID_LEN as nat,
        |i: int|
            if i % VGA_SIZE_W as int + d < VGA_SIZE_W {
                g[i + d]
            } else {
                blank()
            },
    )
}

/// `g` moved right by `d` columns: the right `d` columns are dropped, the left
/// `d` columns are blank.
pub open spec fn shifted_right(g: Seq<Character>, d: int) -> Seq<Character> {
    Seq::new(
        GRID_LEN as nat,
        |i: int|
            if i % VGA_SIZE_W as int >= d {
                g[i - d]
            } else {
                blank()
            },
    )
}

/// `g` with row `row` blank; unchanged where `row` is off the grid.
pub open spec fn row_cleared(g: Seq<Character>, row: int) -> Seq<Character> {
    Seq::new(
        GRID_LEN as nat,
        |i: int|
            if cell_index(row, 0) <= i < cell_index(row + 1, 0) {
                blank()
            } else {
                g[i]
            },
    )
}

/// `g` with column `col` blank; unchanged where `col` is off the grid.
pub open spec fn col_cleared(g: Seq<Character>, col: int) -> Seq<Character> {
    Seq::new(
        GRID_LEN as nat,
        |i: int|
            if i % VGA_SIZE_W as int == col {
                blank()
            } else {
                g[i]
            },
    )
}

/// A cell position splits into its row and column.
pub proof fn lemma_cell_index(row: int, col: int)
    requires
        0 <= row,
        0 <= col < VGA_SIZE_W,
    ensures
        cell_index(row, col) / VGA_SIZE_W as int == row,
        cell_index(row, col) % VGA_SIZE_W as int == col,
{
    lemma_fundamental_div_mod_converse(cell_index(row, col), VGA_SIZE_W as int, row, col);
}

/// The character grid: one volatile word per cell, in row-major order, over
/// a region that the grid owns for the rest of the program: on the target
/// machine, the text-mode video memory.
pub struct Buffer {
    chars: &'static mut [Volatile<u16>; GRID_LEN],
}

impl View for Buffer {
    type V = Seq<Character>;

    closed spec fn view(&self) -> Seq<Character> {
        self.chars@.map_values(|v: Volatile<u16>| decode(held_word(v)))
    }
}

impl Buffer {
    /// The grid over `cells`, which hold its cells as the hardware lays them
    /// out.
    pub fn bind(cells: &'static mut [Volatile<u16>; GRID_LEN]) -> (r: Buffer)
        ensures
            r@ == old(cells)@.map_values(|v: Volatile<u16>| decode(held_word(v))),
            r@.len() == GRID_LEN,
    {
        Buffer { chars: cells }
    }

    /// Writes `char` at `row` and `col`; a position off the grid is ignored.
    pub fn write_char(&mut self, char: Character, row: usize, col: usize)
        requires
            old(self)@.len() == GRID_LEN,
        ensures
            final(self)@ == if row < VGA_SIZE_H && col < VGA_SIZE_W {
                old(self)@.update(cell_index(row as int, col as int), char)
            } else {
                old(self)@
            },
    {
        if row < VGA_SIZE_H && col < VGA_SIZE_W {
            let w = encode_cell(char);
            proof {
                lemma_decode_encode(char);
            }
            store_cell(self.chars, row * VGA_SIZE_W + col, w);
            assert(self@ =~= old(self)@.update(cell_index(row as int, col as int), char));
        }
    }

    /// Writes `byte` with the attribute `color` at `row` and `col`; a position
    /// off the grid is ignored.
    pub fn write_byte_with_color(&mut self, byte: u8, color: ColorCode, row: usize, col: usize)
        requires
            old(self)@.len() == GRID_LEN,
        ensures
            final(self)@ == if row < VGA_SIZE_H && col < VGA_SIZE_W {
                old(self)@.update(
                    cell_index(row as int, col as int),
                    Character { ascii: byte, color },
                )
            } else {
                old(self)@
            },
    {
        let as_char = Character { ascii: byte, color };
        self.write_char(as_char, row, col);
    }

    /// The cell at `row` and `col`.
    pub fn read_char(&self, row: usize, col: usize) -> (r: Character)
        requires
            self@.len() == GRID_LEN,
            row < VGA_SIZE_H,
            col < VGA_SIZE_W,
        ensures
            r == self@[cell_index(row as int, col as int)],
    {
        let w = load_cell(&self.chars[row * VGA_SIZE_W + col]);
        decode_cell(w)
    }

    /// The cell at position `i` in row-major order.
    fn read_at(&self, i: usize) -> (r: Character)
        requires
            i < self@.len(),
        ensures
            r == self@[i as int],
    {
        decode_cell(load_cell(&self.chars[i]))
    }

    /// Writes `c` at position `i` in row-major order.
    fn write_at(&mut self, i: usize, c: Character)
        requires
            i < old(self)@.len(),
        ensures
            final(self)@ == old(self)@.update(i as int, c),
    {
        let w = encode_cell(c);
        proof {
            lemma_decode_encode(c);
        }
        store_cell(self.chars, i, w);
        assert(self@ =~= old(self)@.update(i as int, c));
    }
}

/// Whether `b` is a byte the grid shows as it is: printable ASCII.
pub open spec fn is_printable(b: u8) -> bool {
    0x20 <= b <= 0x7e
}

/// The byte that a string write hands on for `b`: printable bytes and the
/// newline as they are, the placeholder for any other.
pub open spec fn sanitized(b: u8) -> u8 {
    if is_printable(b) || b == NEWLINE {
        b
    } else {
        PLACEHOLDER
    }
}

/// Cursor column and grid after writing `b` with attribute `color`, from
/// cursor column `col` on grid `g`.
pub open spec fn put_byte(col: int, g: Seq<Character>, color: ColorCode, b: u8) -> (int, Seq<Character>) {
    if b == NEWLINE {
        (0, shifted_up(g, 1))
    } else if col >= VGA_SIZE_W {
        (1, shifted_up(g, 1).update(last_row_index(0), Character { ascii: b, color }))
    } else {
        (col + 1, g.update(last_row_index(col), Character { ascii: b, color }))
    }
}

/// Cursor column and grid after writing the bytes `bs`, each sanitized, in
/// order.
pub open spec fn put_bytes(col: int, g: Seq<Character>, color: ColorCode, bs: Seq<u8>) -> (int, Seq<Character>)
    decreases bs.len(),
{
    if bs.len() == 0 {
        (col, g)
    } else {
        let p = put_bytes(col, g, color, bs.drop_last());
        put_byte(p.0, p.1, color, sanitized(bs.last()))
    }
}

/// Writing `a` and then `b` leaves the cursor and grid that writing `a`
/// followed by `b` in one string does: two writes that do not interleave
/// give their concatenation.
pub proof fn lemma_put_bytes_concat(col: int, g: Seq<Character>, color: ColorCode, a: Seq<u8>, b: Seq<u8>)
    ensures
        put_bytes(col, g, color, a + b) == ({
            let p = put_bytes(col, g, color, a);
            put_bytes(p.0, p.1, color, b)
        }),
    decreases b.len(),
{
    if b.len() == 0 {
        assert(a + b =~= a);
    } else {
        assert((a + b).drop_last() =~= a + b.drop_last());
        lemma_put_bytes_concat(col, g, color, a, b.drop_last());
    }
}

/// Writing a one-byte string whose byte is printable or a newline: a
/// newline scrolls once and returns the cursor to column 0; a printable byte
/// is stored with the current attribute at the cursor, or at column 0 of the
/// freshly scrolled last row where the cursor was past the last column.
pub proof fn lemma_write_printable_byte(col: int, g: Seq<Character>, color: ColorCode, b: u8)
    requires
        0 <= col <= VGA_SIZE_W,
        is_printable(b) || b == NEWLINE,
    ensures
        b == NEWLINE ==> put_bytes(col, g, color, seq![b]) == (0int, shifted_up(g, 1)),
        b != NEWLINE && col < VGA_SIZE_W ==> put_bytes(col, g, color, seq![b]) == (
            col + 1,
            g.update(last_row_index(col), Character { ascii: b, color }),
        ),
        b != NEWLINE && col == VGA_SIZE_W ==> put_bytes(col, g, color, seq![b]) == (
            1int,
            shifted_up(g, 1).update(last_row_index(0), Character { ascii: b, color }),
        ),
{
    assert(seq![b].drop_last() =~= Seq::<u8>::empty());
    assert(put_bytes(col, g, color, Seq::<u8>::empty()) == (col, g));
}

/// Writing a one-byte string whose byte is neither printable nor a newline:
/// the placeholder is stored with the current attribute, by the same
/// positional rule as a printable byte.
pub proof fn lemma_write_unprintable_byte(col: int, g: Seq<Character>, color: ColorCode, b: u8)
    requires
        0 <= col <= VGA_SIZE_W,
        !is_printable(b),
        b != NEWLINE,
    ensures
        col < VGA_SIZE_W ==> put_bytes(col, g, color, seq![b]) == (
            col + 1,
            g.update(last_row_index(col), Character { ascii: PLACEHOLDER, color }),
        ),
        col == VGA_SIZE_W ==> put_bytes(col, g, color, seq![b]) == (
            1int,
            shifted_up(g, 1).update(last_row_index(0), Character { ascii: PLACEHOLDER, color }),
        ),
{
    assert(seq![b].drop_last() =~= Seq::<u8>::empty());
    assert(put_bytes(col, g, color, Seq::<u8>::empty()) == (col, g));
}

/// Clearing a row twice leaves the grid as clearing it once does, and every
/// cell of a cleared row is blank.
pub proof fn lemma_clear_row_idempotent(g: Seq<Character>, row: int)
    ensures
        row_cleared(row_cleared(g, row), row) == row_cleared(g, row),
        0 <= row < VGA_SIZE_H ==> forall|col: int|
            0 <= col < VGA_SIZE_W ==> #[trigger] row_cleared(g, row)[cell_index(row, col)] == blank(),
{
    assert(row_cleared(row_cleared(g, row), row) =~= row_cleared(g, row));
}

/// After a one-row scroll each row but the last holds what the row below it
/// held, and the last row is blank.
pub proof fn lemma_scroll_rows(g: Seq<Character>)
    requires
        g.len() == GRID_LEN,
    ensures
        shifted_up(g, 1).len() == GRID_LEN,
        forall|row: int, col: int|
            0 <= row < VGA_SIZE_H - 1 && 0 <= col < VGA_SIZE_W ==> #[trigger] shifted_up(g, 1)[cell_index(row, col)]
                == g[cell_index(row + 1, col)],
        forall|col: int|
            0 <= col < VGA_SIZE_W ==> #[trigger] shifted_up(g, 1)[last_row_index(col)] == blank(),
{
}

/// `g` with the first `n` cells of its last row holding the first `n` bytes
/// of `bs` with attribute `color`.
pub open spec fn last_row_filled(g: Seq<Character>, color: ColorCode, bs: Seq<u8>, n: int) -> Seq<Character> {
    Seq::new(
        GRID_LEN as nat,
        |i: int|
            if last_row_index(0) <= i < last_row_index(n) {
                Character { ascii: bs[i - last_row_index(0)], color }
            } else {
                g[i]
            },
    )
}

proof fn lemma_fill_prefix(g: Seq<Character>, color: ColorCode, bs: Seq<u8>, n: int)
    requires
        g.len() == GRID_LEN,
        0 <= n <= VGA_SIZE_W,
        n <= bs.len(),
        forall|i: int| 0 <= i < bs.len() ==> is_printable(#[trigger] bs[i]),
    ensures
        put_bytes(0, g, color, bs.take(n)) == (n, last_row_filled(g, color, bs, n)),
    decreases n,
{
    if n == 0 {
        assert(bs.take(0) =~= Seq::<u8>::empty());
        assert(last_row_filled(g, color, bs, 0) =~= g);
    } else {
        lemma_fill_prefix(g, color, bs, n - 1);
        assert(bs.take(n).drop_last() =~= bs.take(n - 1));
        assert(is_printable(bs[n - 1]));
        assert(last_row_filled(g, color, bs, n - 1).update(
            last_row_index(n - 1),
            Character { ascii: bs[n - 1], color },
        ) =~= last_row_filled(g, color, bs, n));
    }
}

/// Writing exactly a row's worth of printable bytes from column 0 fills the
/// last row left to right without scrolling; one byte more scrolls exactly
/// once and lands at column 0 of the new last row.
pub proof fn lemma_wrap_boundary(g: Seq<Character>, color: ColorCode, bs: Seq<u8>)
    requires
        g.len() == GRID_LEN,
        bs.len() == VGA_SIZE_W || bs.len() == VGA_SIZE_W + 1,
        forall|i: int| 0 <= i < bs.len() ==> is_printable(#[trigger] bs[i]),
    ensures
        bs.len() == VGA_SIZE_W ==> put_bytes(0, g, color, bs) == (
            VGA_SIZE_W as int,
            last_row_filled(g, color, bs, VGA_SIZE_W as int),
        ),
        bs.len() == VGA_SIZE_W + 1 ==> put_bytes(0, g, color, bs) == (
            1int,
            shifted_up(last_row_filled(g, color, bs, VGA_SIZE_W as int), 1).update(
                last_row_index(0),
                Character { ascii: bs[VGA_SIZE_W as int], color },
            ),
        ),
{
    lemma_fill_prefix(g, color, bs, VGA_SIZE_W as int);
    if bs.len() == VGA_SIZE_W {
        assert(bs.take(VGA_SIZE_W as int) =~= bs);
    } else {
        assert(bs.drop_last() =~= bs.take(VGA_SIZE_W as int));
        assert(is_printable(bs[VGA_SIZE_W as int]));
    }
}

/// A console writer: a cursor column on the last row, the attribute it
/// writes with, and the grid it writes to.
pub struct Writer {
    col_pos: usize,
    color: ColorCode,
    buffer: Buffer,
}

impl Writer {
    /// The cursor column.
    pub closed spec fn col(&self) -> int {
        self.col_pos as int
    }

    /// The attribute that written bytes get.
    pub closed spec fn attr(&self) -> ColorCode {
        self.color
    }

    /// The grid's cells, in row-major order.
    pub closed spec fn grid(&self) -> Seq<Character> {
        self.buffer@
    }

    /// The grid has its fixed size and the cursor is at most one past the
    /// last column.
    pub open spec fn wf(&self) -> bool {
        self.grid().len() == GRID_LEN && 0 <= self.col() <= VGA_SIZE_W
    }

    /// A writer over `buffer` as it stands, with the cursor at column 0.
    pub fn new(color: ColorCode, buffer: Buffer) -> (r: Writer)
        requires
            buffer@.len() == GRID_LEN,
        ensures
            r.wf(),
            r.col() == 0,
            r.attr() == color,
            r.grid() == buffer@,
    {
        Writer { col_pos: 0, color, buffer }
    }

    /// The cursor column.
    pub fn col_pos(&self) -> (r: usize)
        ensures
            r == self.col(),
    {
        self.col_pos
    }

    /// The attribute that written bytes get.
    pub fn color(&self) -> (r: ColorCode)
        ensures
            r == self.attr(),
    {
        self.color
    }

    /// The cell at `row` and `col`.
    pub fn read_char(&self, row: usize, col: usize) -> (r: Character)
        requires
            self.wf(),
            row < VGA_SIZE_H,
            col < VGA_SIZE_W,
        ensures
            r == self.grid()[cell_index(row as int, col as int)],
    {
        self.buffer.read_char(row, col)
    }

    /// Moves the grid's contents up by `distance` rows, dropping the top rows
    /// and blanking the bottom ones.
    pub fn shift_up(&mut self, distance: usize)
        requires
            old(self).wf(),
        ensures
            final(self).wf(),
            final(self).col() == old(self).col(),
            final(self).attr() == old(self).attr(),
            final(self).grid() == shifted_up(old(self).grid(), distance as int),
    {
        let ghost g = self.buffer@;
        let ghost target = shifted_up(g, distance as int);
        let offset: usize = if distance < VGA_SIZE_H { distance * VGA_SIZE_W } else { GRID_LEN };
        let mut i: usize = 0;
        while i < GRID_LEN
            invariant
                i <= GRID_LEN,
                self.buffer@.len() == GRID_LEN,
                g.len() == GRID_LEN,
                self.col_pos == old(self).col_pos,
                self.color == old(self).color,
                target == shifted_up(g, distance as int),
                offset == if distance < VGA_SIZE_H { distance * VGA_SIZE_W } else { GRID_LEN as int },
                forall|j: int| 0 <= j < i ==> #[trigger] self.buffer@[j] == target[j],
                forall|j: int| i <= j < GRID_LEN ==> #[trigger] self.buffer@[j] == g[j],
            decreases GRID_LEN - i,
        {
            let c = if i < GRID_LEN - offset {
                self.buffer.read_at(i + offset)
            } else {
                Character::blank()
            };
            self.buffer.write_at(i, c);
            i = i + 1;
        }
        assert(self.buffer@ =~= target);
    }

    /// Moves the grid's contents down by `distance` rows, dropping the bottom
    /// rows and blanking the top ones.
    pub fn shift_down(&mut self, distance: usize)
        requires
            old(self).wf(),
        ensures
            final(self).wf(),
            final(self).col() == old(self).col(),
            final(self).attr() == old(self).attr(),
            final(self).grid() == shifted_down(old(self).grid(), distance as int),
    {
        let ghost g = self.buffer@;
        let ghost target = shifted_down(g, distance as int);
        let offset: usize = if distance < VGA_SIZE_H { distance * VGA_SIZE_W } else { GRID_LEN };
        let mut i: usize = GRID_LEN;
        while i > 0
            invariant
                i <= GRID_LEN,
                self.buffer@.len() == GRID_LEN,
                g.len() == GRID_LEN,
                self.col_pos == old(self).col_pos,
                self.color == old(self).color,
                target == shifted_down(g, distance as int),
                offset == if distance < VGA_SIZE_H { distance * VGA_SIZE_W } else { GRID_LEN as int },
                forall|j: int| i <= j < GRID_LEN ==> #[trigger] self.buffer@[j] == target[j],
                forall|j: int| 0 <= j < i ==> #[trigger] self.buffer@[j] == g[j],
            decreases i,
        {
            let k = i - 1;
            let c = if k >= offset {
                self.buffer.read_at(k - offset)
            } else {
                Character::blank()
            };
            self.buffer.write_at(k, c);
            i = k;
        }
        assert(self.buffer@ =~= target);
    }

    /// Moves the grid's contents left by `distance` columns, dropping the left
    /// columns and blanking the right ones.
    pub fn shift_left(&mut self, distance: usize)
        requires
            old(self).wf(),
        ensures
            final(self).wf(),
            final(self).col() == old(self).col(),
            final(self).attr() == old(self).attr(),
            final(self).grid() == shifted_left(old(self).grid(), distance as int),
    {
        let ghost g = self.buffer@;
        let ghost target = shifted_left(g, distance as int);
        let mut row: usize = 0;
        while row < VGA_SIZE_H
            invariant
                row <= VGA_SIZE_H,
                self.buffer@.len() == GRID_LEN,
                g.len() == GRID_LEN,
                self.col_pos == old(self).col_pos,
                self.color == old(self).color,
                target == shifted_left(g, distance as int),
                forall|j: int| 0 <= j < cell_index(row as int, 0) ==> #[trigger] self.buffer@[j] == target[j],
                forall|j: int| cell_index(row as int, 0) <= j < GRID_LEN ==> #[trigger] self.buffer@[j] == g[j],
            decreases VGA_SIZE_H - row,
        {
            let mut col: usize = 0;
            while col < VGA_SIZE_W
                invariant
                    row < VGA_SIZE_H,
                    col <= VGA_SIZE_W,
                    self.buffer@.len() == GRID_LEN,
                    g.len() == GRID_LEN,
                    self.col_pos == old(self).col_pos,
                    self.color == old(self).color,
                    target == shifted_left(g, distance as int),
                    forall|j: int| 0 <= j < cell_index(row as int, col as int) ==> #[trigger] self.buffer@[j] == target[j],
                    forall|j: int| cell_index(row as int, col as int) <= j < GRID_LEN ==> #[trigger] self.buffer@[j] == g[j],
                decreases VGA_SIZE_W - col,
            {
                let i = row * VGA_SIZE_W + col;
                proof {
                    lemma_cell_index(row as int, col as int);
                }
                let c = if distance < VGA_SIZE_W - col {
                    self.buffer.read_at(i + distance)
                } else {
                    Character::blank()
                };
                self.buffer.write_at(i, c);
                col = col + 1;
            }
            row = row + 1;
        }
        assert(self.buffer@ =~= target);
    }

    /// Moves the grid's contents right by `distance` columns, dropping the
    /// right columns and blanking the left ones.
    pub fn shift_right(&mut self, distance: usize)
        requires
            old(self).wf(),
        ensures
            final(self).wf(),
            final(self).col() == old(self).col(),
            final(self).attr() == old(self).attr(),
            final(self).grid() == shifted_right(old(self).grid(), distance as int),
    {
        let ghost g = self.buffer@;
        let ghost target = shifted_right(g, distance as int);
        let mut row: usize = 0;
        while row < VGA_SIZE_H
            invariant
                row <= VGA_SIZE_H,
                self.buffer@.len() == GRID_LEN,
                g.len() == GRID_LEN,
                self.col_pos == old(self).col_pos,
                self.color == old(self).color,
                target == shifted_right(g, distance as int),
                forall|j: int| 0 <= j < cell_index(row as int, 0) ==> #[trigger] self.buffer@[j] == target[j],
                forall|j: int| cell_index(row as int, 0) <= j < GRID_LEN ==> #[trigger] self.buffer@[j] == g[j],
            decreases VGA_SIZE_H - row,
        {
            let mut col: usize = VGA_SIZE_W;
            while col > 0
                invariant
                    row < VGA_SIZE_H,
                    col <= VGA_SIZE_W,
                    self.buffer@.len() == GRID_LEN,
                    g.len() == GRID_LEN,
                    self.col_pos == old(self).col_pos,
                    self.color == old(self).color,
                    target == shifted_right(g, distance as int),
                    forall|j: int| 0 <= j < cell_index(row as int, 0) ==> #[trigger] self.buffer@[j] == target[j],
                    forall|j: int| cell_index(row as int, col as int) <= j < cell_index(row as int + 1, 0) ==> #[trigger] self.buffer@[j] == target[j],
                    forall|j: int| cell_index(row as int, 0) <= j < cell_index(row as int, col as int) ==> #[trigger] self.buffer@[j] == g[j],
                    forall|j: int| cell_index(row as int + 1, 0) <= j < GRID_LEN ==> #[trigger] self.buffer@[j] == g[j],
                decreases col,
            {
                let k = col - 1;
                let i = row * VGA_SIZE_W + k;
                proof {
                    lemma_cell_index(row as int, k as int);
                }
                let c = if k >= distance {
                    self.buffer.read_at(i - distance)
                } else {
                    Character::blank()
                };
                self.buffer.write_at(i, c);
                col = k;
            }
            row = row + 1;
        }
        assert(self.buffer@ =~= target);
    }

    /// Blanks every cell of row `row`; a row off the grid is ignored.
    pub fn clear_row(&mut self, row: usize)
        requires
            old(self).wf(),
        ensures
            final(self).wf(),
            final(self).col() == old(self).col(),
            final(self).attr() == old(self).attr(),
            final(self).grid() == row_cleared(old(self).grid(), row as int),
    {
        let ghost g = self.buffer@;
        let mut col: usize = 0;
        while col < VGA_SIZE_W
            invariant
                col <= VGA_SIZE_W,
                self.buffer@.len() == GRID_LEN,
                g.len() == GRID_LEN,
                self.col_pos == old(self).col_pos,
                self.color == old(self).color,
                forall|j: int|
                    0 <= j < GRID_LEN ==> #[trigger] self.buffer@[j] == if cell_index(row as int, 0) <= j
                        < cell_index(row as int, col as int) {
                        blank()
                    } else {
                        g[j]
                    },
            decreases VGA_SIZE_W - col,
        {
            self.buffer.write_char(Character::blank(), row, col);
            col = col + 1;
        }
        assert(self.buffer@ =~= row_cleared(g, row as int));
    }

    /// Blanks every cell of column `col`; a column off the grid is ignored.
    pub fn clear_col(&mut self, col: usize)
        requires
            old(self).wf(),
        ensures
            final(self).wf(),
            final(self).col() == old(self).col(),
            final(self).attr() == old(self).attr(),
            final(self).grid() == col_cleared(old(self).grid(), col as int),
    {
        let ghost g = self.buffer@;
        let mut row: usize = 0;
        while row < VGA_SIZE_H
            invariant
                row <= VGA_SIZE_H,
                self.buffer@.len() == GRID_LEN,
                g.len() == GRID_LEN,
                self.col_pos == old(self).col_pos,
                self.color == old(self).color,
                forall|j: int|
                    0 <= j < GRID_LEN ==> #[trigger] self.buffer@[j] == if j % VGA_SIZE_W as int == col
                        && j < cell_index(row as int, 0) {
                        blank()
                    } else {
                        g[j]
                    },
            decreases VGA_SIZE_H - row,
        {
            proof {
                if col < VGA_SIZE_W {
                    lemma_cell_index(row as int, col as int);
                }
            }
            self.buffer.write_char(Character::blank(), row, col);
            row = row + 1;
        }
        assert(self.buffer@ =~= col_cleared(g, col as int));
    }

    /// Scrolls the grid up by one row and returns the cursor to column 0.
    pub fn new_line(&mut self)
        requires
            old(self).wf(),
        ensures
            final(self).wf(),
            final(self).col() == 0,
            final(self).attr() == old(self).attr(),
            final(self).grid() == shifted_up(old(self).grid(), 1),
    {
        self.shift_up(1);
        self.col_pos = 0;
    }

    /// Writes one byte at the cursor: a newline scrolls; any other byte is
    /// stored on the last row, after a scroll where the row is full.
    pub fn write_byte(&mut self, byte: u8)
        requires
            old(self).wf(),
        ensures
            final(self).wf(),
            final(self).attr() == old(self).attr(),
            (final(self).col(), final(self).grid()) == put_byte(
                old(self).col(),
                old(self).grid(),
                old(self).attr(),
                byte,
            ),
    {
        if byte == NEWLINE {
            self.new_line();
        } else {
            if self.col_pos >= VGA_SIZE_W {
                self.new_line();
            }
            let row = VGA_SIZE_H - 1;
            let col = self.col_pos;
            let color = self.color;
            self.buffer.write_byte_with_color(byte, color, row, col);
            self.col_pos = self.col_pos + 1;
        }
    }

    /// Writes the bytes of `string` in order, each printable byte and newline
    /// as it is and every other byte as the placeholder.
    pub fn write_string(&mut self, string: &str)
        requires
            old(self).wf(),
        ensures
            final(self).wf(),
            final(self).attr() == old(self).attr(),
            (final(self).col(), final(self).grid()) == put_bytes(
                old(self).col(),
                old(self).grid(),
                old(self).attr(),
                string.spec_bytes(),
            ),
    {
        let bytes = string.as_bytes();
        let mut i: usize = 0;
        while i < bytes.len()
            invariant
                i <= bytes@.len(),
                bytes@ == string.spec_bytes(),
                self.wf(),
                self.attr() == old(self).attr(),
                (self.col(), self.grid()) == put_bytes(
                    old(self).col(),
                    old(self).grid(),
                    old(self).attr(),
                    bytes@.take(i as int),
                ),
            decreases bytes@.len() - i,
        {
            let byte = bytes[i];
            proof {
                assert(bytes@.take(i as int + 1).drop_last() =~= bytes@.take(i as int));
            }
            if (0x20 <= byte && byte <= 0x7e) || byte == NEWLINE {
                self.write_byte(byte);
            } else {
                self.write_byte(PLACEHOLDER);
            }
            i = i + 1;
        }
        proof {
            assert(bytes@.take(bytes@.len() as int) =~= bytes@);
        }
    }
}

} // verus!
