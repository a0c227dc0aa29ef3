//! The console core: the 16 selectable colors, the packed color-attribute
//! byte, the two-byte character cell, and the console writer that owns the
//! fixed-size grid, writes bytes at a cursor on the bottom row, and scrolls
//! on line overflow. The writer's behaviour is stated through an abstract
//! state (`WriterView`) and pure transition functions over it.

use vstd::prelude::*;

verus! {

use vstd::string::StringSliceAdditionalSpecFns;

/// Number of rows of the display grid.
pub const BUFFER_HEIGHT: usize = 25;

/// Number of columns of the display grid.
pub const BUFFER_WIDTH: usize = 80;

/// The 16 colors the device can select, in the order of their numeric
/// codes 0 through 15.
#[allow(dead_code)]
#[derive(Debug, Clone, Copy, PartialEq, Eq, Structural)]
pub enum Color {
    Black,
    Blue,
    Green,
    Cyan,
    Red,
    Magenta,
    Brown,
    LightGray,
    DarkGray,
    LightBlue,
    LightGreen,
    LightCyan,
    LightRed,
    Pink,
    Yellow,
    White,
}

/// The numeric code of a color: its position in the device's palette.
pub open spec fn color_code(c: Color) -> u8 {
    match c {
        Color::Black => 0,
        Color::Blue => 1,
        Color::Green => 2,
        Color::Cyan => 3,
        Color::Red => 4,
        Color::Magenta => 5,
        Color::Brown => 6,
        Color::LightGray => 7,
        Color::DarkGray => 8,
        Color::LightBlue => 9,
        Color::LightGreen => 10,
        Color::LightCyan => 11,
        Color::LightRed => 12,
        Color::Pink => 13,
        Color::Yellow => 14,
        Color::White => 15,
    }
}

impl Color {
    /// Every color code is a nibble: it fits in 4 bits.
    pub proof fn lemma_code_is_nibble(self)
        ensures
            color_code(self) < 16,
    {
    }

    /// The numeric code of this color.
    pub fn code(self) -> (code: u8)
        ensures
            code == color_code(self),
    {
        match self {
            Color::Black => 0,
            Color::Blue => 1,
            Color::Green => 2,
            Color::Cyan => 3,
            Color::Red => 4,
            Color::Magenta => 5,
            Color::Brown => 6,
            Color::LightGray => 7,
            Color::DarkGray => 8,
            Color::LightBlue => 9,
            Color::LightGreen => 10,
            Color::LightCyan => 11,
            Color::LightRed => 12,
            Color::Pink => 13,
            Color::Yellow => 14,
            Color::White => 15,
        }
    }
}

/// A packed color attribute: bits 0-3 hold the foreground color code,
/// bits 4-7 the background color code.
#[derive(Debug, Clone, Copy, PartialEq, Eq, Structural)]
pub struct ColorCode(pub u8);

impl ColorCode {
    /// Packs a foreground and a background color into one attribute byte,
    /// `(background << 4) | foreground`. The packing is exact: each nibble
    /// of the result recovers the color code it was built from.
    pub fn new(foreground: Color, background: Color) -> (r: ColorCode)
        ensures
            r.0 == (color_code(background) << 4) | color_code(foreground),
            r.0 & 0xf == color_code(foreground),
            (r.0 >> 4) & 0xf == color_code(background),
    {
        let fg: u8 = foreground.code();
        let bg: u8 = background.code();
        let packed: u8 = (bg << 4) | fg;
        proof {
            foreground.lemma_code_is_nibble();
            background.lemma_code_is_nibble();
            assert(fg < 16 && bg < 16 ==> ((bg << 4) | fg) & 0xf == fg) by (bit_vector);
            assert(fg < 16 && bg < 16 ==> ((((bg << 4) | fg) >> 4) & 0xf) == bg) by (bit_vector);
        }
        ColorCode(packed)
    }
}

/// One character cell as the device lays it out: a glyph byte and a
/// packed color attribute.
#[derive(Debug, Clone, Copy, PartialEq, Eq, Structural)]
pub struct ScreenChar {
    pub ascii_character: u8,
    pub color_code: ColorCode,
}

/// Byte code of the newline character, the only control character the
/// writer interprets.
pub const NEWLINE: u8 = 0x0a;

/// First byte of the printable range.
pub const PRINTABLE_FIRST: u8 = 0x20;

/// Last byte of the printable range.
pub const PRINTABLE_LAST: u8 = 0x7e;

/// Glyph stored in place of a byte outside the printable range: a solid
/// block that marks unprintable input visibly.
pub const PLACEHOLDER: u8 = 0xfe;

/// Glyph of a blank cell: a space.
pub const BLANK: u8 = 0x20;

/// The abstract state of the console writer: the grid contents as a
/// sequence of rows, the cursor column on the bottom row, and the
/// attribute every written or blanked cell receives.
pub struct WriterView {
    pub grid: Seq<Seq<ScreenChar>>,
    pub col: nat,
    pub color: ColorCode,
}

/// A grid has exactly `BUFFER_HEIGHT` rows of exactly `BUFFER_WIDTH` cells.
pub open spec fn wf_grid(grid: Seq<Seq<ScreenChar>>) -> bool {
    &&& grid.len() == BUFFER_HEIGHT
    &&& forall|r: int| 0 <= r < grid.len() ==> (#[trigger] grid[r]).len() == BUFFER_WIDTH
}

/// A well-formed writer state: proper grid dimensions, and a cursor that
/// sits at a column or just past the last one (the wrap is performed
/// lazily, on the next written byte).
pub open spec fn wf_state(s: WriterView) -> bool {
    &&& wf_grid(s.grid)
    &&& s.col <= BUFFER_WIDTH
}

/// A blank cell: a space glyph under the given attribute.
pub open spec fn blank_char(color: ColorCode) -> ScreenChar {
    ScreenChar { ascii_character: BLANK, color_code: color }
}

/// A fully blank row under the given attribute.
pub open spec fn blank_row(color: ColorCode) -> Seq<ScreenChar> {
    Seq::new(BUFFER_WIDTH as nat, |c: int| blank_char(color))
}

/// A fully blank grid under the given attribute.
pub open spec fn blank_grid(color: ColorCode) -> Seq<Seq<ScreenChar>> {
    Seq::new(BUFFER_HEIGHT as nat, |r: int| blank_row(color))
}

/// The grid after one scroll: every row takes the contents of the row
/// below it, and the bottom row becomes blank under the given attribute.
/// Rows shifted off the top are lost; there is no scrollback.
pub open spec fn scrolled(grid: Seq<Seq<ScreenChar>>, color: ColorCode) -> Seq<Seq<ScreenChar>> {
    Seq::new(
        BUFFER_HEIGHT as nat,
        |r: int|
            if r < BUFFER_HEIGHT - 1 {
                grid[r + 1]
            } else {
                blank_row(color)
            },
    )
}

/// The line advance: scroll the grid once and reset the cursor to
/// column 0. No cell receives a glyph for the advance itself.
pub open spec fn newline_step(s: WriterView) -> WriterView {
    WriterView { grid: scrolled(s.grid, s.color), col: 0, color: s.color }
}

/// Writing one visible byte: wrap first if the bottom row is full, then
/// store the glyph under the current attribute at the cursor on the
/// bottom row and advance the cursor by one.
pub open spec fn put_char_step(s: WriterView, byte: u8) -> WriterView {
    let t = if s.col >= BUFFER_WIDTH {
        newline_step(s)
    } else {
        s
    };
    WriterView {
        grid: t.grid.update(
            BUFFER_HEIGHT - 1,
            t.grid[BUFFER_HEIGHT - 1].update(
                t.col as int,
                ScreenChar { ascii_character: byte, color_code: s.color },
            ),
        ),
        col: t.col + 1,
        color: s.color,
    }
}

/// The effect of `Writer::write_byte`: a newline advances the line, any
/// other byte is stored verbatim.
pub open spec fn write_byte_step(s: WriterView, byte: u8) -> WriterView {
    if byte == NEWLINE {
        newline_step(s)
    } else {
        put_char_step(s, byte)
    }
}

/// Whether a byte lies in the printable range the device can render.
pub open spec fn is_printable(byte: u8) -> bool {
    PRINTABLE_FIRST <= byte <= PRINTABLE_LAST
}

/// The display-safety filter of `Writer::write_string`: printable bytes
/// and the newline pass unchanged, every other byte becomes the
/// placeholder glyph.
pub open spec fn filtered(byte: u8) -> u8 {
    if is_printable(byte) || byte == NEWLINE {
        byte
    } else {
        PLACEHOLDER
    }
}

/// The effect of `Writer::write_string`: each byte in order, through the
/// printable-range filter and then the single-byte step.
pub open spec fn write_bytes_step(s: WriterView, bytes: Seq<u8>) -> WriterView
    decreases bytes.len(),
{
    if bytes.len() == 0 {
        s
    } else {
        write_bytes_step(write_byte_step(s, filtered(bytes[0])), bytes.drop_first())
    }
}

/// The grid of character cells, row-major. The memory-mapped incarnation
/// that a device displays lives outside this crate; this is the exact
/// model of its contents that the writer maintains.
struct Buffer {
    chars: Vec<Vec<ScreenChar>>,
}

/// The console writer: owns the grid, tracks the cursor column on the
/// fixed bottom row, and carries the attribute applied to every write.
pub struct Writer {
    column_position: usize,
    color_code: ColorCode,
    buffer: Buffer,
}

impl View for Writer {
    type V = WriterView;

    closed spec fn view(&self) -> WriterView {
        WriterView {
            grid: self.buffer.chars@.map_values(|row: Vec<ScreenChar>| row@),
            col: self.column_position as nat,
            color: self.color_code,
        }
    }
}

proof fn lemma_chars_dims(w: Writer)
    requires
        w.wf(),
    ensures
        w.buffer.chars@.len() == BUFFER_HEIGHT,
        forall|r: int|
            0 <= r < BUFFER_HEIGHT ==> (#[trigger] w.buffer.chars@[r])@.len() == BUFFER_WIDTH,
{
    assert forall|r: int|
        0 <= r < BUFFER_HEIGHT implies (#[trigger] w.buffer.chars@[r])@.len()
        == BUFFER_WIDTH by {
        assert(w@.grid[r] == w.buffer.chars@[r]@);
    };
}

impl Writer {
    /// Whether this writer is well formed; established by `new` and
    /// preserved by every method.
    pub open spec fn wf(&self) -> bool {
        wf_state(self@)
    }

    /// A fresh writer: cursor at column 0, the given attribute, and the
    /// whole grid cleared to blanks. Clearing at construction makes the
    /// initial contents definite rather than whatever the prior device
    /// state held.
    #[verifier::loop_isolation(false)]
    pub fn new(color_code: ColorCode) -> (w: Writer)
        ensures
            w.wf(),
            w@ == (WriterView { grid: blank_grid(color_code), col: 0 as nat, color: color_code }),
    {
        let blank = ScreenChar { ascii_character: BLANK, color_code };
        let mut chars: Vec<Vec<ScreenChar>> = Vec::new();
        for r in 0..BUFFER_HEIGHT
            invariant
                chars@.len() == r,
                forall|i: int| 0 <= i < r ==> (#[trigger] chars@[i])@ == blank_row(color_code),
        {
            let mut row: Vec<ScreenChar> = Vec::new();
            for c in 0..BUFFER_WIDTH
                invariant
                    row@.len() == c,
                    forall|j: int| 0 <= j < c ==> #[trigger] row@[j] == blank_char(color_code),
            {
                row.push(blank);
            }
            proof {
                assert(row@ =~= blank_row(color_code));
            }
            chars.push(row);
        }
        let w = Writer { column_position: 0, color_code, buffer: Buffer { chars } };
        proof {
            assert(w@.grid =~= blank_grid(color_code));
        }
        w
    }

    /// Overwrites one row with blank cells under the current attribute.
    /// The cursor and the attribute are untouched.
    #[verifier::loop_isolation(false)]
    fn clear_row(&mut self, row: usize)
        requires
            old(self).wf(),
            row < BUFFER_HEIGHT,
        ensures
            final(self).wf(),
            final(self)@.grid == old(self)@.grid.update(row as int, blank_row(old(self)@.color)),
            final(self)@.col == old(self)@.col,
            final(self)@.color == old(self)@.color,
    {
        proof {
            lemma_chars_dims(*self);
        }
        let blank = ScreenChar { ascii_character: BLANK, color_code: self.color_code };
        for col in 0..BUFFER_WIDTH
            invariant
                self.buffer.chars@.len() == BUFFER_HEIGHT,
                forall|r: int|
                    0 <= r < BUFFER_HEIGHT ==> (#[trigger] self.buffer.chars@[r])@.len()
                        == BUFFER_WIDTH,
                self.column_position == old(self).column_position,
                self.color_code == old(self).color_code,
                forall|r: int|
                    0 <= r < BUFFER_HEIGHT && r != row ==> #[trigger] self.buffer.chars@[r] == old(
                        self,
                    ).buffer.chars@[r],
                forall|j: int|
                    0 <= j < col ==> (#[trigger] self.buffer.chars@[row as int])@[j] == blank_char(
                        old(self)@.color,
                    ),
                forall|j: int|
                    col <= j < BUFFER_WIDTH ==> self.buffer.chars@[row as int]@[j] == old(
                        self,
                    ).buffer.chars@[row as int]@[j],
        {
            self.buffer.chars[row][col] = blank;
        }
        proof {
            assert(self@.grid[row as int] =~= blank_row(old(self)@.color));
            assert(self@.grid =~= old(self)@.grid.update(row as int, blank_row(old(self)@.color)));
        }
    }

    /// The line advance: every row moves up by one, the bottom row is
    /// cleared to blanks under the current attribute, and the cursor
    /// returns to column 0. Rows shifted off the top are lost.
    #[verifier::loop_isolation(false)]
    fn new_line(&mut self)
        requires
            old(self).wf(),
        ensures
            final(self).wf(),
            final(self)@ == newline_step(old(self)@),
            forall|r: int|
                0 <= r < BUFFER_HEIGHT - 1 ==> #[trigger] final(self)@.grid[r] == old(
                    self,
                )@.grid[r + 1],
            final(self)@.grid[BUFFER_HEIGHT - 1] == blank_row(old(self)@.color),
            final(self)@.col == 0,
            final(self)@.color == old(self)@.color,
    {
        proof {
            lemma_chars_dims(*self);
        }
        for row in 1..BUFFER_HEIGHT
            invariant
                self.buffer.chars@.len() == BUFFER_HEIGHT,
                forall|r: int|
                    0 <= r < BUFFER_HEIGHT ==> (#[trigger] self.buffer.chars@[r])@.len()
                        == BUFFER_WIDTH,
                self.column_position == old(self).column_position,
                self.color_code == old(self).color_code,
                forall|k: int|
                    0 <= k < row - 1 ==> (#[trigger] self.buffer.chars@[k])@ == old(
                        self,
                    ).buffer.chars@[k + 1]@,
                forall|k: int|
                    row - 1 <= k < BUFFER_HEIGHT ==> #[trigger] self.buffer.chars@[k] == old(
                        self,
                    ).buffer.chars@[k],
        {
            for col in 0..BUFFER_WIDTH
                invariant
                    self.buffer.chars@.len() == BUFFER_HEIGHT,
                    forall|r: int|
                        0 <= r < BUFFER_HEIGHT ==> (#[trigger] self.buffer.chars@[r])@.len()
                            == BUFFER_WIDTH,
                    self.column_position == old(self).column_position,
                    self.color_code == old(self).color_code,
                    forall|k: int|
                        0 <= k < row - 1 ==> (#[trigger] self.buffer.chars@[k])@ == old(
                            self,
                        ).buffer.chars@[k + 1]@,
                    forall|k: int|
                        row <= k < BUFFER_HEIGHT ==> #[trigger] self.buffer.chars@[k] == old(
                            self,
                        ).buffer.chars@[k],
                    forall|j: int|
                        0 <= j < col ==> (#[trigger] self.buffer.chars@[row - 1])@[j] == old(
                            self,
                        ).buffer.chars@[row as int]@[j],
                    forall|j: int|
                        col <= j < BUFFER_WIDTH ==> #[trigger] (self.buffer.chars@[row - 1]@[j])
                            == old(self).buffer.chars@[row - 1]@[j],
            {
                let character = self.buffer.chars[row][col];
                self.buffer.chars[row - 1][col] = character;
            }
            proof {
                assert(self.buffer.chars@[row - 1]@ =~= old(self).buffer.chars@[row as int]@);
            }
        }
        self.clear_row(BUFFER_HEIGHT - 1);
        self.column_position = 0;
        proof {
            assert(self@.grid =~= scrolled(old(self)@.grid, old(self)@.color));
        }
    }

    /// Writes a single byte. A newline advances the line and writes no
    /// cell; any other byte value is stored verbatim on the bottom row at
    /// the cursor, wrapping first when the row is full. Total over all
    /// 256 byte values; the printable-range filter belongs to
    /// `write_string`, not here.
    #[verifier::loop_isolation(false)]
    pub fn write_byte(&mut self, byte: u8)
        requires
            old(self).wf(),
        ensures
            final(self).wf(),
            final(self)@ == write_byte_step(old(self)@, byte),
    {
        if byte == NEWLINE {
            self.new_line();
        } else {
            if self.column_position >= BUFFER_WIDTH {
                self.new_line();
            }
            proof {
                lemma_chars_dims(*self);
            }
            let ghost mid: WriterView = self@;
            let row: usize = BUFFER_HEIGHT - 1;
            let col: usize = self.column_position;
            let color_code: ColorCode = self.color_code;
            self.buffer.chars[row][col] = ScreenChar { ascii_character: byte, color_code };
            self.column_position += 1;
            proof {
                assert(self@.grid =~= mid.grid.update(
                    row as int,
                    mid.grid[row as int].update(
                        col as int,
                        ScreenChar { ascii_character: byte, color_code },
                    ),
                ));
            }
        }
    }

    /// Writes a text fragment byte by byte, in order, through the
    /// display-safety filter: printable bytes and the newline are written
    /// verbatim, every other byte is stored as the placeholder glyph.
    #[verifier::loop_isolation(false)]
    pub fn write_string(&mut self, s: &str)
        requires
            old(self).wf(),
        ensures
            final(self).wf(),
            final(self)@ == write_bytes_step(old(self)@, s.spec_bytes()),
    {
        let bytes: &[u8] = s.as_bytes();
        let ghost bs: Seq<u8> = s.spec_bytes();
        let n: usize = bytes.len();
        for i in 0..n
            invariant
                self.wf(),
                bytes@ == bs,
                n == bs.len(),
                self@ == write_bytes_step(old(self)@, bs.take(i as int)),
        {
            let byte: u8 = bytes[i];
            proof {
                assert(bs.take(i + 1) =~= bs.take(i as int).push(bs[i as int]));
                lemma_write_bytes_step_snoc(old(self)@, bs.take(i as int), bs[i as int]);
            }
            if (PRINTABLE_FIRST <= byte && byte <= PRINTABLE_LAST) || byte == NEWLINE {
                self.write_byte(byte);
            } else {
                self.write_byte(PLACEHOLDER);
            }
        }
        proof {
            assert(bs.take(n as int) =~= bs);
        }
    }

    /// The cursor column on the bottom row.
    pub fn column_position(&self) -> (col: usize)
        ensures
            col == self@.col,
    {
        self.column_position
    }

    /// The attribute under which this writer stores and blanks cells.
    pub fn color_code(&self) -> (color: ColorCode)
        ensures
            color == self@.color,
    {
        self.color_code
    }

    /// The cell currently held at the given row and column.
    pub fn char_at(&self, row: usize, col: usize) -> (c: ScreenChar)
        requires
            self.wf(),
            row < BUFFER_HEIGHT,
            col < BUFFER_WIDTH,
        ensures
            c == self@.grid[row as int][col as int],
    {
        proof {
            lemma_chars_dims(*self);
        }
        self.buffer.chars[row][col]
    }
}

/// Appending one byte to a written sequence is one more filtered
/// single-byte step after the sequence.
pub proof fn lemma_write_bytes_step_snoc(s: WriterView, bytes: Seq<u8>, byte: u8)
    ensures
        write_bytes_step(s, bytes.push(byte)) == write_byte_step(
            write_bytes_step(s, bytes),
            filtered(byte),
        ),
    decreases bytes.len(),
{
    if bytes.len() == 0 {
        assert(bytes.push(byte)[0] == byte);
        assert(bytes.push(byte).drop_first() =~= Seq::<u8>::empty());
        assert(write_bytes_step(write_byte_step(s, filtered(byte)), Seq::<u8>::empty())
            == write_byte_step(s, filtered(byte)));
    } else {
        assert(bytes.push(byte)[0] == bytes[0]);
        assert(bytes.push(byte).drop_first() =~= bytes.drop_first().push(byte));
        lemma_write_bytes_step_snoc(write_byte_step(s, filtered(bytes[0])), bytes.drop_first(), byte);
    }
}

} // verus!
