//! The writer of the VGA text screen.

use vstd::prelude::*;
use vstd::string::StringSliceAdditionalSpecFns;

verus! {

/// The sixteen colours of the VGA text mode.
#[allow(dead_code)]
#[derive(Debug, Clone, Copy, PartialEq, Eq, Structural)]
pub enum Color {
    Black,
    Blue,
    Green,
    Cyan,
    Red,
    Magenta,
    Brown,
    LightGray,
    DarkGray,
    LightBlue,
    LightGreen,
    LightCyan,
    LightRed,
    Pink,
    Yellow,
    White,
}

impl Color {
    /// The number of the colour in the VGA palette.
    pub open spec fn code(self) -> u8 {
        match self {
            Color::Black => 0,
            Color::Blue => 1,
            Color::Green => 2,
            Color::Cyan => 3,
            Color::Red => 4,
            Color::Magenta => 5,
            Color::Brown => 6,
            Color::LightGray => 7,
            Color::DarkGray => 8,
            Color::LightBlue => 9,
            Color::LightGreen => 10,
            Color::LightCyan => 11,
            Color::LightRed => 12,
            Color::Pink => 13,
            Color::Yellow => 14,
            Color::White => 15,
        }
    }

    pub fn as_u8(self) -> (code: u8)
        ensures
            code == self.code(),
    {
        match self {
            Color::Black => 0,
            Color::Blue => 1,
            Color::Green => 2,
            Color::Cyan => 3,
            Color::Red => 4,
            Color::Magenta => 5,
            Color::Brown => 6,
            Color::LightGray => 7,
            Color::DarkGray => 8,
            Color::LightBlue => 9,
            Color::LightGreen => 10,
            Color::LightCyan => 11,
            Color::LightRed => 12,
            Color::Pink => 13,
            Color::Yellow => 14,
            Color::White => 15,
        }
    }
}

/// The attribute byte of a screen cell: the background colour in the upper
/// four bits, the foreground colour in the lower four.
#[derive(Debug, Clone, Copy, PartialEq, Eq, Structural)]
pub struct ColorCode(pub u8);

impl ColorCode {
    pub fn new(foreground: Color, background: Color) -> (color_code: ColorCode)
        ensures
            color_code.0 == background.code() * 16 + foreground.code(),
    {
        let background = background.as_u8();
        let foreground = foreground.as_u8();
        assert(background < 16 && foreground < 16 ==> (background << 4 | foreground) == background
            * 16 + foreground) by (bit_vector);
        ColorCode(background << 4 | foreground)
    }
}

/// A cell of the screen: a character of code page 437 and its colours.
#[derive(Debug, Clone, Copy, PartialEq, Eq, Structural)]
pub struct ScreenChar {
    pub ascii_character: u8,
    pub color_code: ColorCode,
}

/// Rows of the VGA text buffer.
pub const BUFFER_HEIGHT: usize = 25;

/// Columns of the VGA text buffer.
pub const BUFFER_WIDTH: usize = 80;

/// The ASCII code of the space.
pub const SPACE: u8 = 0x20;

/// The ASCII code of the newline.
pub const NEWLINE: u8 = 0x0a;

/// The byte that is printed in place of one that cannot be printed.
pub const UNPRINTABLE: u8 = 0xfe;

/// What a writer stands for: the column of the next character in the last
/// row, the colours in use, and the cells of the screen, row by row.
pub struct WriterView {
    pub column_position: usize,
    pub color_code: ColorCode,
    pub chars: Seq<Seq<ScreenChar>>,
}

/// The screen has `BUFFER_HEIGHT` rows of `BUFFER_WIDTH` cells, and the
/// column is on the screen or just behind the end of the row.
pub open spec fn writer_wf(v: WriterView) -> bool {
    &&& v.column_position <= BUFFER_WIDTH
    &&& v.chars.len() == BUFFER_HEIGHT
    &&& forall|row: int| 0 <= row < BUFFER_HEIGHT ==> (#[trigger] v.chars[row]).len() == BUFFER_WIDTH
}

/// A blank cell in the given colours.
pub open spec fn blank(color_code: ColorCode) -> ScreenChar {
    ScreenChar { ascii_character: SPACE, color_code }
}

/// The writer after a line break: every row has moved up by one, the first
/// row is gone, the last row is blank, and the column is at the start.
pub open spec fn new_line_spec(v: WriterView) -> WriterView {
    WriterView {
        column_position: 0,
        color_code: v.color_code,
        chars: Seq::new(
            BUFFER_HEIGHT as nat,
            |row: int|
                if row < BUFFER_HEIGHT - 1 {
                    v.chars[row + 1]
                } else {
                    Seq::new(BUFFER_WIDTH as nat, |col: int| blank(v.color_code))
                },
        ),
    }
}

/// The writer after `byte` is written: a newline breaks the line; any other
/// byte goes into the last row at the column, after a line break where the
/// row is full, and moves the column on by one.
pub open spec fn write_byte_spec(v: WriterView, byte: u8) -> WriterView {
    if byte == NEWLINE {
        new_line_spec(v)
    } else {
        let v = if v.column_position >= BUFFER_WIDTH {
            new_line_spec(v)
        } else {
            v
        };
        let row = BUFFER_HEIGHT - 1;
        WriterView {
            column_position: (v.column_position + 1) as usize,
            color_code: v.color_code,
            chars: v.chars.update(
                row,
                v.chars[row].update(
                    v.column_position as int,
                    ScreenChar { ascii_character: byte, color_code: v.color_code },
                ),
            ),
        }
    }
}

/// The byte that is written for a byte of a string: the byte itself where it
/// is a printable ASCII character or a newline, the mark for an unprintable
/// byte otherwise.
pub open spec fn printable(byte: u8) -> u8 {
    if 0x20 <= byte <= 0x7e || byte == NEWLINE {
        byte
    } else {
        UNPRINTABLE
    }
}

/// The writer after the bytes of a string are written, one after the other.
pub open spec fn write_string_spec(v: WriterView, bytes: Seq<u8>) -> WriterView
    decreases bytes.len(),
{
    if bytes.len() == 0 {
        v
    } else {
        write_byte_spec(write_string_spec(v, bytes.drop_last()), printable(bytes.last()))
    }
}

/// Writing keeps the screen well formed.
pub proof fn lemma_write_byte_wf(v: WriterView, byte: u8)
    requires
        writer_wf(v),
    ensures
        writer_wf(new_line_spec(v)),
        writer_wf(write_byte_spec(v, byte)),
{
}

/// Writing a string keeps the screen well formed.
pub proof fn lemma_write_string_wf(v: WriterView, bytes: Seq<u8>)
    requires
        writer_wf(v),
    ensures
        writer_wf(write_string_spec(v, bytes)),
    decreases bytes.len(),
{
    if bytes.len() > 0 {
        lemma_write_string_wf(v, bytes.drop_last());
        lemma_write_byte_wf(write_string_spec(v, bytes.drop_last()), printable(bytes.last()));
    }
}

/// The cells of the screen.
pub struct Buffer {
    chars: Vec<Vec<ScreenChar>>,
}

/// A writer that prints into the last row of the screen and moves the rows
/// up when the row is full.
pub struct Writer {
    column_position: usize,
    color_code: ColorCode,
    buffer: Buffer,
}

impl View for Writer {
    type V = WriterView;

    closed spec fn view(&self) -> WriterView {
        WriterView {
            column_position: self.column_position,
            color_code: self.color_code,
            chars: self.buffer.chars@.map_values(|row: Vec<ScreenChar>| row@),
        }
    }
}

impl Writer {
    pub open spec fn wf(&self) -> bool {
        writer_wf(self@)
    }

    /// What the view says of the rows holds of the rows themselves.
    proof fn lemma_rows(&self)
        requires
            self.wf(),
        ensures
            self.buffer.chars@.len() == BUFFER_HEIGHT,
            forall|row: int|
                0 <= row < BUFFER_HEIGHT ==> (#[trigger] self.buffer.chars@[row])@.len()
                    == BUFFER_WIDTH && self@.chars[row] == self.buffer.chars@[row]@,
    {
        assert forall|row: int| 0 <= row < BUFFER_HEIGHT implies (#[trigger] self.buffer.chars@[row])@.len()
            == BUFFER_WIDTH && self@.chars[row] == self.buffer.chars@[row]@ by {
            assert(self@.chars[row].len() == BUFFER_WIDTH);
        }
    }

    /// A writer at the start of the last row of a blank screen.
    pub fn new(color_code: ColorCode) -> (writer: Self)
        ensures
            writer.wf(),
            writer@.column_position == 0,
            writer@.color_code == color_code,
            forall|row: int, col: int|
                0 <= row < BUFFER_HEIGHT && 0 <= col < BUFFER_WIDTH
                    ==> #[trigger] writer@.chars[row][col] == blank(color_code),
    {
        let blank = ScreenChar { ascii_character: SPACE, color_code };
        let mut chars: Vec<Vec<ScreenChar>> = Vec::new();
        while chars.len() < BUFFER_HEIGHT
            invariant
                chars@.len() <= BUFFER_HEIGHT,
                blank == self::blank(color_code),
                forall|row: int|
                    0 <= row < chars@.len() ==> (#[trigger] chars@[row])@.len() == BUFFER_WIDTH,
                forall|row: int, col: int|
                    0 <= row < chars@.len() && 0 <= col < BUFFER_WIDTH
                        ==> #[trigger] chars@[row]@[col] == blank,
            decreases BUFFER_HEIGHT - chars@.len(),
        {
            let mut line: Vec<ScreenChar> = Vec::new();
            while line.len() < BUFFER_WIDTH
                invariant
                    line@.len() <= BUFFER_WIDTH,
                    forall|col: int| 0 <= col < line@.len() ==> #[trigger] line@[col] == blank,
                decreases BUFFER_WIDTH - line@.len(),
            {
                line.push(blank);
            }
            chars.push(line);
        }
        Writer { column_position: 0, color_code, buffer: Buffer { chars } }
    }

    /// The column of the next character in the last row.
    pub fn column_position(&self) -> (column: usize)
        ensures
            column == self@.column_position,
    {
        self.column_position
    }

    /// The cell at `row` and `col`.
    pub fn read(&self, row: usize, col: usize) -> (cell: ScreenChar)
        requires
            self.wf(),
            row < BUFFER_HEIGHT,
            col < BUFFER_WIDTH,
        ensures
            cell == self@.chars[row as int][col as int],
    {
        proof {
            self.lemma_rows();
        }
        self.buffer.chars[row][col]
    }

    /// Writes one byte to the screen.
    pub fn write_byte(&mut self, byte: u8)
        requires
            old(self).wf(),
        ensures
            final(self).wf(),
            final(self)@ == write_byte_spec(old(self)@, byte),
    {
        if byte == NEWLINE {
            self.new_line();
        } else {
            if self.column_position >= BUFFER_WIDTH {
                self.new_line();
            }
            let row = BUFFER_HEIGHT - 1;
            let col = self.column_position;
            let color_code = self.color_code;
            let ghost before = self@;
            proof {
                self.lemma_rows();
            }
            self.buffer.chars[row][col] = ScreenChar { ascii_character: byte, color_code };
            self.column_position += 1;
            proof {
                let expected = write_byte_spec(old(self)@, byte);
                assert(self@.chars.len() == expected.chars.len());
                assert forall|r: int| 0 <= r < BUFFER_HEIGHT implies #[trigger] self@.chars[r]
                    =~= expected.chars[r] by {
                    assert(before.chars[r].len() == BUFFER_WIDTH);
                }
                assert(self@.chars =~= expected.chars);
            }
        }
    }

    /// Writes a string to the screen. A byte that is neither a printable
    /// ASCII character nor a newline is written as `UNPRINTABLE`.
    pub fn write_string(&mut self, s: &str)
        requires
            old(self).wf(),
        ensures
            final(self).wf(),
            final(self)@ == write_string_spec(old(self)@, s.spec_bytes()),
    {
        let bytes = s.as_bytes();
        let mut index: usize = 0;
        while index < bytes.len()
            invariant
                0 <= index <= bytes@.len(),
                bytes@ == s.spec_bytes(),
                self.wf(),
                self@ == write_string_spec(old(self)@, bytes@.take(index as int)),
            decreases bytes@.len() - index,
        {
            let byte = bytes[index];
            proof {
                assert(bytes@.take(index + 1).drop_last() =~= bytes@.take(index as int));
                assert(bytes@.take(index + 1).last() == byte);
            }
            if (0x20 <= byte && byte <= 0x7e) || byte == NEWLINE {
                // printable ASCII byte or newline
                self.write_byte(byte);
            } else {
                // not part of printable ASCII range
                self.write_byte(UNPRINTABLE);
            }
            index += 1;
        }
        proof {
            assert(bytes@.take(index as int) =~= bytes@);
        }
    }

    /// Moves every row up by one and clears the last row.
    fn new_line(&mut self)
        requires
            old(self).wf(),
        ensures
            final(self).wf(),
            final(self)@ == new_line_spec(old(self)@),
    {
        let mut row: usize = 1;
        while row < BUFFER_HEIGHT
            invariant
                1 <= row <= BUFFER_HEIGHT,
                self.wf(),
                old(self).wf(),
                self@.column_position == old(self)@.column_position,
                self@.color_code == old(self)@.color_code,
                forall|r: int|
                    0 <= r < row - 1 ==> #[trigger] self@.chars[r] == old(self)@.chars[r + 1],
                forall|r: int|
                    row - 1 <= r < BUFFER_HEIGHT ==> #[trigger] self@.chars[r] == old(self)@.chars[r],
            decreases BUFFER_HEIGHT - row,
        {
            let ghost start = self@;
            let mut col: usize = 0;
            while col < BUFFER_WIDTH
                invariant
                    0 <= col <= BUFFER_WIDTH,
                    1 <= row < BUFFER_HEIGHT,
                    self.wf(),
                    writer_wf(start),
                    self@.column_position == start.column_position,
                    self@.color_code == start.color_code,
                    forall|r: int|
                        0 <= r < BUFFER_HEIGHT && r != row - 1 ==> #[trigger] self@.chars[r]
                            == start.chars[r],
                    forall|c: int|
                        0 <= c < col ==> #[trigger] self@.chars[row - 1][c] == start.chars[row as int][c],
                decreases BUFFER_WIDTH - col,
            {
                proof {
                    self.lemma_rows();
                }
                let character = self.buffer.chars[row][col];
                let ghost before = self@;
                self.buffer.chars[row - 1][col] = character;
                proof {
                    assert forall|r: int|
                        0 <= r < BUFFER_HEIGHT && r != row - 1 implies #[trigger] self@.chars[r]
                        == start.chars[r] by {
                        assert(self@.chars[r] == before.chars[r]);
                    }
                    assert(self@.chars[row - 1] =~= before.chars[row - 1].update(col as int, character));
                }
                col += 1;
            }
            proof {
                assert(self@.chars[row - 1] =~= start.chars[row as int]);
            }
            row += 1;
        }
        self.clear_row(BUFFER_HEIGHT - 1);
        self.column_position = 0;
        proof {
            let expected = new_line_spec(old(self)@);
            assert forall|r: int| 0 <= r < BUFFER_HEIGHT implies #[trigger] self@.chars[r]
                =~= expected.chars[r] by {}
            assert(self@.chars =~= expected.chars);
        }
    }

    /// Fills a row with blanks.
    fn clear_row(&mut self, row: usize)
        requires
            old(self).wf(),
            row < BUFFER_HEIGHT,
        ensures
            final(self).wf(),
            final(self)@.column_position == old(self)@.column_position,
            final(self)@.color_code == old(self)@.color_code,
            forall|r: int|
                0 <= r < BUFFER_HEIGHT && r != row ==> #[trigger] final(self)@.chars[r] == old(
                    self,
                )@.chars[r],
            forall|c: int|
                0 <= c < BUFFER_WIDTH ==> #[trigger] final(self)@.chars[row as int][c] == blank(
                    old(self)@.color_code,
                ),
    {
        let blank = ScreenChar { ascii_character: SPACE, color_code: self.color_code };
        let mut col: usize = 0;
        while col < BUFFER_WIDTH
            invariant
                0 <= col <= BUFFER_WIDTH,
                row < BUFFER_HEIGHT,
                self.wf(),
                blank == self::blank(old(self)@.color_code),
                self@.column_position == old(self)@.column_position,
                self@.color_code == old(self)@.color_code,
                forall|r: int|
                    0 <= r < BUFFER_HEIGHT && r != row ==> #[trigger] self@.chars[r] == old(
                        self,
                    )@.chars[r],
                forall|c: int| 0 <= c < col ==> #[trigger] self@.chars[row as int][c] == blank,
            decreases BUFFER_WIDTH - col,
        {
            let ghost before = self@;
            proof {
                self.lemma_rows();
            }
            self.buffer.chars[row][col] = blank;
            proof {
                assert forall|r: int|
                    0 <= r < BUFFER_HEIGHT && r != row implies #[trigger] self@.chars[r] == old(
                    self,
                )@.chars[r] by {
                    assert(self@.chars[r] == before.chars[r]);
                }
                assert(self@.chars[row as int] =~= before.chars[row as int].update(col as int, blank));
            }
            col += 1;
        }
    }
}

} // verus!
