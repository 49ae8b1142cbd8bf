//! The text-mode screen: 25 rows of 80 characters, each with a colour.

use vstd::prelude::*;
use vstd::string::StringSliceAdditionalSpecFns;
use crate::interrupts::PortWrite;

verus! {

/// The characters in a row.
pub const VGA_WIDTH: usize = 80;

/// The rows of the screen.
pub const VGA_HEIGHT: usize = 25;

/// The characters of the prompt, which are not deleted.
pub const PROMPT_LENGTH: usize = 5;

/// The port that selects a register of the display controller.
pub const CURSOR_CONTROL_PORT: u16 = 0x3D4;

/// The port through which the selected register is written.
pub const CURSOR_DATA_PORT: u16 = 0x3D5;

/// The sixteen colours of the text mode.
#[derive(Debug, Clone, Copy, PartialEq, Eq, Structural)]
pub enum Color {
    Black,
    Blue,
    Green,
    Cyan,
    Red,
    Magenta,
    Brown,
    LightGrey,
    DarkGrey,
    LightBlue,
    LightGreen,
    LightCyan,
    LightRed,
    Pink,
    Yellow,
    White,
}

impl Color {
    /// The number of the colour.
    pub open spec fn spec_as_u8(self) -> u8 {
        match self {
            Color::Black => 0,
            Color::Blue => 1,
            Color::Green => 2,
            Color::Cyan => 3,
            Color::Red => 4,
            Color::Magenta => 5,
            Color::Brown => 6,
            Color::LightGrey => 7,
            Color::DarkGrey => 8,
            Color::LightBlue => 9,
            Color::LightGreen => 10,
            Color::LightCyan => 11,
            Color::LightRed => 12,
            Color::Pink => 13,
            Color::Yellow => 14,
            Color::White => 15,
        }
    }

    /// The number of the colour.
    #[verifier::when_used_as_spec(spec_as_u8)]
    pub fn as_u8(self) -> (number: u8)
        ensures
            number == self.spec_as_u8(),
    {
        match self {
            Color::Black => 0,
            Color::Blue => 1,
            Color::Green => 2,
            Color::Cyan => 3,
            Color::Red => 4,
            Color::Magenta => 5,
            Color::Brown => 6,
            Color::LightGrey => 7,
            Color::DarkGrey => 8,
            Color::LightBlue => 9,
            Color::LightGreen => 10,
            Color::LightCyan => 11,
            Color::LightRed => 12,
            Color::Pink => 13,
            Color::Yellow => 14,
            Color::White => 15,
        }
    }
}

/// A foreground and a background colour in one byte: the background in the
/// high four bits.
#[derive(Debug, Clone, Copy, PartialEq, Eq, Structural)]
pub struct VgaColor(pub u8);

impl VgaColor {
    /// The byte for `foreground` on `background`.
    pub fn new(foreground: Color, background: Color) -> (color: VgaColor)
        ensures
            color.0 == background.spec_as_u8() * 16 + foreground.spec_as_u8(),
    {
        let high = background.as_u8();
        let low = foreground.as_u8();
        assert((high << 4) | low == high * 16 + low) by (bit_vector)
            requires
                high < 16,
                low < 16,
        ;
        VgaColor((high << 4) | low)
    }
}

/// One cell of the screen.
#[derive(Debug, Clone, Copy, PartialEq, Eq, Structural)]
pub struct Char {
    pub character: u8,
    pub color: VgaColor,
}

/// What the screen shows, and where the next character goes.
pub struct Screen {
    pub cells: Seq<Char>,
    pub row: int,
    pub column: int,
}

/// A row of blanks in the colour `color`.
pub open spec fn blank_row(color: VgaColor) -> Seq<Char> {
    Seq::new(80, |i: int| Char { character: 0x20, color })
}

/// Whether `byte` is shown: a printable ASCII character or a line feed.
pub open spec fn is_shown(byte: u8) -> bool {
    0x20 <= byte <= 0x7e || byte == 0x0a
}

impl Screen {
    /// The screen with the cursor at the start of the next line: on the
    /// last row every row moves up by one and the last row becomes blank.
    pub open spec fn new_line(self, color: VgaColor) -> Screen {
        if self.row >= 24 {
            Screen { cells: self.cells.subrange(80, 2000) + blank_row(color), row: self.row, column: 0 }
        } else {
            Screen { cells: self.cells, row: self.row + 1, column: 0 }
        }
    }

    /// The screen after `byte` is written in the colour `color`: a line feed
    /// starts a new line; any other byte goes to the cursor, on a new line
    /// where the row is full, and the cursor moves right.
    pub open spec fn put_byte(self, byte: u8, color: VgaColor) -> Screen {
        if byte == 0x0a {
            self.new_line(color)
        } else {
            let at = if self.column >= 80 { self.new_line(color) } else { self };
            Screen {
                cells: at.cells.update(at.row * 80 + at.column, Char { character: byte, color }),
                row: at.row,
                column: at.column + 1,
            }
        }
    }

    /// The screen after the first `n` of `bytes` are written; bytes that are
    /// not shown are left out.
    pub open spec fn put_bytes(self, bytes: Seq<u8>, n: int, color: VgaColor) -> Screen
        decreases n,
    {
        if n <= 0 {
            self
        } else {
            let before = self.put_bytes(bytes, n - 1, color);
            if is_shown(bytes[n - 1]) {
                before.put_byte(bytes[n - 1], color)
            } else {
                before
            }
        }
    }

    /// The screen after `n` new lines.
    pub open spec fn new_lines(self, n: int, color: VgaColor) -> Screen
        decreases n,
    {
        if n <= 0 {
            self
        } else {
            self.new_lines(n - 1, color).new_line(color)
        }
    }

    /// The position of the cursor, counted in cells from the top left.
    pub open spec fn position(self) -> int {
        self.row * 80 + self.column
    }
}

/// The writes that put the cursor at the position `position`: its low byte
/// to register 15 of the display controller, its high byte to register 14.
pub open spec fn cursor_writes(position: int) -> Seq<PortWrite> {
    seq![
        PortWrite { port: CURSOR_CONTROL_PORT, value: 0x0f },
        PortWrite { port: CURSOR_DATA_PORT, value: (position % 256) as u8 },
        PortWrite { port: CURSOR_CONTROL_PORT, value: 0x0e },
        PortWrite { port: CURSOR_DATA_PORT, value: ((position / 256) % 256) as u8 },
    ]
}

/// Writes text to the screen.
pub struct Writer {
    buffer: Vec<Char>,
    color: VgaColor,
    column: usize,
    row: usize,
}

impl View for Writer {
    type V = Screen;

    closed spec fn view(&self) -> Screen {
        Screen { cells: self.buffer@, row: self.row as int, column: self.column as int }
    }
}

impl Writer {
    /// The colour that is written in.
    pub closed spec fn color(&self) -> VgaColor {
        self.color
    }

    /// The screen has 2000 cells and the cursor lies on it, or just behind
    /// the end of its row.
    pub open spec fn wf(&self) -> bool {
        &&& self@.cells.len() == 2000
        &&& 0 <= self@.row < 25
        &&& 0 <= self@.column <= 80
    }

    /// A writer in white on black over a screen of blanks, the cursor at
    /// the top left.
    pub fn new() -> (writer: Writer)
        ensures
            writer.wf(),
            writer.color() == VgaColor(15),
            writer@.row == 0,
            writer@.column == 0,
            forall|i: int| 0 <= i < 2000 ==> #[trigger] writer@.cells[i] == (Char {
                character: 0x20,
                color: VgaColor(15),
            }),
    {
        let color = VgaColor::new(Color::White, Color::Black);
        let mut buffer: Vec<Char> = Vec::new();
        let mut i: usize = 0;
        while i < 2000
            invariant
                i <= 2000,
                buffer.len() == i,
                color == VgaColor(15),
                forall|j: int| 0 <= j < i ==> #[trigger] buffer[j] == (Char { character: 0x20, color }),
            decreases 2000 - i,
        {
            buffer.push(Char { character: 0x20, color });
            i += 1;
        }
        Writer { buffer, color, column: 0, row: 0 }
    }

    /// The cell in row `row` and column `column`.
    pub fn char_at(&self, row: usize, column: usize) -> (cell: Char)
        requires
            self.wf(),
            row < 25,
            column < 80,
        ensures
            cell == self@.cells[row * 80 + column],
    {
        self.buffer[row * VGA_WIDTH + column]
    }

    /// The row and the column of the cursor.
    pub fn cursor(&self) -> (at: (usize, usize))
        ensures
            at.0 == self@.row,
            at.1 == self@.column,
    {
        (self.row, self.column)
    }

    /// Writes in `color` on black from now on.
    pub fn set_text_color(&mut self, color: Color)
        ensures
            final(self)@ == old(self)@,
            final(self).color() == VgaColor(color.spec_as_u8()),
    {
        self.color = VgaColor::new(color, Color::Black);
    }

    /// The writes that put the cursor of the display where the writer's is.
    pub fn move_cursor(&self) -> (writes: Vec<PortWrite>)
        requires
            self.wf(),
        ensures
            writes@ == cursor_writes(self@.position()),
    {
        let pos = self.row * VGA_WIDTH + self.column;
        let low: u8 = (pos % 256) as u8;
        let high: u8 = ((pos / 256) % 256) as u8;
        let mut writes: Vec<PortWrite> = Vec::new();
        writes.push(PortWrite { port: CURSOR_CONTROL_PORT, value: 0x0F });
        writes.push(PortWrite { port: CURSOR_DATA_PORT, value: low });
        writes.push(PortWrite { port: CURSOR_CONTROL_PORT, value: 0x0E });
        writes.push(PortWrite { port: CURSOR_DATA_PORT, value: high });
        assert(writes@ =~= cursor_writes(self@.position()));
        writes
    }

    /// Fills the row `row` with blanks in the writer's colour.
    pub fn clear_row(&mut self, row: usize)
        requires
            old(self).wf(),
            row < 25,
        ensures
            final(self).wf(),
            final(self).color() == old(self).color(),
            final(self)@.row == old(self)@.row,
            final(self)@.column == old(self)@.column,
            final(self)@.cells == old(self)@.cells.subrange(0, row * 80) + blank_row(old(self).color())
                + old(self)@.cells.subrange(row * 80 + 80, 2000),
    {
        let mut col: usize = 0;
        while col < VGA_WIDTH
            invariant
                col <= 80,
                row < 25,
                self.buffer.len() == 2000,
                self.color == old(self).color,
                self.row == old(self).row,
                self.column == old(self).column,
                forall|i: int|
                    0 <= i < 2000 && !(row * 80 <= i < row * 80 + col) ==> #[trigger] self.buffer[i] == old(self).buffer[i],
                forall|i: int|
                    row * 80 <= i < row * 80 + col ==> #[trigger] self.buffer[i] == (Char {
                        character: 0x20,
                        color: self.color,
                    }),
            decreases 80 - col,
        {
            self.buffer[row * VGA_WIDTH + col] = Char { character: 0x20, color: self.color };
            col += 1;
        }
        assert(self.buffer@ =~= old(self).buffer@.subrange(0, row * 80) + blank_row(self.color) + old(self).buffer@.subrange(row * 80 + 80, 2000));
    }

    /// Starts a new line: see `Screen::new_line`.
    pub fn new_line(&mut self)
        requires
            old(self).wf(),
        ensures
            final(self).wf(),
            final(self).color() == old(self).color(),
            final(self)@ == old(self)@.new_line(old(self).color()),
    {
        if self.row >= VGA_HEIGHT - 1 {
            let mut i: usize = 0;
            while i < (VGA_HEIGHT - 1) * VGA_WIDTH
                invariant
                    i <= 1920,
                    self.buffer.len() == 2000,
                    self.color == old(self).color,
                    self.row == old(self).row,
                    self.column == old(self).column,
                    forall|j: int| 0 <= j < i ==> #[trigger] self.buffer[j] == old(self).buffer[j + 80],
                    forall|j: int| i <= j < 2000 ==> #[trigger] self.buffer[j] == old(self).buffer[j],
                decreases 1920 - i,
            {
                let character = self.buffer[i + VGA_WIDTH];
                self.buffer[i] = character;
                i += 1;
            }
            self.clear_row(VGA_HEIGHT - 1);
            assert(self.buffer@ =~= old(self).buffer@.subrange(80, 2000) + blank_row(self.color));
        } else {
            self.row += 1;
        }
        self.column = 0;
    }

    /// Writes `byte` at the cursor: see `Screen::put_byte`.
    pub fn write_byte(&mut self, byte: u8)
        requires
            old(self).wf(),
        ensures
            final(self).wf(),
            final(self).color() == old(self).color(),
            final(self)@ == old(self)@.put_byte(byte, old(self).color()),
    {
        if byte == 0x0a {
            self.new_line();
        } else {
            if self.column >= VGA_WIDTH {
                self.new_line();
            }
            self.write_byte_to(byte, self.row, self.column);
            self.column += 1;
        }
    }

    /// Puts `byte` into the cell in row `row` and column `column`.
    pub fn write_byte_to(&mut self, byte: u8, row: usize, column: usize)
        requires
            old(self).wf(),
            row < 25,
            column < 80,
        ensures
            final(self).wf(),
            final(self).color() == old(self).color(),
            final(self)@ == (Screen {
                cells: old(self)@.cells.update(
                    row * 80 + column,
                    Char { character: byte, color: old(self).color() },
                ),
                ..old(self)@
            }),
    {
        self.buffer[row * VGA_WIDTH + column] = Char { character: byte, color: self.color };
    }

    /// Writes those of `bytes` that are printable ASCII characters or line
    /// feeds, and gives the writes that move the cursor of the display
    /// behind them.
    pub fn write_bytes(&mut self, bytes: &[u8]) -> (writes: Vec<PortWrite>)
        requires
            old(self).wf(),
        ensures
            final(self).wf(),
            final(self).color() == old(self).color(),
            final(self)@ == old(self)@.put_bytes(bytes@, bytes@.len() as int, old(self).color()),
            writes@ == cursor_writes(final(self)@.position()),
    {
        let mut i: usize = 0;
        while i < bytes.len()
            invariant
                i <= bytes.len(),
                self.wf(),
                self.color() == old(self).color(),
                self@ == old(self)@.put_bytes(bytes@, i as int, old(self).color()),
            decreases bytes.len() - i,
        {
            let byte = bytes[i];
            if (0x20 <= byte && byte <= 0x7e) || byte == 0x0a {
                self.write_byte(byte);
            }
            i += 1;
        }
        self.move_cursor()
    }

    /// Writes the bytes of `s` that are printable ASCII characters or line
    /// feeds, and gives the writes that move the cursor of the display
    /// behind them.
    pub fn write_string(&mut self, s: &str) -> (writes: Vec<PortWrite>)
        requires
            old(self).wf(),
        ensures
            final(self).wf(),
            final(self).color() == old(self).color(),
            final(self)@ == old(self)@.put_bytes(
                s.spec_bytes(),
                s.spec_bytes().len() as int,
                old(self).color(),
            ),
            writes@ == cursor_writes(final(self)@.position()),
    {
        self.write_bytes(s.as_bytes())
    }

    /// Writes the prompt in green and goes back to white.
    pub fn write_prompt(&mut self) -> (writes: Vec<PortWrite>)
        requires
            old(self).wf(),
        ensures
            final(self).wf(),
            final(self).color() == VgaColor(15),
            final(self)@ == old(self)@.put_bytes("os $ ".spec_bytes(), "os $ ".spec_bytes().len() as int, VgaColor(2)),
            writes@ == cursor_writes(final(self)@.position()),
    {
        self.color = VgaColor::new(Color::Green, Color::Black);
        let writes = self.write_string("os $ ");
        self.color = VgaColor::new(Color::White, Color::Black);
        writes
    }

    /// Takes back the character before the cursor, but none of the prompt:
    /// the cursor moves left and the cell becomes a blank. Gives the writes
    /// that move the cursor of the display, none where nothing is taken
    /// back.
    pub fn delete_character(&mut self) -> (writes: Vec<PortWrite>)
        requires
            old(self).wf(),
        ensures
            final(self).wf(),
            final(self).color() == old(self).color(),
            old(self)@.column <= PROMPT_LENGTH ==> final(self)@ == old(self)@ && writes@ == Seq::<PortWrite>::empty(),
            old(self)@.column > PROMPT_LENGTH ==> final(self)@ == (Screen {
                cells: old(self)@.cells.update(
                    old(self)@.position() - 1,
                    Char { character: 0x20, color: old(self).color() },
                ),
                row: old(self)@.row,
                column: old(self)@.column - 1,
            }) && writes@ == cursor_writes(old(self)@.position() - 1),
    {
        if self.column > PROMPT_LENGTH {
            self.column -= 1;
            self.write_byte_to(0x20, self.row, self.column);
            self.move_cursor()
        } else {
            Vec::new()
        }
    }

    /// Moves everything off the screen: 25 new lines.
    pub fn clear_screen(&mut self) -> (writes: Vec<PortWrite>)
        requires
            old(self).wf(),
        ensures
            final(self).wf(),
            final(self).color() == old(self).color(),
            final(self)@ == old(self)@.new_lines(25, old(self).color()),
            writes@ == cursor_writes(final(self)@.position()),
    {
        let mut i: usize = 0;
        while i < VGA_HEIGHT
            invariant
                i <= 25,
                self.wf(),
                self.color() == old(self).color(),
                self@ == old(self)@.new_lines(i as int, old(self).color()),
            decreases 25 - i,
        {
            self.new_line();
            i += 1;
        }
        self.move_cursor()
    }
}

} // verus!
