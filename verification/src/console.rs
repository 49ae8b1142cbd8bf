//! The command line: what was typed since the last line feed, and what
//! the kernel answers to it.

use vstd::prelude::*;
use vstd::string::StringSliceAdditionalSpecFns;
use crate::interrupts::PortWrite;
use crate::vga::{cursor_writes, Char, Screen, VgaColor, Writer, PROMPT_LENGTH};

verus! {

/// What a key does to the command line.
#[derive(Debug, Clone, Copy, PartialEq, Eq, Structural)]
pub enum KeyEffect {
    /// The line is taken as a command.
    Eval,
    /// The last character is taken back.
    Delete,
    /// The character is added to the line.
    Type(char),
    /// Nothing.
    Nothing,
}

/// What a key does to the command line: a line feed ends the line, a
/// backspace takes a character back, a printable ASCII character is added.
pub open spec fn spec_key_effect(character: char) -> KeyEffect {
    if character == '\n' {
        KeyEffect::Eval
    } else if character as u32 == 8 {
        KeyEffect::Delete
    } else if 0x20 <= character as u32 <= 0x7e {
        KeyEffect::Type(character)
    } else {
        KeyEffect::Nothing
    }
}

/// What a key does to the command line.
pub fn key_effect(character: char) -> (effect: KeyEffect)
    ensures
        effect == spec_key_effect(character),
{
    if character == '\n' {
        KeyEffect::Eval
    } else if character as u32 == 8 {
        KeyEffect::Delete
    } else if 0x20 <= character as u32 && character as u32 <= 0x7e {
        KeyEffect::Type(character)
    } else {
        KeyEffect::Nothing
    }
}

/// Whether two runs of bytes are the same.
pub fn bytes_equal(a: &[u8], b: &[u8]) -> (res: bool)
    ensures
        res == (a@ == b@),
{
    if a.len() != b.len() {
        return false;
    }
    let mut i: usize = 0;
    while i < a.len()
        invariant
            i <= a.len(),
            a.len() == b.len(),
            forall|j: int| 0 <= j < i ==> a@[j] == b@[j],
        decreases a.len() - i,
    {
        if a[i] != b[i] {
            return false;
        }
        i += 1;
    }
    assert(a@ =~= b@);
    true
}

/// What the kernel answers to the line `command`: a word for the command
/// `pause`, the list of commands for the command `commands`, and for
/// anything else the line itself.
pub open spec fn answer(command: Seq<u8>) -> Seq<u8> {
    if command == "pause".spec_bytes() {
        "Pause\n".spec_bytes()
    } else if command == "commands".spec_bytes() {
        "\nAvaliable commands:\n[\"pause\", \"commands\"]\n".spec_bytes()
    } else {
        "\nYou just wrote:\n  ".spec_bytes() + command + "\n".spec_bytes()
    }
}

/// Whether the prompt is shown again after the answer to `command`.
pub open spec fn prompts_again(command: Seq<u8>) -> bool {
    command != "pause".spec_bytes() && command != "commands".spec_bytes()
}

/// The screen `screen` after `bytes` are written in `color`.
pub open spec fn shown(screen: Screen, bytes: Seq<u8>, color: VgaColor) -> Screen {
    screen.put_bytes(bytes, bytes.len() as int, color)
}

/// The command line.
pub struct Console {
    prompt: Vec<u8>,
}

impl View for Console {
    type V = Seq<u8>;

    closed spec fn view(&self) -> Seq<u8> {
        self.prompt@
    }
}

impl Console {
    /// An empty line.
    pub fn new() -> (console: Console)
        ensures
            console@ == Seq::<u8>::empty(),
    {
        Console { prompt: Vec::new() }
    }

    /// What was typed.
    pub fn line(&self) -> (line: &Vec<u8>)
        ensures
            line@ == self@,
    {
        &self.prompt
    }

    /// Takes the last character back, if there is one.
    pub fn pop(&mut self)
        ensures
            final(self)@ == if old(self)@.len() > 0 { old(self)@.drop_last() } else { old(self)@ },
    {
        self.prompt.pop();
    }

    /// Adds `character` to the line where it is a printable ASCII
    /// character.
    pub fn push(&mut self, character: char)
        ensures
            final(self)@ == if 0x20 <= character as u32 <= 0x7e {
                old(self)@.push(character as u8)
            } else {
                old(self)@
            },
    {
        let code = character as u32;
        if 0x20 <= code && code <= 0x7e {
            self.prompt.push(code as u8);
        }
    }

    /// Shows the prompt.
    pub fn print_prompt(writer: &mut Writer) -> (writes: Vec<PortWrite>)
        requires
            old(writer).wf(),
        ensures
            final(writer).wf(),
            final(writer).color() == VgaColor(15),
            final(writer)@ == shown(old(writer)@, "os $ ".spec_bytes(), VgaColor(2)),
            writes@ == cursor_writes(final(writer)@.position()),
    {
        writer.write_prompt()
    }

    /// Takes the line as a command: the line is emptied, the answer to it is
    /// shown, and after the answer to anything that is no command the
    /// prompt. Gives the writes that move the cursor of the display.
    pub fn eval(&mut self, writer: &mut Writer) -> (writes: Vec<PortWrite>)
        requires
            old(writer).wf(),
        ensures
            final(self)@ == Seq::<u8>::empty(),
            final(writer).wf(),
            final(writer)@ == Console::evaluated(old(writer)@, old(self)@, old(writer).color()),
            final(writer).color() == if prompts_again(old(self)@) {
                VgaColor(15)
            } else {
                old(writer).color()
            },
            writes@ == cursor_writes(final(writer)@.position()),
    {
        let mut command: Vec<u8> = Vec::new();
        std::mem::swap(&mut command, &mut self.prompt);
        if bytes_equal(command.as_slice(), "pause".as_bytes()) {
            writer.write_string("Pause\n")
        } else if bytes_equal(command.as_slice(), "commands".as_bytes()) {
            writer.write_string("\nAvaliable commands:\n[\"pause\", \"commands\"]\n")
        } else {
            writer.write_string("\nYou just wrote:\n  ");
            writer.write_bytes(command.as_slice());
            writer.write_string("\n");
            writer.write_prompt()
        }
    }

    /// The screen after the line `line` is taken as a command: the answer
    /// is shown, and after the answer to anything that is no command the
    /// prompt in green.
    pub open spec fn evaluated(screen: Screen, line: Seq<u8>, color: VgaColor) -> Screen {
        if prompts_again(line) {
            shown(
                shown(
                    shown(shown(screen, "\nYou just wrote:\n  ".spec_bytes(), color), line, color),
                    "\n".spec_bytes(),
                    color,
                ),
                "os $ ".spec_bytes(),
                VgaColor(2),
            )
        } else {
            shown(screen, answer(line), color)
        }
    }

    /// The screen after the character before the cursor is taken back: the
    /// cursor moves left and the cell becomes a blank, but no character of
    /// the prompt is taken back.
    pub open spec fn deleted(screen: Screen, color: VgaColor) -> Screen {
        if screen.column > PROMPT_LENGTH {
            Screen {
                cells: screen.cells.update(screen.position() - 1, Char { character: 0x20, color }),
                row: screen.row,
                column: screen.column - 1,
            }
        } else {
            screen
        }
    }

    /// What a decoded key does: a line feed evaluates the line, a backspace
    /// takes the last character back on the screen and in the line, and a
    /// printable character is shown and added to the line. Gives the writes
    /// that move the cursor of the display, none where nothing moves.
    pub fn on_key(&mut self, writer: &mut Writer, character: char) -> (writes: Vec<PortWrite>)
        requires
            old(writer).wf(),
        ensures
            final(writer).wf(),
            final(self)@ == match spec_key_effect(character) {
                KeyEffect::Nothing => old(self)@,
                KeyEffect::Eval => Seq::<u8>::empty(),
                KeyEffect::Delete => if old(self)@.len() > 0 {
                    old(self)@.drop_last()
                } else {
                    old(self)@
                },
                KeyEffect::Type(c) => old(self)@.push(c as u8),
            },
            final(writer)@ == match spec_key_effect(character) {
                KeyEffect::Nothing => old(writer)@,
                KeyEffect::Eval => Console::evaluated(old(writer)@, old(self)@, old(writer).color()),
                KeyEffect::Delete => Console::deleted(old(writer)@, old(writer).color()),
                KeyEffect::Type(c) => old(writer)@.put_byte(c as u8, old(writer).color()),
            },
            writes@ == if spec_key_effect(character) == KeyEffect::Nothing || (spec_key_effect(character)
                == KeyEffect::Delete && old(writer)@.column <= PROMPT_LENGTH) {
                Seq::<PortWrite>::empty()
            } else {
                cursor_writes(final(writer)@.position())
            },
    {
        match key_effect(character) {
            KeyEffect::Eval => self.eval(writer),
            KeyEffect::Delete => {
                let writes = writer.delete_character();
                self.pop();
                writes
            },
            KeyEffect::Type(c) => {
                let byte = c as u32 as u8;
                let mut one: Vec<u8> = Vec::new();
                one.push(byte);
                let writes = writer.write_bytes(one.as_slice());
                proof {
                    reveal_with_fuel(Screen::put_bytes, 2);
                    assert(one@[0] == byte);
                }
                self.push(c);
                writes
            },
            KeyEffect::Nothing => Vec::new(),
        }
    }

    /// Starts the command line: the prompt is shown.
    pub fn init(writer: &mut Writer) -> (res: (Console, Vec<PortWrite>))
        requires
            old(writer).wf(),
        ensures
            res.0@ == Seq::<u8>::empty(),
            final(writer).wf(),
            final(writer)@ == shown(old(writer)@, "os $ ".spec_bytes(), VgaColor(2)),
            res.1@ == cursor_writes(final(writer)@.position()),
    {
        let writes = Console::print_prompt(writer);
        (Console::new(), writes)
    }
}

} // verus!
