//! What the handlers of the hardware interrupts decide.

use vstd::prelude::*;
use crate::interrupts::idt::InterruptIndex;
use crate::interrupts::pic::{count_port, lemma_count_eoi, Pics};
use crate::interrupts::PortWrite;

verus! {

/// What the keyboard handler does with a decoded key.
#[derive(Debug, Clone, Copy, PartialEq, Eq, Structural)]
pub enum KeyAction {
    /// Nothing is shown.
    Ignore,
    /// The cursor goes to the next line.
    NewLine,
    /// The character is shown.
    Print(char),
}

/// Whether `character` is a printable ASCII character.
pub open spec fn is_printable(character: char) -> bool {
    0x20 <= character as u32 <= 0x7e
}

/// What is shown for the decoded key `key`: a new line for a line feed, the
/// character where it is printable, else nothing.
pub open spec fn spec_key_action(key: Option<char>) -> KeyAction {
    match key {
        None => KeyAction::Ignore,
        Some(character) => if character == '\n' {
            KeyAction::NewLine
        } else if is_printable(character) {
            KeyAction::Print(character)
        } else {
            KeyAction::Ignore
        },
    }
}

/// The timer interrupt: the tick counter goes up by one, wrapping round,
/// and then the interrupt is ended at the controllers. The writes are to be
/// made after the counter is stored.
pub fn timer_interrupt(ticks: u64, pics: &Pics) -> (res: (u64, Vec<PortWrite>))
    requires
        pics.wf(),
    ensures
        res.0 == if ticks == u64::MAX { 0 } else { (ticks + 1) as u64 },
        res.1@ == pics.eoi_writes(InterruptIndex::Timer.spec_as_u8()),
        count_port(res.1@, pics.primary.command_port) == 1,
{
    let next = ticks.wrapping_add(1);
    (next, pics.send_eoi(InterruptIndex::Timer.as_u8()))
}

/// The keyboard interrupt, once the byte of the keyboard is read and
/// decoded to `key`: what is to be shown, and the writes that end the
/// interrupt at the controllers, which are to be made after that.
pub fn keyboard_interrupt(key: Option<char>, pics: &Pics) -> (res: (KeyAction, Vec<PortWrite>))
    requires
        pics.wf(),
    ensures
        res.0 == spec_key_action(key),
        res.1@ == pics.eoi_writes(InterruptIndex::Keyboard.spec_as_u8()),
        count_port(res.1@, pics.primary.command_port) == 1,
{
    let action = match key {
        None => KeyAction::Ignore,
        Some(character) => if character == '\n' {
            KeyAction::NewLine
        } else if 0x20 <= character as u32 && character as u32 <= 0x7e {
            KeyAction::Print(character)
        } else {
            KeyAction::Ignore
        },
    };
    (action, pics.send_eoi(InterruptIndex::Keyboard.as_u8()))
}

} // verus!
