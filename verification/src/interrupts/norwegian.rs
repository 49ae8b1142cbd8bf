//! The Norwegian keyboard layout: which character a key gives.

use vstd::prelude::*;

verus! {

/// The keys that the Norwegian layout decides on. Every other key is
/// `Other`: what it gives is up to the layout of a US keyboard.
#[derive(Debug, Clone, Copy, PartialEq, Eq, Structural)]
pub enum KeyCode {
    Escape,
    Oem8,
    Key1,
    Key2,
    Key3,
    Key4,
    Key5,
    Key6,
    Key7,
    Key8,
    Key9,
    Key0,
    OemMinus,
    OemPlus,
    Backspace,
    Tab,
    E,
    Oem4,
    Oem6,
    Return,
    Oem7,
    Oem1,
    Oem3,
    M,
    OemComma,
    OemPeriod,
    Oem2,
    Oem5,
    NumpadPeriod,
    Other,
}

/// Which of the keys that change what other keys give are held or locked.
#[derive(Debug, Clone, Copy, PartialEq, Eq, Structural)]
pub struct Modifiers {
    pub lshift: bool,
    pub rshift: bool,
    pub lctrl: bool,
    pub rctrl: bool,
    pub numlock: bool,
    pub capslock: bool,
    pub alt_gr: bool,
}

impl Modifiers {
    /// Whether a shift key is held.
    pub open spec fn spec_is_shifted(&self) -> bool {
        self.lshift || self.rshift
    }

    /// Whether a control key is held.
    pub open spec fn spec_is_ctrl(&self) -> bool {
        self.lctrl || self.rctrl
    }

    /// Whether letters come out as capitals: a shift key is held or caps lock
    /// is on, but not both.
    pub open spec fn spec_is_caps(&self) -> bool {
        self.spec_is_shifted() != self.capslock
    }

    /// Whether the AltGr key is held.
    pub open spec fn spec_is_altgr(&self) -> bool {
        self.alt_gr
    }

    /// Whether a shift key is held.
    #[verifier::when_used_as_spec(spec_is_shifted)]
    pub fn is_shifted(&self) -> (res: bool)
        ensures
            res == self.spec_is_shifted(),
    {
        self.lshift || self.rshift
    }

    /// Whether a control key is held.
    #[verifier::when_used_as_spec(spec_is_ctrl)]
    pub fn is_ctrl(&self) -> (res: bool)
        ensures
            res == self.spec_is_ctrl(),
    {
        self.lctrl || self.rctrl
    }

    /// Whether letters come out as capitals.
    #[verifier::when_used_as_spec(spec_is_caps)]
    pub fn is_caps(&self) -> (res: bool)
        ensures
            res == self.spec_is_caps(),
    {
        self.is_shifted() != self.capslock
    }

    /// Whether the AltGr key is held.
    #[verifier::when_used_as_spec(spec_is_altgr)]
    pub fn is_altgr(&self) -> (res: bool)
        ensures
            res == self.spec_is_altgr(),
    {
        self.alt_gr
    }
}

/// Whether letters that are typed with a control key held become control
/// characters.
#[derive(Debug, Clone, Copy, PartialEq, Eq, Structural)]
pub enum HandleControl {
    MapLettersToUnicode,
    Ignore,
}

/// The character that the key `keycode` gives on a Norwegian keyboard,
/// where `shifted`, `altgr` and `caps` say which modifiers act and `ctrl`
/// says whether a control key turns letters into control characters.
pub open spec fn layout_char(
    keycode: KeyCode,
    modifiers: Modifiers,
    shifted: bool,
    altgr: bool,
    caps: bool,
    ctrl: bool,
) -> Option<char> {
    match keycode {
        KeyCode::Escape => Some('\u{1b}'),
        KeyCode::Oem8 => if shifted {
            Some('\u{a7}')
        } else {
            Some('|')
        },
        KeyCode::Key1 => if shifted {
            Some('!')
        } else {
            Some('1')
        },
        KeyCode::Key2 => if shifted {
            Some('"')
        } else if altgr {
            Some('@')
        } else {
            Some('2')
        },
        KeyCode::Key3 => if shifted {
            Some('#')
        } else if altgr {
            Some('\u{a3}')
        } else {
            Some('3')
        },
        KeyCode::Key4 => if shifted {
            Some('\u{a4}')
        } else if altgr {
            Some('$')
        } else {
            Some('4')
        },
        KeyCode::Key5 => if shifted {
            Some('%')
        } else if altgr {
            Some('\u{20ac}')
        } else {
            Some('5')
        },
        KeyCode::Key6 => if shifted {
            Some('&')
        } else {
            Some('6')
        },
        KeyCode::Key7 => if shifted {
            Some('/')
        } else if altgr {
            Some('{')
        } else {
            Some('7')
        },
        KeyCode::Key8 => if shifted {
            Some('(')
        } else if altgr {
            Some('[')
        } else {
            Some('8')
        },
        KeyCode::Key9 => if shifted {
            Some(')')
        } else if altgr {
            Some(']')
        } else {
            Some('9')
        },
        KeyCode::Key0 => if shifted {
            Some('=')
        } else if altgr {
            Some('}')
        } else {
            Some('0')
        },
        KeyCode::OemMinus => if shifted {
            Some('?')
        } else {
            Some('+')
        },
        KeyCode::OemPlus => if shifted {
            Some('`')
        } else if altgr {
            Some('\u{b4}')
        } else {
            Some('\\')
        },
        KeyCode::Backspace => Some('\u{8}'),
        KeyCode::Tab => Some('\u{9}'),
        KeyCode::E => if ctrl {
            Some('\u{5}')
        } else if altgr {
            Some('\u{20ac}')
        } else if caps {
            Some('E')
        } else {
            Some('e')
        },
        KeyCode::Oem4 => if caps {
            Some('\u{c5}')
        } else {
            Some('\u{e5}')
        },
        KeyCode::Oem6 => if altgr {
            Some('~')
        } else if shifted {
            Some('^')
        } else {
            Some('\u{a8}')
        },
        KeyCode::Return => Some('\u{a}'),
        KeyCode::Oem7 => if shifted {
            Some('*')
        } else {
            Some('\'')
        },
        KeyCode::Oem1 => if caps {
            Some('\u{d8}')
        } else {
            Some('\u{f8}')
        },
        KeyCode::Oem3 => if caps {
            Some('\u{c6}')
        } else {
            Some('\u{e6}')
        },
        KeyCode::M => if ctrl {
            Some('\u{d}')
        } else if altgr {
            Some('\u{b5}')
        } else if caps {
            Some('M')
        } else {
            Some('m')
        },
        KeyCode::OemComma => if shifted {
            Some(';')
        } else {
            Some(',')
        },
        KeyCode::OemPeriod => if shifted {
            Some(':')
        } else {
            Some('.')
        },
        KeyCode::Oem2 => if shifted {
            Some('_')
        } else {
            Some('-')
        },
        KeyCode::Oem5 => if shifted {
            Some('>')
        } else {
            Some('<')
        },
        KeyCode::NumpadPeriod => if modifiers.numlock {
            Some(',')
        } else {
            Some('\u{7f}')
        },
        KeyCode::Other => None,
    }
}

/// A standard Norwegian keyboard of 102 keys, or 105 with the Windows keys.
#[derive(Debug, Clone, Copy, PartialEq, Eq, Structural)]
pub struct No105Key;

impl No105Key {
    /// The character that the key `keycode` gives with the modifiers
    /// `modifiers`; nothing for a key that this layout leaves to the layout
    /// of a US keyboard.
    pub fn map_keycode(&self, keycode: KeyCode, modifiers: &Modifiers, handle_ctrl: HandleControl) -> (res:
        Option<char>)
        ensures
            res == layout_char(
                keycode,
                *modifiers,
                modifiers.spec_is_shifted(),
                modifiers.spec_is_altgr(),
                modifiers.spec_is_caps(),
                handle_ctrl == HandleControl::MapLettersToUnicode && modifiers.spec_is_ctrl(),
            ),
            keycode != KeyCode::Other ==> res is Some,
    {
        let shifted = modifiers.is_shifted();
        let altgr = modifiers.is_altgr();
        let caps = modifiers.is_caps();
        let ctrl = match handle_ctrl {
            HandleControl::MapLettersToUnicode => modifiers.is_ctrl(),
            HandleControl::Ignore => false,
        };
        match keycode {
            KeyCode::Escape => Some('\u{1b}'),
            KeyCode::Oem8 => if shifted {
                Some('\u{a7}')
            } else {
                Some('|')
            },
            KeyCode::Key1 => if shifted {
                Some('!')
            } else {
                Some('1')
            },
            KeyCode::Key2 => if shifted {
                Some('"')
            } else if altgr {
                Some('@')
            } else {
                Some('2')
            },
            KeyCode::Key3 => if shifted {
                Some('#')
            } else if altgr {
                Some('\u{a3}')
            } else {
                Some('3')
            },
            KeyCode::Key4 => if shifted {
                Some('\u{a4}')
            } else if altgr {
                Some('$')
            } else {
                Some('4')
            },
            KeyCode::Key5 => if shifted {
                Some('%')
            } else if altgr {
                Some('\u{20ac}')
            } else {
                Some('5')
            },
            KeyCode::Key6 => if shifted {
                Some('&')
            } else {
                Some('6')
            },
            KeyCode::Key7 => if shifted {
                Some('/')
            } else if altgr {
                Some('{')
            } else {
                Some('7')
            },
            KeyCode::Key8 => if shifted {
                Some('(')
            } else if altgr {
                Some('[')
            } else {
                Some('8')
            },
            KeyCode::Key9 => if shifted {
                Some(')')
            } else if altgr {
                Some(']')
            } else {
                Some('9')
            },
            KeyCode::Key0 => if shifted {
                Some('=')
            } else if altgr {
                Some('}')
            } else {
                Some('0')
            },
            KeyCode::OemMinus => if shifted {
                Some('?')
            } else {
                Some('+')
            },
            KeyCode::OemPlus => if shifted {
                Some('`')
            } else if altgr {
                Some('\u{b4}')
            } else {
                Some('\\')
            },
            KeyCode::Backspace => Some('\u{8}'),
            KeyCode::Tab => Some('\u{9}'),
            KeyCode::E => if ctrl {
                Some('\u{5}')
            } else if altgr {
                Some('\u{20ac}')
            } else if caps {
                Some('E')
            } else {
                Some('e')
            },
            KeyCode::Oem4 => if caps {
                Some('\u{c5}')
            } else {
                Some('\u{e5}')
            },
            KeyCode::Oem6 => if altgr {
                Some('~')
            } else if shifted {
                Some('^')
            } else {
                Some('\u{a8}')
            },
            KeyCode::Return => Some('\u{a}'),
            KeyCode::Oem7 => if shifted {
                Some('*')
            } else {
                Some('\'')
            },
            KeyCode::Oem1 => if caps {
                Some('\u{d8}')
            } else {
                Some('\u{f8}')
            },
            KeyCode::Oem3 => if caps {
                Some('\u{c6}')
            } else {
                Some('\u{e6}')
            },
            KeyCode::M => if ctrl {
                Some('\u{d}')
            } else if altgr {
                Some('\u{b5}')
            } else if caps {
                Some('M')
            } else {
                Some('m')
            },
            KeyCode::OemComma => if shifted {
                Some(';')
            } else {
                Some(',')
            },
            KeyCode::OemPeriod => if shifted {
                Some(':')
            } else {
                Some('.')
            },
            KeyCode::Oem2 => if shifted {
                Some('_')
            } else {
                Some('-')
            },
            KeyCode::Oem5 => if shifted {
                Some('>')
            } else {
                Some('<')
            },
            KeyCode::NumpadPeriod => if modifiers.numlock {
                Some(',')
            } else {
                Some('\u{7f}')
            },
            KeyCode::Other => None,
        }
    }
}

} // verus!
