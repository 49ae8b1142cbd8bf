use kernel_core::console::{bytes_equal, key_effect, Console, KeyEffect};
use kernel_core::interrupts::norwegian::{HandleControl, KeyCode, Modifiers, No105Key};
use kernel_core::interrupts::PortWrite;
use kernel_core::vga::{Char, Color, VgaColor, Writer};

fn row_text(writer: &Writer, row: usize, length: usize) -> String {
    (0..length).map(|column| writer.char_at(row, column).character as char).collect()
}

fn cursor(position: usize) -> Vec<PortWrite> {
    vec![
        PortWrite { port: 0x3D4, value: 0x0f },
        PortWrite { port: 0x3D5, value: (position & 0xff) as u8 },
        PortWrite { port: 0x3D4, value: 0x0e },
        PortWrite { port: 0x3D5, value: (position >> 8) as u8 },
    ]
}

#[test]
fn colour_byte_has_the_background_on_top() {
    assert_eq!(VgaColor::new(Color::White, Color::Black), VgaColor(0x0f));
    assert_eq!(VgaColor::new(Color::Green, Color::Black), VgaColor(0x02));
    assert_eq!(VgaColor::new(Color::Yellow, Color::Blue), VgaColor(0x1e));
    assert_eq!(Color::Pink.as_u8(), 13);
}

#[test]
fn text_goes_to_the_cursor_and_the_cursor_follows() {
    let mut writer = Writer::new();
    assert_eq!(writer.write_string("Hi!"), cursor(3));
    assert_eq!(row_text(&writer, 0, 4), "Hi! ");
    assert_eq!(writer.char_at(0, 0), Char { character: b'H', color: VgaColor(0x0f) });
    assert_eq!(writer.cursor(), (0, 3));
    assert_eq!(writer.write_string("a\nb"), cursor(81));
    assert_eq!(row_text(&writer, 0, 5), "Hi!a ");
    assert_eq!(row_text(&writer, 1, 2), "b ");
}

#[test]
fn bytes_that_are_not_printable_are_left_out() {
    let mut writer = Writer::new();
    writer.write_string("a\tb\u{e5}c\u{7f}");
    assert_eq!(row_text(&writer, 0, 4), "abc ");
    assert_eq!(writer.cursor(), (0, 3));
}

#[test]
fn full_row_wraps_to_the_next() {
    let mut writer = Writer::new();
    let line = "x".repeat(80);
    writer.write_string(&line);
    assert_eq!(writer.cursor(), (0, 80));
    writer.write_string("y");
    assert_eq!(writer.cursor(), (1, 1));
    assert_eq!(writer.char_at(0, 79).character, b'x');
    assert_eq!(writer.char_at(1, 0).character, b'y');
}

#[test]
fn last_row_scrolls() {
    let mut writer = Writer::new();
    for row in 0..25 {
        writer.write_string(&format!("row{}", row));
        if row < 24 {
            writer.write_string("\n");
        }
    }
    assert_eq!(writer.cursor(), (24, 5));
    assert_eq!(row_text(&writer, 0, 4), "row0");
    assert_eq!(writer.write_string("\n"), cursor(24 * 80));
    assert_eq!(writer.cursor(), (24, 0));
    assert_eq!(row_text(&writer, 0, 4), "row1");
    assert_eq!(row_text(&writer, 23, 5), "row24");
    assert_eq!(row_text(&writer, 24, 5), "     ");
    writer.clear_screen();
    for row in 0..25 {
        assert_eq!(row_text(&writer, row, 80), " ".repeat(80));
    }
    assert_eq!(writer.cursor(), (24, 0));
}

#[test]
fn clear_row_blanks_one_row() {
    let mut writer = Writer::new();
    writer.write_string("one\ntwo\nthree");
    writer.set_text_color(Color::Red);
    writer.clear_row(1);
    assert_eq!(row_text(&writer, 0, 3), "one");
    assert_eq!(writer.char_at(1, 0), Char { character: b' ', color: VgaColor(0x04) });
    assert_eq!(writer.char_at(1, 79), Char { character: b' ', color: VgaColor(0x04) });
    assert_eq!(row_text(&writer, 2, 5), "three");
    assert_eq!(writer.cursor(), (2, 5));
}

#[test]
fn prompt_is_green_and_cannot_be_deleted() {
    let mut writer = Writer::new();
    assert_eq!(writer.write_prompt(), cursor(5));
    assert_eq!(row_text(&writer, 0, 5), "os $ ");
    assert_eq!(writer.char_at(0, 0).color, VgaColor(0x02));
    assert_eq!(writer.delete_character(), Vec::new());
    writer.write_string("ab");
    assert_eq!(writer.char_at(0, 5).color, VgaColor(0x0f));
    assert_eq!(writer.delete_character(), cursor(6));
    assert_eq!(row_text(&writer, 0, 7), "os $ a ");
    assert_eq!(writer.delete_character(), cursor(5));
    assert_eq!(writer.delete_character(), Vec::new());
    assert_eq!(writer.cursor(), (0, 5));
    assert_eq!(writer.move_cursor(), cursor(5));
}

#[test]
fn keys_have_their_effects() {
    assert_eq!(key_effect('\n'), KeyEffect::Eval);
    assert_eq!(key_effect('\u{8}'), KeyEffect::Delete);
    assert_eq!(key_effect('q'), KeyEffect::Type('q'));
    assert_eq!(key_effect(' '), KeyEffect::Type(' '));
    assert_eq!(key_effect('\u{e5}'), KeyEffect::Nothing);
    assert_eq!(key_effect('\t'), KeyEffect::Nothing);
    assert!(bytes_equal(b"pause", b"pause"));
    assert!(!bytes_equal(b"pause", b"pausf"));
    assert!(!bytes_equal(b"pause", b"paus"));
}

#[test]
fn line_takes_printable_characters_only() {
    let mut console = Console::new();
    console.push('l');
    console.push('\u{e5}');
    console.push('s');
    console.push('\n');
    assert_eq!(console.line(), &b"ls".to_vec());
    console.pop();
    console.pop();
    console.pop();
    assert_eq!(console.line(), &Vec::<u8>::new());
}

#[test]
fn unknown_line_is_echoed_and_the_prompt_comes_back() {
    let mut writer = Writer::new();
    let (mut console, writes) = Console::init(&mut writer);
    assert_eq!(writes, cursor(5));
    for character in "hello".chars() {
        console.on_key(&mut writer, character);
    }
    assert_eq!(row_text(&writer, 0, 10), "os $ hello");
    assert_eq!(console.on_key(&mut writer, '\u{8}'), cursor(9));
    assert_eq!(console.line(), &b"hell".to_vec());
    assert_eq!(console.on_key(&mut writer, '\u{1b}'), Vec::new());
    assert_eq!(console.on_key(&mut writer, '\n'), cursor(3 * 80 + 5));
    assert_eq!(console.line(), &Vec::<u8>::new());
    assert_eq!(row_text(&writer, 0, 10), "os $ hell ");
    assert_eq!(row_text(&writer, 1, 15), "You just wrote:");
    assert_eq!(row_text(&writer, 2, 6), "  hell");
    assert_eq!(row_text(&writer, 3, 5), "os $ ");
}

#[test]
fn commands_are_answered_without_a_new_prompt() {
    let mut writer = Writer::new();
    let mut console = Console::new();
    for character in "pause".chars() {
        console.push(character);
    }
    assert_eq!(console.eval(&mut writer), cursor(80));
    assert_eq!(row_text(&writer, 0, 6), "Pause ");
    for character in "commands".chars() {
        console.push(character);
    }
    console.eval(&mut writer);
    assert_eq!(row_text(&writer, 2, 19), "Avaliable commands:");
    assert_eq!(row_text(&writer, 3, 21), "[\"pause\", \"commands\"]");
    assert_eq!(writer.cursor(), (4, 0));
}

#[test]
fn norwegian_layout_gives_its_characters() {
    let none = Modifiers {
        lshift: false,
        rshift: false,
        lctrl: false,
        rctrl: false,
        numlock: false,
        capslock: false,
        alt_gr: false,
    };
    let shift = Modifiers { rshift: true, ..none };
    let altgr = Modifiers { alt_gr: true, ..none };
    let caps = Modifiers { capslock: true, ..none };
    let ctrl = Modifiers { lctrl: true, ..none };
    let layout = No105Key;
    let map = |key, modifiers: &Modifiers| layout.map_keycode(key, modifiers, HandleControl::Ignore);
    assert_eq!(map(KeyCode::Key2, &none), Some('2'));
    assert_eq!(map(KeyCode::Key2, &shift), Some('"'));
    assert_eq!(map(KeyCode::Key2, &altgr), Some('@'));
    assert_eq!(map(KeyCode::Key5, &altgr), Some('\u{20ac}'));
    assert_eq!(map(KeyCode::Oem4, &none), Some('\u{e5}'));
    assert_eq!(map(KeyCode::Oem4, &shift), Some('\u{c5}'));
    assert_eq!(map(KeyCode::Oem4, &caps), Some('\u{c5}'));
    assert_eq!(map(KeyCode::Oem4, &Modifiers { capslock: true, ..shift }), Some('\u{e5}'));
    assert_eq!(map(KeyCode::Oem1, &none), Some('\u{f8}'));
    assert_eq!(map(KeyCode::Oem3, &shift), Some('\u{c6}'));
    assert_eq!(map(KeyCode::Oem6, &altgr), Some('~'));
    assert_eq!(map(KeyCode::Oem6, &Modifiers { alt_gr: true, ..shift }), Some('~'));
    assert_eq!(map(KeyCode::Oem6, &shift), Some('^'));
    assert_eq!(map(KeyCode::Oem7, &none), Some('\''));
    assert_eq!(map(KeyCode::OemPlus, &none), Some('\\'));
    assert_eq!(map(KeyCode::Oem8, &shift), Some('\u{a7}'));
    assert_eq!(map(KeyCode::Return, &shift), Some('\n'));
    assert_eq!(map(KeyCode::Escape, &none), Some('\u{1b}'));
    assert_eq!(map(KeyCode::E, &ctrl), Some('e'));
    assert_eq!(
        layout.map_keycode(KeyCode::E, &ctrl, HandleControl::MapLettersToUnicode),
        Some('\u{5}')
    );
    assert_eq!(
        layout.map_keycode(KeyCode::M, &ctrl, HandleControl::MapLettersToUnicode),
        Some('\r')
    );
    assert_eq!(map(KeyCode::M, &altgr), Some('\u{b5}'));
    assert_eq!(map(KeyCode::M, &shift), Some('M'));
    assert_eq!(map(KeyCode::NumpadPeriod, &none), Some('\u{7f}'));
    assert_eq!(map(KeyCode::NumpadPeriod, &Modifiers { numlock: true, ..none }), Some(','));
    assert_eq!(map(KeyCode::Other, &shift), None);
    assert!(shift.is_shifted() && !none.is_shifted() && ctrl.is_ctrl() && altgr.is_altgr());
}
