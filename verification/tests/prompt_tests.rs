use rlock::password::hashed_password_line;
use rlock::prompt::{bytes_before_nul, color_index, Color, Display, Prompt, Response, KEY_PRESS, RR_SCREEN_CHANGE_NOTIFY};
use rlock::structs::Xrandr;

const RET: u64 = 0xff0d;
const ESC: u64 = 0xff1b;
const BKSP: u64 = 0xff08;
const LETTER_A: u64 = 0x61;

fn buf(text: &[u8]) -> [u8; 32] {
    let mut b = [0u8; 32];
    b[..text.len()].copy_from_slice(text);
    b
}

fn type_text(p: &mut Prompt, stored: &String, text: &[u8]) -> Response {
    p.handle_key(LETTER_A, &buf(text), text.len() as i32, stored, false, Xrandr::new())
}

#[test]
fn event_constants_are_those_of_x11() {
    assert_eq!(KEY_PRESS, x11::xlib::KeyPress);
    assert_eq!(RR_SCREEN_CHANGE_NOTIFY, x11::xrandr::RRScreenChangeNotify);
}

#[test]
fn color_numbers() {
    assert_eq!(color_index(Color::INIT), 0);
    assert_eq!(color_index(Color::INPUT), 1);
    assert_eq!(color_index(Color::FAILED), 2);
    assert_eq!(color_index(Color::NUMCOLS), 3);
}

#[test]
fn c_string_bytes() {
    assert_eq!(bytes_before_nul(&[1, 2, 0, 3]), vec![1, 2]);
    assert_eq!(bytes_before_nul(&[0, 5]), Vec::<u8>::new());
    assert_eq!(bytes_before_nul(&[7, 8]), vec![7, 8]);
}

#[test]
fn typing_recolors_to_input() {
    let stored = hashed_password_line("ab\n".to_string());
    let mut p = Prompt::new();
    let r = type_text(&mut p, &stored, b"a");
    assert_eq!(r, Response { bell: false, display: Display::Recolor(Color::INPUT) });
    assert_eq!(p.passwd, b"a".to_vec());
    let r = type_text(&mut p, &stored, b"b");
    assert_eq!(r, Response { bell: false, display: Display::Raise });
    assert_eq!(p.passwd, b"ab".to_vec());
    assert_eq!(p.old_color, Color::INPUT);
}

#[test]
fn right_password_unlocks() {
    let stored = hashed_password_line("ab\n".to_string());
    let mut p = Prompt::new();
    type_text(&mut p, &stored, b"ab");
    assert!(p.entry_is_text());
    let r = p.handle_key(RET, &[0u8; 32], 0, &stored, false, Xrandr::new());
    assert!(!p.running);
    assert!(!p.failure);
    assert!(p.passwd.is_empty());
    assert_eq!(r, Response { bell: false, display: Display::Raise });
}

#[test]
fn wrong_password_rings_and_fails() {
    let stored = hashed_password_line("ab\n".to_string());
    let mut p = Prompt::new();
    type_text(&mut p, &stored, b"xy");
    let r = p.handle_key(RET, &[0u8; 32], 0, &stored, false, Xrandr::new());
    assert!(p.running);
    assert!(p.failure);
    assert!(p.passwd.is_empty());
    assert_eq!(r, Response { bell: true, display: Display::Recolor(Color::FAILED) });
    // typing again shows INPUT, clearing shows FAILED again
    type_text(&mut p, &stored, b"q");
    let r = p.handle_key(ESC, &[0u8; 32], 0, &stored, false, Xrandr::new());
    assert!(p.passwd.is_empty());
    assert_eq!(r, Response { bell: false, display: Display::Recolor(Color::FAILED) });
}

#[test]
fn backspace_removes_last_byte() {
    let stored = String::from("x");
    let mut p = Prompt::new();
    type_text(&mut p, &stored, b"abc");
    let r = p.handle_key(BKSP, &[0u8; 32], 0, &stored, false, Xrandr::new());
    assert_eq!(p.passwd, b"ab".to_vec());
    assert_eq!(r.display, Display::Raise);
    p.handle_key(BKSP, &[0u8; 32], 0, &stored, false, Xrandr::new());
    let r = p.handle_key(BKSP, &[0u8; 32], 0, &stored, false, Xrandr::new());
    assert!(p.passwd.is_empty());
    assert_eq!(r.display, Display::Recolor(Color::INIT));
    let r = p.handle_key(BKSP, &[0u8; 32], 0, &stored, false, Xrandr::new());
    assert!(p.passwd.is_empty());
    assert_eq!(r.display, Display::Raise);
}

#[test]
fn extra_keys_change_nothing() {
    let stored = String::from("x");
    let mut p = Prompt::new();
    // '1' lies in the keypad range space..'=' and is ignored
    let r = p.handle_key(0x31, &buf(b"1"), 1, &stored, false, Xrandr::new());
    assert_eq!(r, Response { bell: false, display: Display::Unchanged });
    assert!(p.passwd.is_empty());
    let r = p.handle_key(0xffbe, &[0u8; 32], 0, &stored, false, Xrandr::new());
    assert_eq!(r.display, Display::Unchanged);
    assert_eq!(p.old_color, Color::INIT);
}

#[test]
fn key_without_text_only_raises() {
    let stored = String::from("x");
    let mut p = Prompt::new();
    let r = p.handle_key(0xffe1, &[0u8; 32], 0, &stored, false, Xrandr::new());
    assert!(p.passwd.is_empty());
    assert_eq!(r, Response { bell: false, display: Display::Raise });
}

#[test]
fn keyboard_only_never_touches_screens() {
    let stored = hashed_password_line("ab\n".to_string());
    let mut p = Prompt::new();
    let r = p.handle_key(LETTER_A, &buf(b"zz"), 2, &stored, true, Xrandr::new());
    assert_eq!(r, Response { bell: false, display: Display::Unchanged });
    let r = p.handle_key(RET, &[0u8; 32], 0, &stored, true, Xrandr::new());
    assert_eq!(r, Response { bell: true, display: Display::Unchanged });
    assert!(p.failure);
    assert_eq!(p.old_color, Color::INIT);
}

#[test]
fn screen_change_when_randr_base_matches() {
    let stored = String::from("x");
    let mut p = Prompt::new();
    let rr = Xrandr { active: 1, evbase: 2, errbase: 0 };
    let r = p.handle_key(0xffe1, &[0u8; 32], 0, &stored, false, rr);
    assert_eq!(r.display, Display::ScreenChange);
    let rr = Xrandr { active: 1, evbase: 89, errbase: 0 };
    let r = p.handle_key(0xffe1, &[0u8; 32], 0, &stored, false, rr);
    assert_eq!(r.display, Display::Raise);
}

#[test]
fn non_text_entry_detected() {
    let stored = String::from("x");
    let mut p = Prompt::new();
    type_text(&mut p, &stored, &[0xff, 0xfe]);
    assert!(!p.entry_is_text());
    type_text(&mut p, &stored, b"");
    assert_eq!(p.passwd, vec![0xff, 0xfe]);
}
