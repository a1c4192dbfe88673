use rlock::keys::{
    get_key_type, Key, NOT_EXTRA_KEY, XK_BACKSPACE, XK_BREAK, XK_EQUAL, XK_ESCAPE, XK_F1, XK_F35,
    XK_F4, XK_RETURN, XK_SELECT, XK_SPACE,
};

#[test]
fn keysyms_are_those_of_x11() {
    assert_eq!(XK_SPACE, x11::keysym::XK_space as u64);
    assert_eq!(XK_EQUAL, x11::keysym::XK_equal as u64);
    assert_eq!(XK_F1, x11::keysym::XK_F1 as u64);
    assert_eq!(XK_F4, x11::keysym::XK_F4 as u64);
    assert_eq!(XK_F35, x11::keysym::XK_F35 as u64);
    assert_eq!(XK_SELECT, x11::keysym::XK_Select as u64);
    assert_eq!(XK_BREAK, x11::keysym::XK_Break as u64);
    assert_eq!(XK_RETURN, x11::keysym::XK_Return);
    assert_eq!(XK_ESCAPE, x11::keysym::XK_Escape);
    assert_eq!(XK_BACKSPACE, x11::keysym::XK_BackSpace);
}

#[test]
fn keypad_range() {
    assert!(get_key_type(0x20) == Ok(Key::KEYPAD));
    assert!(get_key_type(0x30) == Ok(Key::KEYPAD));
    assert!(get_key_type(0x3d) == Ok(Key::KEYPAD));
    assert!(get_key_type(0x3e).is_err());
    assert!(get_key_type(0x1f).is_err());
}

#[test]
fn function_keys_never_pf() {
    assert!(get_key_type(0xffbe) == Ok(Key::FUNCTION));
    assert!(get_key_type(0xffc1) == Ok(Key::FUNCTION));
    assert!(get_key_type(0xffe0) == Ok(Key::FUNCTION));
    assert!(get_key_type(0xffe1).is_err());
}

#[test]
fn private_keypad_and_misc() {
    assert!(get_key_type(0x1100_0000) == Ok(Key::PRIVATEKEYPAD));
    assert!(get_key_type(0x1100_ffff) == Ok(Key::PRIVATEKEYPAD));
    assert!(get_key_type(0x1101_0000).is_err());
    assert!(get_key_type(0xff60) == Ok(Key::MISCFUNCTION));
    assert!(get_key_type(0xff6b) == Ok(Key::MISCFUNCTION));
    assert!(get_key_type(0xff6c).is_err());
}

#[test]
fn ordinary_keys_are_not_extra() {
    assert_eq!(get_key_type(0x61), Err(NOT_EXTRA_KEY));
    assert_eq!(get_key_type(0xff0d), Err("Not an extra key or not a valid key"));
    assert!(get_key_type(0xff08).is_err());
    assert!(get_key_type(0xff1b).is_err());
}
