//! Classification of X11 key symbols into the groups of keys that the
//! password prompt ignores.
use vstd::prelude::*;

verus! {

/// Keysym of the space bar (`XK_space` in X11's keysymdef).
pub const XK_SPACE: u64 = 0x20;

/// Keysym of `=` (`XK_equal`).
pub const XK_EQUAL: u64 = 0x3d;

/// Keysym of the first function key (`XK_F1`).
pub const XK_F1: u64 = 0xffbe;

/// Keysym of function key F4 (`XK_F4`).
pub const XK_F4: u64 = 0xffc1;

/// Keysym of the last function key, F35 (`XK_F35`).
pub const XK_F35: u64 = 0xffe0;

/// Keysym of the Select key (`XK_Select`).
pub const XK_SELECT: u64 = 0xff60;

/// Keysym of the Break key (`XK_Break`).
pub const XK_BREAK: u64 = 0xff6b;

/// Keysym of the Return key (`XK_Return`).
pub const XK_RETURN: u32 = 0xff0d;

/// Keysym of the Escape key (`XK_Escape`).
pub const XK_ESCAPE: u32 = 0xff1b;

/// Keysym of the BackSpace key (`XK_BackSpace`).
pub const XK_BACKSPACE: u32 = 0xff08;

/// First keysym of the range reserved for vendor-private keypads.
pub const PRIVATE_KEYPAD_FIRST: u64 = 0x1100_0000;

/// Last keysym of the range reserved for vendor-private keypads.
pub const PRIVATE_KEYPAD_LAST: u64 = 0x1100_ffff;

/// The message returned for a key that belongs to none of the groups.
pub const NOT_EXTRA_KEY: &'static str = "Not an extra key or not a valid key";

/// Groups of keys that the lock screen does not take as password input.
#[derive(PartialEq, Eq, Structural, Clone, Copy, Debug)]
pub enum Key {
    KEYPAD,
    FUNCTION,
    MISCFUNCTION,
    PF,
    PRIVATEKEYPAD,
}

/// The group of `ksym`, tested in this order: keypad (space to `=`),
/// function keys F1 to F35, the private keypad range, Select to Break,
/// and F1 to F4; `None` when no range holds it.
pub open spec fn key_group(ksym: u64) -> Option<Key> {
    if XK_SPACE <= ksym <= XK_EQUAL {
        Some(Key::KEYPAD)
    } else if XK_F1 <= ksym <= XK_F35 {
        Some(Key::FUNCTION)
    } else if PRIVATE_KEYPAD_FIRST <= ksym <= PRIVATE_KEYPAD_LAST {
        Some(Key::PRIVATEKEYPAD)
    } else if XK_SELECT <= ksym <= XK_BREAK {
        Some(Key::MISCFUNCTION)
    } else if XK_F1 <= ksym <= XK_F4 {
        Some(Key::PF)
    } else {
        None
    }
}

/// Classifies a key symbol: `Ok` with its group when it is one of the
/// extra keys, else `Err` with [`NOT_EXTRA_KEY`].
pub fn get_key_type(ksym: u64) -> (r: Result<Key, &'static str>)
    ensures
        match r {
            Ok(k) => key_group(ksym) == Some(k),
            Err(msg) => key_group(ksym) is None && msg@ == NOT_EXTRA_KEY@,
        },
{
    if XK_SPACE <= ksym && ksym <= XK_EQUAL {
        Ok(Key::KEYPAD)
    } else if XK_F1 <= ksym && ksym <= XK_F35 {
        Ok(Key::FUNCTION)
    } else if PRIVATE_KEYPAD_FIRST <= ksym && ksym <= PRIVATE_KEYPAD_LAST {
        Ok(Key::PRIVATEKEYPAD)
    } else if XK_SELECT <= ksym && ksym <= XK_BREAK {
        Ok(Key::MISCFUNCTION)
    } else if XK_F1 <= ksym && ksym <= XK_F4 {
        Ok(Key::PF)
    } else {
        Err(NOT_EXTRA_KEY)
    }
}

/// F1 to F4 lie inside F1 to F35, which is tested first: no key symbol is
/// ever classified as `PF`.
pub proof fn lemma_pf_never_classified(ksym: u64)
    ensures
        key_group(ksym) != Some(Key::PF),
{
}

/// The key symbols that are classified at all are exactly those in the
/// union of the five ranges.
pub proof fn lemma_extra_keys_are_the_ranges(ksym: u64)
    ensures
        key_group(ksym) is Some <==> (XK_SPACE <= ksym <= XK_EQUAL || XK_F1 <= ksym <= XK_F35
            || PRIVATE_KEYPAD_FIRST <= ksym <= PRIVATE_KEYPAD_LAST || XK_SELECT <= ksym
            <= XK_BREAK),
{
}


/// Each group is exactly its range of key symbols: space to `=` are keypad
/// keys, F1 to F35 function keys, the vendor range private keypad keys,
/// Select to Break miscellaneous function keys, and no symbol outside these
/// ranges is classified.
pub proof fn lemma_groups_are_their_ranges(ksym: u64)
    ensures
        (key_group(ksym) == Some(Key::KEYPAD)) <==> (0x20 <= ksym <= 0x3d),
        (key_group(ksym) == Some(Key::FUNCTION)) <==> (0xffbe <= ksym <= 0xffe0),
        (key_group(ksym) == Some(Key::PRIVATEKEYPAD)) <==> (0x1100_0000 <= ksym <= 0x1100_ffff),
        (key_group(ksym) == Some(Key::MISCFUNCTION)) <==> (0xff60 <= ksym <= 0xff6b),
        (key_group(ksym) is None) <==> !(0x20 <= ksym <= 0x3d || 0xffbe <= ksym <= 0xffe0 || 0x1100_0000
            <= ksym <= 0x1100_ffff || 0xff60 <= ksym <= 0xff6b),
{
}

} // verus!
