//! Plain records of the lock screen: one locked screen, and the state of
//! the X RandR extension.
use vstd::prelude::*;

verus! {

/// One locked screen: its number, its root window, the covering window, the
/// pixmap of the invisible cursor, and the pixel values of its colours.
#[derive(Debug)]
pub struct Lock {
    pub screen: i32,
    pub root: u64,
    pub win: u64,
    pub pmap: u64,
    pub colors: Vec<u64>,
}

impl Lock {
    /// A lock of screen 0 with no windows and no colours yet.
    pub fn new() -> (l: Lock)
        ensures
            l.screen == 0,
            l.root == 0,
            l.win == 0,
            l.pmap == 0,
            l.colors@ == Seq::<u64>::empty(),
    {
        Lock { screen: 0, root: 0, win: 0, pmap: 0, colors: Vec::new() }
    }
}

/// Whether the X RandR extension is active, and its event and error bases.
#[derive(Copy, Clone, Debug)]
pub struct Xrandr {
    pub active: i32,
    pub evbase: i32,
    pub errbase: i32,
}

impl Xrandr {
    /// RandR inactive, with both bases 0.
    pub fn new() -> (r: Xrandr)
        ensures
            r.active == 0,
            r.evbase == 0,
            r.errbase == 0,
    {
        Xrandr { active: 0, evbase: 0, errbase: 0 }
    }
}

} // verus!
