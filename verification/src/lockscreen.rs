//! The decisions taken while a screen is being locked: which input grabs
//! to try, when to retry, when to give up, and how a locked window follows
//! a change of its screen's geometry.
use vstd::prelude::*;
use crate::structs::{Lock, Xrandr};

verus! {

/// X11's answer to a grab that succeeded (`GrabSuccess`).
pub const GRAB_SUCCESS: i32 = 0;

/// X11's answer to a grab of a device that another client holds
/// (`AlreadyGrabbed`).
pub const ALREADY_GRABBED: i32 = 1;

/// The number of grab rounds tried before giving up (600 ms in all).
pub const GRAB_ROUNDS: u32 = 6;

/// RandR rotation by 90 degrees (`RR_Rotate_90`).
pub const RR_ROTATE_90: i32 = 2;

/// RandR rotation by 270 degrees (`RR_Rotate_270`).
pub const RR_ROTATE_270: i32 = 8;

/// The outcome of one round of grabs.
#[derive(PartialEq, Eq, Structural, Clone, Copy, Debug)]
pub enum GrabStep {
    /// Pointer and keyboard are held: the screen can be locked.
    Locked,
    /// Some device is held elsewhere: wait 100 ms and try again.
    Retry,
    /// A grab failed for another reason: stop trying.
    GiveUp,
}

/// The grab answer is a success or a device held elsewhere, the two answers
/// after which trying again makes sense.
pub open spec fn retryable(answer: i32) -> bool {
    answer == ALREADY_GRABBED || answer == GRAB_SUCCESS
}

/// The outcome of a round from the last answers of both grabs.
pub open spec fn grab_step(ptgrab: i32, kbgrab: i32) -> GrabStep {
    if ptgrab == GRAB_SUCCESS && kbgrab == GRAB_SUCCESS {
        GrabStep::Locked
    } else if !retryable(ptgrab) || !retryable(kbgrab) {
        GrabStep::GiveUp
    } else {
        GrabStep::Retry
    }
}

/// The state of the attempts to grab pointer and keyboard: the rounds done
/// and the last answer of each grab (-1 before the first).
pub struct GrabAttempts {
    pub round: u32,
    pub ptgrab: i32,
    pub kbgrab: i32,
}

impl GrabAttempts {
    /// No round done, no answer yet.
    pub fn new() -> (g: GrabAttempts)
        ensures
            g.round == 0,
            g.ptgrab == -1,
            g.kbgrab == -1,
    {
        GrabAttempts { round: 0, ptgrab: -1, kbgrab: -1 }
    }

    /// Another round may be tried.
    pub fn rounds_left(&self) -> (r: bool)
        ensures
            r == (self.round < GRAB_ROUNDS),
    {
        self.round < GRAB_ROUNDS
    }

    /// The pointer must be grabbed (again) in the next round.
    pub fn wants_pointer(&self) -> (r: bool)
        ensures
            r == (self.ptgrab != GRAB_SUCCESS),
    {
        self.ptgrab != GRAB_SUCCESS
    }

    /// The keyboard must be grabbed (again) in the next round.
    pub fn wants_keyboard(&self) -> (r: bool)
        ensures
            r == (self.kbgrab != GRAB_SUCCESS),
    {
        self.kbgrab != GRAB_SUCCESS
    }

    /// Records a round: the answer of each grab tried (`None` for one not
    /// tried, which keeps its last answer), and tells what to do next.
    pub fn record(&mut self, pointer: Option<i32>, keyboard: Option<i32>) -> (step: GrabStep)
        requires
            old(self).round < GRAB_ROUNDS,
        ensures
            final(self).round == old(self).round + 1,
            final(self).ptgrab == (match pointer {
                Some(a) => a,
                None => old(self).ptgrab,
            }),
            final(self).kbgrab == (match keyboard {
                Some(a) => a,
                None => old(self).kbgrab,
            }),
            step == grab_step(final(self).ptgrab, final(self).kbgrab),
    {
        if let Some(a) = pointer {
            self.ptgrab = a;
        }
        if let Some(a) = keyboard {
            self.kbgrab = a;
        }
        self.round = self.round + 1;
        if self.ptgrab == GRAB_SUCCESS && self.kbgrab == GRAB_SUCCESS {
            GrabStep::Locked
        } else if (self.ptgrab != ALREADY_GRABBED && self.ptgrab != GRAB_SUCCESS) || (self.kbgrab
            != ALREADY_GRABBED && self.kbgrab != GRAB_SUCCESS) {
            GrabStep::GiveUp
        } else {
            GrabStep::Retry
        }
    }

    /// After giving up: whether to report that the pointer, and that the
    /// keyboard, could not be grabbed.
    pub fn failures(&self) -> (r: (bool, bool))
        ensures
            r == (self.ptgrab != GRAB_SUCCESS, self.kbgrab != GRAB_SUCCESS),
    {
        (self.ptgrab != GRAB_SUCCESS, self.kbgrab != GRAB_SUCCESS)
    }
}

/// A round ends the attempts with the screen locked exactly when both
/// devices are held, and it gives up exactly when some grab answered with
/// an error other than "held elsewhere".
pub proof fn lemma_grab_outcomes(ptgrab: i32, kbgrab: i32)
    ensures
        (grab_step(ptgrab, kbgrab) == GrabStep::Locked) == (ptgrab == GRAB_SUCCESS && kbgrab
            == GRAB_SUCCESS),
        (grab_step(ptgrab, kbgrab) == GrabStep::GiveUp) == (!retryable(ptgrab) || !retryable(
            kbgrab,
        )),
{
}

/// What to do once both grabs are held.
#[derive(PartialEq, Eq, Structural, Clone, Copy, Debug)]
pub struct LockPlan {
    /// Map the covering window (not when only the keyboard is locked).
    pub map_window: bool,
    /// Ask RandR for screen-change events (when RandR is active).
    pub watch_screen_changes: bool,
}

/// The steps that finish the lock of a screen.
pub fn lock_plan(keyboard_only: bool, rr: Xrandr) -> (p: LockPlan)
    ensures
        p.map_window == !keyboard_only,
        p.watch_screen_changes == (rr.active != 0),
{
    LockPlan { map_window: !keyboard_only, watch_screen_changes: rr.active != 0 }
}

/// A screen number that can be locked.
pub fn screen_is_valid(screen: i32) -> (r: bool)
    ensures
        r == (screen >= 0),
{
    screen >= 0
}

/// Every screen of the display was locked: the number of locks, read as an
/// `i32`, is the number of screens.
pub fn all_screens_locked(locked: usize, nscreens: i32) -> (r: bool)
    ensures
        r == ((locked as i32) == nscreens),
{
    (#[verifier::truncate] (locked as i32)) == nscreens
}

/// The rotation turns the screen on its side.
pub open spec fn turned_sideways(rotation: u16) -> bool {
    rotation as i32 == RR_ROTATE_90 || rotation as i32 == RR_ROTATE_270
}

/// The window size that follows a screen change: width and height swap
/// when the screen is turned on its side.
pub open spec fn resized(rotation: u16, width: i32, height: i32) -> (u32, u32) {
    if turned_sideways(rotation) {
        (height as u32, width as u32)
    } else {
        (width as u32, height as u32)
    }
}

/// The lock whose window had its screen changed, the first one with that
/// window, with the size its window must take; `None` when no lock has it.
pub fn screen_change_target(
    locks: &Vec<Lock>,
    window: u64,
    rotation: u16,
    width: i32,
    height: i32,
) -> (r: Option<(usize, u32, u32)>)
    ensures
        match r {
            Some((i, w, h)) => {
                &&& i < locks@.len()
                &&& locks@[i as int].win == window
                &&& forall|j: int| 0 <= j < i ==> locks@[j].win != window
                &&& (w, h) == resized(rotation, width, height)
            },
            None => forall|j: int| 0 <= j < locks@.len() ==> locks@[j].win != window,
        },
{
    let mut i: usize = 0;
    while i < locks.len()
        invariant
            i <= locks@.len(),
            forall|j: int| 0 <= j < i ==> locks@[j].win != window,
        decreases locks@.len() - i,
    {
        if locks[i].win == window {
            let r = rotation as i32;
            if r == RR_ROTATE_90 || r == RR_ROTATE_270 {
                return Some((i, #[verifier::truncate] (height as u32), #[verifier::truncate] (width as u32)));
            } else {
                return Some((i, #[verifier::truncate] (width as u32), #[verifier::truncate] (height as u32)));
            }
        }
        i = i + 1;
    }
    None
}


/// The size given after a screen change is the screen's size as reported,
/// with width and height swapped exactly for a rotation of 90 or 270
/// degrees (rotation values 2 and 8) and kept for every other rotation.
pub proof fn lemma_resize_swaps_only_when_sideways(rotation: u16, width: i32, height: i32)
    ensures
        (rotation == 2 || rotation == 8) ==> resized(rotation, width, height) == (
            height as u32,
            width as u32,
        ),
        !(rotation == 2 || rotation == 8) ==> resized(rotation, width, height) == (
            width as u32,
            height as u32,
        ),
        resized(rotation, width, height).0 == (if rotation == 2 || rotation == 8 {
            height
        } else {
            width
        }) as u32,
{
}


/// In terms of X11's answers (0 for success, 1 for a device held
/// elsewhere): a round locks exactly when both grabs answered 0, gives up
/// exactly when some answer is neither 0 nor 1, and retries otherwise.
pub proof fn lemma_grab_answers(ptgrab: i32, kbgrab: i32)
    ensures
        (grab_step(ptgrab, kbgrab) == GrabStep::Locked) <==> (ptgrab == 0 && kbgrab == 0),
        (grab_step(ptgrab, kbgrab) == GrabStep::GiveUp) <==> ((ptgrab != 0 && ptgrab != 1) || (
        kbgrab != 0 && kbgrab != 1)),
        (grab_step(ptgrab, kbgrab) == GrabStep::Retry) <==> ((ptgrab == 0 || ptgrab == 1) && (
        kbgrab == 0 || kbgrab == 1) && !(ptgrab == 0 && kbgrab == 0)),
{
}

} // verus!
