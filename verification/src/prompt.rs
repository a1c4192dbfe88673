//! The password prompt of the locked screen: what each key press does to
//! the typed password, to the lock, and to what the screen shows.
use vstd::prelude::*;
use vstd::utf8::*;
use crate::keys::{get_key_type, key_group, XK_BACKSPACE, XK_ESCAPE, XK_RETURN};
use crate::password::{
    hash, line_is_password, md5_hex, password_of_line, string_from_utf8, without_last_byte,
};
use crate::structs::Xrandr;

verus! {

/// X11's event type of a key press (`KeyPress`).
pub const KEY_PRESS: i32 = 2;

/// Offset of the screen-change event from RandR's event base
/// (`RRScreenChangeNotify`).
pub const RR_SCREEN_CHANGE_NOTIFY: i32 = 0;

/// The colour the lock screen shows; `NUMCOLS` is the number of colours.
#[derive(PartialEq, Eq, Structural, Clone, Copy, Debug)]
#[allow(non_camel_case_types)]
pub enum Color {
    INIT,
    INPUT,
    FAILED,
    NUMCOLS,
}

/// The number of a colour, which is its slot in the colour map and its
/// index among a lock's pixel values.
pub open spec fn color_number(c: Color) -> u32 {
    match c {
        Color::INIT => 0,
        Color::INPUT => 1,
        Color::FAILED => 2,
        Color::NUMCOLS => 3,
    }
}

/// The number of a colour.
pub fn color_index(c: Color) -> (n: u32)
    ensures
        n == color_number(c),
{
    match c {
        Color::INIT => 0,
        Color::INPUT => 1,
        Color::FAILED => 2,
        Color::NUMCOLS => 3,
    }
}

/// What the screens must do after a key press.
#[derive(PartialEq, Eq, Structural, Clone, Copy, Debug)]
pub enum Display {
    /// Nothing.
    Unchanged,
    /// Paint every lock window in this colour.
    Recolor(Color),
    /// Resize the window of the screen whose geometry changed.
    ScreenChange,
    /// Raise every lock window.
    Raise,
}

/// The answer to a key press: whether to ring the bell, and what the
/// screens must do.
#[derive(PartialEq, Eq, Structural, Clone, Copy, Debug)]
pub struct Response {
    pub bell: bool,
    pub display: Display,
}

/// The state of the prompt: the bytes typed so far, whether a wrong
/// password was entered, whether the screen is still locked, and the colour
/// shown last.
pub struct Prompt {
    pub passwd: Vec<u8>,
    pub failure: bool,
    pub running: bool,
    pub old_color: Color,
}

/// The prompt as a mathematical value.
#[verifier::ext_equal]
pub struct PromptState {
    pub passwd: Seq<u8>,
    pub failure: bool,
    pub running: bool,
    pub old_color: Color,
}

impl View for Prompt {
    type V = PromptState;

    open spec fn view(&self) -> PromptState {
        PromptState {
            passwd: self.passwd@,
            failure: self.failure,
            running: self.running,
            old_color: self.old_color,
        }
    }
}

/// The bytes of a C string buffer before its first zero byte (all of them
/// when it has none).
pub open spec fn before_nul(buf: Seq<u8>) -> Seq<u8>
    decreases buf.len(),
{
    if buf.len() == 0 || buf[0] == 0 {
        Seq::empty()
    } else {
        seq![buf[0]] + before_nul(buf.drop_first())
    }
}

/// The typed bytes are the password whose digest is stored.
pub open spec fn password_matches(passwd: Seq<u8>, stored_hash: Seq<char>) -> bool {
    md5_hex(decode_utf8(passwd)) == stored_hash
}

/// The colour that fits a prompt: `INPUT` while something is typed, else
/// `FAILED` after a wrong password, else `INIT`.
pub open spec fn color_for(passwd: Seq<u8>, failure: bool) -> Color {
    if passwd.len() > 0 {
        Color::INPUT
    } else if failure {
        Color::FAILED
    } else {
        Color::INIT
    }
}

/// The key press counts as RandR's screen-change event: RandR is active
/// and its screen-change event has the type of a key press.
pub open spec fn screen_change_pending(rr: Xrandr) -> bool {
    rr.active != 0 && KEY_PRESS == rr.evbase + RR_SCREEN_CHANGE_NOTIFY
}

/// What a key that is not an extra key does to the password, the failure
/// flag and the lock, and whether the bell rings. Return submits the
/// password (unlocking on a match, else marking a failure and ringing),
/// Escape clears it, BackSpace drops its last byte, and any other key
/// that produced text appends that text.
pub open spec fn edit(
    s: PromptState,
    ksym: u64,
    typed: Seq<u8>,
    count: i32,
    stored_hash: Seq<char>,
) -> (PromptState, bool) {
    let code = ksym as u32;
    if code == XK_RETURN {
        if password_matches(s.passwd, stored_hash) {
            (
                PromptState {
                    passwd: Seq::empty(),
                    failure: s.failure,
                    running: false,
                    old_color: s.old_color,
                },
                false,
            )
        } else {
            (
                PromptState {
                    passwd: Seq::empty(),
                    failure: true,
                    running: s.running,
                    old_color: s.old_color,
                },
                true,
            )
        }
    } else if code == XK_ESCAPE {
        (
            PromptState {
                passwd: Seq::empty(),
                failure: s.failure,
                running: s.running,
                old_color: s.old_color,
            },
            false,
        )
    } else if code == XK_BACKSPACE {
        (
            PromptState {
                passwd: without_last_byte(s.passwd),
                failure: s.failure,
                running: s.running,
                old_color: s.old_color,
            },
            false,
        )
    } else if count != 0 {
        (
            PromptState {
                passwd: s.passwd + typed,
                failure: s.failure,
                running: s.running,
                old_color: s.old_color,
            },
            false,
        )
    } else {
        (s, false)
    }
}

/// One key press: extra keys are ignored; any other key edits the prompt,
/// and then, unless only the keyboard is locked, the screens are repainted
/// when the prompt's colour changed while still locked, else resized on a
/// screen change, else raised.
pub open spec fn key_step(
    s: PromptState,
    ksym: u64,
    typed: Seq<u8>,
    count: i32,
    stored_hash: Seq<char>,
    keyboard_only: bool,
    rr: Xrandr,
) -> (PromptState, Response) {
    if key_group(ksym) is Some {
        (s, Response { bell: false, display: Display::Unchanged })
    } else {
        let (t, bell) = edit(s, ksym, typed, count, stored_hash);
        if keyboard_only {
            (t, Response { bell, display: Display::Unchanged })
        } else {
            let c = color_for(t.passwd, t.failure);
            if t.running && t.old_color != c {
                (
                    PromptState {
                        passwd: t.passwd,
                        failure: t.failure,
                        running: t.running,
                        old_color: c,
                    },
                    Response { bell, display: Display::Recolor(c) },
                )
            } else if screen_change_pending(rr) {
                (t, Response { bell, display: Display::ScreenChange })
            } else {
                (t, Response { bell, display: Display::Raise })
            }
        }
    }
}

/// The key press submits a password (and so needs it to be text).
pub open spec fn submits(ksym: u64) -> bool {
    key_group(ksym) is None && (ksym as u32) == XK_RETURN
}

proof fn lemma_before_nul(buf: Seq<u8>, n: int)
    requires
        0 <= n <= buf.len(),
        forall|j: int| 0 <= j < n ==> buf[j] != 0,
        n == buf.len() || buf[n] == 0,
    ensures
        before_nul(buf) == buf.take(n),
    decreases buf.len(),
{
    if buf.len() == 0 || buf[0] == 0 {
        assert(buf.take(n) =~= Seq::<u8>::empty());
    } else {
        let rest = buf.drop_first();
        assert forall|j: int| 0 <= j < n - 1 implies rest[j] != 0 by {
            assert(rest[j] == buf[j + 1]);
        }
        lemma_before_nul(rest, n - 1);
        assert(buf.take(n) =~= seq![buf[0]] + rest.take(n - 1));
    }
}

/// The bytes of a C string buffer before its first zero byte.
pub fn bytes_before_nul(buf: &[u8]) -> (r: Vec<u8>)
    ensures
        r@ == before_nul(buf@),
{
    let mut r: Vec<u8> = Vec::new();
    let mut i: usize = 0;
    while i < buf.len() && buf[i] != 0
        invariant
            i <= buf@.len(),
            r@ == buf@.take(i as int),
            forall|j: int| 0 <= j < i ==> buf@[j] != 0,
        decreases buf@.len() - i,
    {
        r.push(buf[i]);
        i = i + 1;
        assert(r@ =~= buf@.take(i as int));
    }
    proof {
        lemma_before_nul(buf@, i as int);
    }
    r
}

impl Prompt {
    /// A prompt with nothing typed, no failure, locked, showing `INIT`.
    pub fn new() -> (p: Prompt)
        ensures
            p@ == (PromptState {
                passwd: Seq::empty(),
                failure: false,
                running: true,
                old_color: Color::INIT,
            }),
    {
        Prompt { passwd: Vec::new(), failure: false, running: true, old_color: Color::INIT }
    }

    /// The bytes typed so far are valid UTF-8, so Return can submit them.
    pub fn entry_is_text(&self) -> (r: bool)
        ensures
            r == valid_utf8(self.passwd@),
    {
        string_from_utf8(self.passwd.clone()).is_some()
    }

    /// Applies the edit of a key that is not an extra key, and tells
    /// whether the bell must ring.
    fn apply_edit(&mut self, ksym: u64, buffer: &[u8], count: i32, stored_hash: &String) -> (bell: bool)
        requires
            (ksym as u32) == XK_RETURN ==> valid_utf8(old(self).passwd@),
        ensures
            (final(self)@, bell) == edit(old(self)@, ksym, before_nul(buffer@), count, stored_hash@),
    {
        let code = #[verifier::truncate] (ksym as u32);
        let mut bell = false;
        if code == XK_RETURN {
            let mut entered: Vec<u8> = Vec::new();
            std::mem::swap(&mut entered, &mut self.passwd);
            let text = string_from_utf8(entered).unwrap();
            let input_hash = hash(&text);
            if input_hash.eq(stored_hash) {
                self.running = false;
            } else {
                bell = true;
                self.failure = true;
            }
        } else if code == XK_ESCAPE {
            self.passwd = Vec::new();
        } else if code == XK_BACKSPACE {
            self.passwd.pop();
            assert(self.passwd@ =~= without_last_byte(old(self).passwd@));
        } else if count != 0 {
            let typed = bytes_before_nul(buffer);
            let ghost before = self.passwd@;
            let mut i: usize = 0;
            while i < typed.len()
                invariant
                    i <= typed@.len(),
                    self.passwd@ == before + typed@.take(i as int),
                    before == old(self).passwd@,
                    self.failure == old(self).failure,
                    self.running == old(self).running,
                    self.old_color == old(self).old_color,
                    typed@ == before_nul(buffer@),
                decreases typed@.len() - i,
            {
                self.passwd.push(typed[i]);
                i = i + 1;
                assert(self.passwd@ =~= before + typed@.take(i as int));
            }
            assert(typed@.take(typed@.len() as int) =~= typed@);
        }
        bell
    }

    /// Handles one key press: `ksym` is the key's symbol, `buffer` the text
    /// buffer that the key lookup filled and `count` the number of bytes it
    /// reported; `stored_hash` is the digest read from the password file.
    pub fn handle_key(
        &mut self,
        ksym: u64,
        buffer: &[u8],
        count: i32,
        stored_hash: &String,
        keyboard_only: bool,
        rr: Xrandr,
    ) -> (r: Response)
        requires
            submits(ksym) ==> valid_utf8(old(self).passwd@),
        ensures
            (final(self)@, r) == key_step(
                old(self)@,
                ksym,
                before_nul(buffer@),
                count,
                stored_hash@,
                keyboard_only,
                rr,
            ),
    {
        if get_key_type(ksym).is_ok() {
            return Response { bell: false, display: Display::Unchanged };
        }
        let bell = self.apply_edit(ksym, buffer, count, stored_hash);
        if keyboard_only {
            return Response { bell, display: Display::Unchanged };
        }
        let color = if self.passwd.len() > 0 {
            Color::INPUT
        } else if self.failure {
            Color::FAILED
        } else {
            Color::INIT
        };
        if self.running && self.old_color != color {
            self.old_color = color;
            Response { bell, display: Display::Recolor(color) }
        } else if rr.active != 0 && KEY_PRESS - RR_SCREEN_CHANGE_NOTIFY == rr.evbase {
            Response { bell, display: Display::ScreenChange }
        } else {
            Response { bell, display: Display::Raise }
        }
    }
}


/// Extra keys (keypad, function and private keys) change nothing: the
/// prompt stays as it is, the bell is silent and the screens are left alone.
pub proof fn lemma_extra_keys_ignored(
    s: PromptState,
    ksym: u64,
    typed: Seq<u8>,
    count: i32,
    stored_hash: Seq<char>,
    keyboard_only: bool,
    rr: Xrandr,
)
    requires
        key_group(ksym) is Some,
    ensures
        key_step(s, ksym, typed, count, stored_hash, keyboard_only, rr) == (
        s,
        Response { bell: false, display: Display::Unchanged },
    ),
{
}

/// Once a wrong password was entered the failure mark stays, and once the
/// screen is unlocked it never locks again.
pub proof fn lemma_failure_and_unlock_are_kept(
    s: PromptState,
    ksym: u64,
    typed: Seq<u8>,
    count: i32,
    stored_hash: Seq<char>,
    keyboard_only: bool,
    rr: Xrandr,
)
    ensures
        ({
            let t = key_step(s, ksym, typed, count, stored_hash, keyboard_only, rr).0;
            &&& s.failure ==> t.failure
            &&& !s.running ==> !t.running
        }),
{
}

/// Return submits what was typed: the typed bytes are cleared; the screen
/// unlocks exactly when their digest is the stored one; otherwise the bell
/// rings and the prompt is marked as failed.
pub proof fn lemma_submit(
    s: PromptState,
    ksym: u64,
    typed: Seq<u8>,
    count: i32,
    stored_hash: Seq<char>,
    keyboard_only: bool,
    rr: Xrandr,
)
    requires
        submits(ksym),
    ensures
        ({
            let (t, r) = key_step(s, ksym, typed, count, stored_hash, keyboard_only, rr);
            let ok = password_matches(s.passwd, stored_hash);
            &&& t.passwd == Seq::<u8>::empty()
            &&& t.running == (s.running && !ok)
            &&& t.failure == (s.failure || !ok)
            &&& r.bell == !ok
        }),
{
}

/// Escape clears the typed bytes, BackSpace removes the last one, and a key
/// that produced text appends the text before the buffer's first zero byte.
pub proof fn lemma_editing_keys(
    s: PromptState,
    ksym: u64,
    typed: Seq<u8>,
    count: i32,
    stored_hash: Seq<char>,
    keyboard_only: bool,
    rr: Xrandr,
)
    requires
        key_group(ksym) is None,
    ensures
        ({
            let (t, r) = key_step(s, ksym, typed, count, stored_hash, keyboard_only, rr);
            let code = ksym as u32;
            &&& code == XK_ESCAPE ==> t.passwd == Seq::<u8>::empty()
            &&& code == XK_BACKSPACE && s.passwd.len() > 0 ==> t.passwd == s.passwd.drop_last()
            &&& code == XK_BACKSPACE && s.passwd.len() == 0 ==> t.passwd == s.passwd
            &&& code != XK_RETURN && code != XK_ESCAPE && code != XK_BACKSPACE && count != 0
                ==> t.passwd == s.passwd + typed
            &&& code != XK_RETURN && code != XK_ESCAPE && code != XK_BACKSPACE && count == 0
                ==> t.passwd == s.passwd
            &&& code != XK_RETURN ==> !r.bell && t.failure == s.failure && t.running == s.running
        }),
{
}

/// While the screen stays locked, after every key that is not an extra key
/// the lock screen shows the colour that fits the prompt (unless only the
/// keyboard is locked), and a repaint happens exactly when that colour
/// differs from the one shown before.
pub proof fn lemma_screen_shows_prompt_color(
    s: PromptState,
    ksym: u64,
    typed: Seq<u8>,
    count: i32,
    stored_hash: Seq<char>,
    rr: Xrandr,
)
    requires
        key_group(ksym) is None,
    ensures
        ({
            let (t, r) = key_step(s, ksym, typed, count, stored_hash, false, rr);
            let e = edit(s, ksym, typed, count, stored_hash).0;
            &&& t.running ==> t.old_color == color_for(t.passwd, t.failure)
            &&& (r.display is Recolor) == (t.running && s.old_color != color_for(e.passwd, e.failure))
        }),
{
}

/// A password set from a line at set-up unlocks the screen when its bytes
/// are typed and Return is pressed: the bell stays silent and the lock ends.
pub proof fn lemma_set_password_unlocks(
    line: Seq<char>,
    s: PromptState,
    ksym: u64,
    typed: Seq<u8>,
    count: i32,
    keyboard_only: bool,
    rr: Xrandr,
)
    requires
        line_is_password(line),
        s.passwd == encode_utf8(password_of_line(line)),
        submits(ksym),
    ensures
        ({
            let (t, r) = key_step(
                s,
                ksym,
                typed,
                count,
                md5_hex(password_of_line(line)),
                keyboard_only,
                rr,
            );
            &&& !t.running
            &&& !r.bell
            &&& t.failure == s.failure
        }),
{
    encode_utf8_decode_utf8(password_of_line(line));
}


/// Only Return with the password whose digest is stored ends the lock: a
/// locked prompt that stops running was given Return on matching bytes.
pub proof fn lemma_only_matching_return_unlocks(
    s: PromptState,
    ksym: u64,
    typed: Seq<u8>,
    count: i32,
    stored_hash: Seq<char>,
    keyboard_only: bool,
    rr: Xrandr,
)
    requires
        s.running,
        !key_step(s, ksym, typed, count, stored_hash, keyboard_only, rr).0.running,
    ensures
        submits(ksym),
        password_matches(s.passwd, stored_hash),
{
}

/// The typed bytes after one key press: unchanged for an extra key, cleared
/// by Return and Escape, shortened by one byte by BackSpace (an empty
/// entry stays empty), extended by the key's text otherwise (unchanged when
/// the key produced none).
pub proof fn lemma_password_buffer_update(
    s: PromptState,
    ksym: u64,
    typed: Seq<u8>,
    count: i32,
    stored_hash: Seq<char>,
    keyboard_only: bool,
    rr: Xrandr,
)
    ensures
        key_step(s, ksym, typed, count, stored_hash, keyboard_only, rr).0.passwd == if key_group(
            ksym,
        ) is Some {
            s.passwd
        } else if (ksym as u32) == XK_RETURN || (ksym as u32) == XK_ESCAPE {
            Seq::<u8>::empty()
        } else if (ksym as u32) == XK_BACKSPACE {
            without_last_byte(s.passwd)
        } else if count != 0 {
            s.passwd + typed
        } else {
            s.passwd
        },
{
}

/// On a locked screen (not only the keyboard), after a key that is not an
/// extra key and does not unlock: every window is repainted, in the colour
/// that fits the new prompt (`INPUT` while something is typed, else
/// `FAILED` once a wrong password was entered, else `INIT`), exactly when
/// that colour differs from the one shown before; otherwise no repaint.
pub proof fn lemma_repaint_exactly_on_color_change(
    s: PromptState,
    ksym: u64,
    typed: Seq<u8>,
    count: i32,
    stored_hash: Seq<char>,
    rr: Xrandr,
)
    requires
        key_group(ksym) is None,
        key_step(s, ksym, typed, count, stored_hash, false, rr).0.running,
    ensures
        ({
            let (t, r) = key_step(s, ksym, typed, count, stored_hash, false, rr);
            let c = color_for(t.passwd, t.failure);
            &&& s.old_color != c ==> r.display == Display::Recolor(c)
            &&& s.old_color == c ==> !(r.display is Recolor)
            &&& t.old_color == c
        }),
{
}


/// On a locked screen that is not keyboard-only, after a key that is not
/// an extra key and does not unlock, the colour shown (and any repaint) is
/// `INPUT` whenever typed bytes are present, whatever the failure flag;
/// `FAILED` only when nothing is typed after a wrong password; `INIT` only
/// when nothing is typed and no wrong password was entered.
pub proof fn lemma_color_shown(
    s: PromptState,
    ksym: u64,
    typed: Seq<u8>,
    count: i32,
    stored_hash: Seq<char>,
    rr: Xrandr,
)
    requires
        key_group(ksym) is None,
        key_step(s, ksym, typed, count, stored_hash, false, rr).0.running,
    ensures
        ({
            let (t, r) = key_step(s, ksym, typed, count, stored_hash, false, rr);
            &&& t.passwd.len() > 0 ==> t.old_color == Color::INPUT
            &&& t.passwd.len() > 0 && r.display is Recolor ==> r.display == Display::Recolor(
                Color::INPUT,
            )
            &&& t.passwd.len() == 0 && t.failure ==> t.old_color == Color::FAILED
            &&& t.passwd.len() == 0 && t.failure && r.display is Recolor ==> r.display
                == Display::Recolor(Color::FAILED)
            &&& t.passwd.len() == 0 && !t.failure ==> t.old_color == Color::INIT
            &&& t.passwd.len() == 0 && !t.failure && r.display is Recolor ==> r.display
                == Display::Recolor(Color::INIT)
            &&& t.failure == (s.failure || (submits(ksym) && !password_matches(
                s.passwd,
                stored_hash,
            )))
        }),
{
}


/// The bytes taken from a key's text buffer are a prefix of it that holds
/// no zero byte and ends where the buffer ends or at a zero byte.
pub proof fn lemma_before_nul_is_c_string(buf: Seq<u8>)
    ensures
        before_nul(buf).len() <= buf.len(),
        before_nul(buf) == buf.take(before_nul(buf).len() as int),
        forall|j: int| 0 <= j < before_nul(buf).len() ==> #[trigger] before_nul(buf)[j] != 0,
        before_nul(buf).len() == buf.len() || buf[before_nul(buf).len() as int] == 0,
    decreases buf.len(),
{
    if buf.len() == 0 || buf[0] == 0 {
        assert(buf.take(0) =~= Seq::<u8>::empty());
    } else {
        let rest = buf.drop_first();
        lemma_before_nul_is_c_string(rest);
        let b = before_nul(buf);
        assert(b =~= seq![buf[0]] + before_nul(rest));
        assert(buf.take(b.len() as int) =~= seq![buf[0]] + rest.take(before_nul(rest).len() as int));
        assert forall|j: int| 0 <= j < b.len() implies #[trigger] b[j] != 0 by {
            if j > 0 {
                assert(b[j] == before_nul(rest)[j - 1]);
            }
        }
        if b.len() < buf.len() {
            assert(buf[b.len() as int] == rest[before_nul(rest).len() as int]);
        }
    }
}

/// What the screens do after a key that is not an extra key: nothing when
/// only the keyboard is locked; otherwise, when no repaint is due, the
/// windows are resized exactly when RandR is active with event base 2 (its
/// screen-change event then has the type of a key press), else raised. The
/// bell rings exactly on a Return whose bytes do not match the digest.
pub proof fn lemma_screen_action(
    s: PromptState,
    ksym: u64,
    typed: Seq<u8>,
    count: i32,
    stored_hash: Seq<char>,
    keyboard_only: bool,
    rr: Xrandr,
)
    requires
        key_group(ksym) is None,
    ensures
        ({
            let (t, r) = key_step(s, ksym, typed, count, stored_hash, keyboard_only, rr);
            &&& keyboard_only ==> r.display == Display::Unchanged
            &&& !keyboard_only && !(r.display is Recolor) ==> (r.display == Display::ScreenChange
                <==> (rr.active != 0 && rr.evbase == 2))
            &&& !keyboard_only && !(r.display is Recolor) ==> (r.display == Display::Raise <==> !(
            rr.active != 0 && rr.evbase == 2))
            &&& r.bell == ((ksym as u32) == 0xff0d && md5_hex(decode_utf8(s.passwd))
                != stored_hash)
        }),
{
}

} // verus!
