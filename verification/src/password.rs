//! The stored password: where it lives, how a typed line becomes the
//! password, and its MD5 digest.
use crypto::digest::Digest;
use crypto::md5::Md5;
use vstd::prelude::*;
use vstd::string::*;
use vstd::utf8::*;

verus! {

broadcast use {vstd::string::group_string_axioms, vstd::utf8::group_utf8_lib};

/// The lowercase hexadecimal MD5 digest of the UTF-8 bytes of a text, as
/// rust-crypto's `Md5` writes it.
pub uninterp spec fn md5_hex(text: Seq<char>) -> Seq<char>;

/// `c` is one of the characters `0`-`9`, `a`-`f`.
pub open spec fn is_lower_hex_digit(c: char) -> bool {
    ('0' <= c <= '9') || ('a' <= c <= 'f')
}

/// Feeds the UTF-8 bytes of `to_hash` into rust-crypto's `Md5`
/// (`Md5::new`, `Digest::input_str`) and returns `Digest::result_str`.
/// The contract names the digest text [`md5_hex`] of the input and states
/// what `result_str` shows in its source: the 16 digest bytes written as 32
/// lowercase hexadecimal digits. Nothing is claimed of MD5 itself.
#[verifier::external_body]
pub(crate) fn hash(to_hash: &String) -> (digest: String)
    ensures
        digest@ == md5_hex(to_hash@),
        digest@.len() == 32,
        forall|i: int| 0 <= i < 32 ==> is_lower_hex_digit(#[trigger] digest@[i]),
{
    let mut md5 = Md5::new();
    md5.input_str(to_hash);
    md5.result_str()
}

/// Calls `String::from_utf8`: `Some` exactly when the bytes are valid
/// UTF-8, with the text they encode (std's documentation of `from_utf8`).
#[verifier::external_body]
pub(crate) fn string_from_utf8(bytes: Vec<u8>) -> (s: Option<String>)
    ensures
        s is Some <==> valid_utf8(bytes@),
        s matches Some(t) ==> t@ == decode_utf8(bytes@),
{
    String::from_utf8(bytes).ok()
}

/// The bytes with the last one removed, if there is one.
pub open spec fn without_last_byte(bytes: Seq<u8>) -> Seq<u8> {
    if bytes.len() == 0 {
        bytes
    } else {
        bytes.drop_last()
    }
}

/// A line as read from the terminal, with its last byte (the line break)
/// removed, can be read back as text.
pub open spec fn line_is_password(line: Seq<char>) -> bool {
    valid_utf8(without_last_byte(encode_utf8(line)))
}

/// The password that a line read from the terminal holds: the text of its
/// UTF-8 bytes without the last byte.
pub open spec fn password_of_line(line: Seq<char>) -> Seq<char> {
    decode_utf8(without_last_byte(encode_utf8(line)))
}

/// The file that holds the password digest of `username`:
/// `/home/<username>/.rlock_pwd`.
pub fn pwfile_path(username: &str) -> (path: String)
    ensures
        path@ == "/home/"@ + username@ + "/.rlock_pwd"@,
{
    let mut path = String::from_str("/home/");
    path.append(username);
    path.append("/.rlock_pwd");
    path
}

/// The configuration file of `username`: `/home/<username>/.rlock_config`.
pub fn config_path(username: &str) -> (path: String)
    ensures
        path@ == "/home/"@ + username@ + "/.rlock_config"@,
{
    let mut path = String::from_str("/home/");
    path.append(username);
    path.append("/.rlock_config");
    path
}

/// Tells whether the line without its last byte is valid UTF-8, which
/// [`password_from_line`] needs.
pub fn line_holds_password(line: &String) -> (r: bool)
    ensures
        r == line_is_password(line@),
{
    let mut bytes = line.as_str().as_bytes_vec();
    bytes.pop();
    string_from_utf8(bytes).is_some()
}

/// The password that a line read from the terminal holds: the line without
/// its last byte, the line break.
pub fn password_from_line(line: String) -> (password: String)
    requires
        line_is_password(line@),
    ensures
        password@ == password_of_line(line@),
{
    let mut bytes = line.as_str().as_bytes_vec();
    bytes.pop();
    string_from_utf8(bytes).unwrap()
}

/// The digest that the password file stores for a line typed at set-up.
pub fn hashed_password_line(line: String) -> (digest: String)
    requires
        line_is_password(line@),
    ensures
        digest@ == md5_hex(password_of_line(line@)),
        digest@.len() == 32,
{
    let password = password_from_line(line);
    hash(&password)
}

/// The two lines typed at set-up agree.
pub fn confirmation_matches(first: &String, second: &String) -> (r: bool)
    ensures
        r == (first@ == second@),
{
    first.eq(second)
}

/// The outcome of typing the password twice at set-up.
pub enum PasswordSetup {
    /// The two lines differ: ask for the password again.
    Retry,
    /// The two lines agree: store this digest of the password.
    Store(String),
}

/// One round of setting the password: both typed lines in, and either a
/// new round or the digest to store out.
pub fn password_setup(first: String, second: &String) -> (r: PasswordSetup)
    requires
        first@ == second@ ==> line_is_password(first@),
    ensures
        match r {
            PasswordSetup::Retry => first@ != second@,
            PasswordSetup::Store(digest) => first@ == second@ && digest@ == md5_hex(
                password_of_line(first@),
            ),
        },
{
    if confirmation_matches(&first, second) {
        PasswordSetup::Store(hashed_password_line(first))
    } else {
        PasswordSetup::Retry
    }
}

/// The password file must be (re)created when it could not be opened or
/// when a new password was asked for.
pub fn must_create_pwfile(file_opened: bool, force_create: bool) -> (r: bool)
    ensures
        r == (!file_opened || force_create),
{
    !file_opened || force_create
}


/// The UTF-8 encoding of a concatenation is the concatenation of the
/// encodings.
pub proof fn lemma_encode_utf8_concat(a: Seq<char>, b: Seq<char>)
    ensures
        encode_utf8(a + b) == encode_utf8(a) + encode_utf8(b),
    decreases a.len(),
{
    if a.len() == 0 {
        assert(a + b =~= b);
        assert(encode_utf8(a) + encode_utf8(b) =~= encode_utf8(b));
    } else {
        assert((a + b).drop_first() =~= a.drop_first() + b);
        assert((a + b)[0] == a[0]);
        lemma_encode_utf8_concat(a.drop_first(), b);
        assert(encode_utf8(a + b) =~= encode_utf8(a) + encode_utf8(b));
    }
}

/// A line that ends in an ASCII character (such as the line break) yields
/// as password the line without that character.
pub proof fn lemma_password_drops_line_break(line: Seq<char>)
    requires
        line.len() > 0,
        (line.last() as u32) <= 0x7f,
    ensures
        line_is_password(line),
        password_of_line(line) == line.drop_last(),
{
    let init = line.drop_last();
    let c = line.last();
    assert(line =~= init + seq![c]);
    lemma_encode_utf8_concat(init, seq![c]);
    assert(seq![c].drop_first() =~= Seq::<char>::empty());
    assert(encode_utf8(Seq::<char>::empty()) =~= Seq::<u8>::empty());
    assert(seq![c][0] == c);
    assert(encode_utf8(seq![c]) =~= encode_scalar(c as u32));
    assert(encode_scalar(c as u32).len() == 1);
    assert(without_last_byte(encode_utf8(line)) =~= encode_utf8(init));
}

/// An empty line (end of input) yields the empty password.
pub proof fn lemma_empty_line_empty_password()
    ensures
        line_is_password(Seq::<char>::empty()),
        password_of_line(Seq::<char>::empty()) == Seq::<char>::empty(),
{
    assert(encode_utf8(Seq::<char>::empty()) =~= Seq::<u8>::empty());
    encode_utf8_decode_utf8(Seq::<char>::empty());
}

} // verus!
