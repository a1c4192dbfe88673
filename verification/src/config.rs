//! The colour configuration: the map from colour slot to colour name, and
//! the parser of the configuration file.
use std::collections::HashMap;
use vstd::prelude::*;
use vstd::string::*;
use vstd::utf8::*;
use crate::password::lemma_encode_utf8_concat;

verus! {

broadcast use {vstd::std_specs::hash::group_hash_axioms, vstd::string::group_string_axioms};

/// The header line that the configuration file starts with.
pub const CONFIG_MSG: &'static str = "\nDo not edit/remove this line. Change color for each screen by editing only the right hand side of following lines. If file is not parseable, will revert to default config.\n";

/// The number of bytes of the file that the header takes: the header
/// without its leading line break.
pub const CONFIG_HEADER_LEN: usize = 172;

/// Colour slot of the idle lock screen.
pub const SLOT_INIT: u32 = 0;

/// Colour slot while a password is being typed.
pub const SLOT_INPUT: u32 = 1;

/// Colour slot after a wrong password.
pub const SLOT_FAILED: u32 = 2;

/// `m` maps exactly the three colour slots, to `init`, `input` and `failed`.
pub open spec fn holds_colors(
    m: Map<u32, String>,
    init: Seq<char>,
    input: Seq<char>,
    failed: Seq<char>,
) -> bool {
    &&& m.dom() =~= set![SLOT_INIT, SLOT_INPUT, SLOT_FAILED]
    &&& m[SLOT_INIT]@ == init
    &&& m[SLOT_INPUT]@ == input
    &&& m[SLOT_FAILED]@ == failed
}

/// The colours used when no configuration can be read.
pub open spec fn default_colors() -> (Seq<char>, Seq<char>, Seq<char>) {
    ("black"@, "#006400"@, "#8B0000"@)
}

/// Builds the map of the three colour slots.
pub fn create_color_map(init: &str, input: &str, failed: &str) -> (m: HashMap<u32, String>)
    ensures
        holds_colors(m@, init@, input@, failed@),
{
    let mut m: HashMap<u32, String> = HashMap::new();
    m.insert(SLOT_INIT, init.to_string());
    m.insert(SLOT_INPUT, input.to_string());
    m.insert(SLOT_FAILED, failed.to_string());
    m
}

/// The default colours: black, dark green while typing, dark red after a
/// failure.
pub fn create_default_config() -> (m: HashMap<u32, String>)
    ensures
        holds_colors(m@, default_colors().0, default_colors().1, default_colors().2),
{
    create_color_map("black", "#006400", "#8B0000")
}


/// Unicode `White_Space`, the property by which `char::is_whitespace` and
/// `str::split_whitespace` decide what separates words.
pub open spec fn is_white_space(c: char) -> bool {
    let u = c as u32;
    ||| 0x09 <= u <= 0x0d
    ||| u == 0x20
    ||| u == 0x85
    ||| u == 0xa0
    ||| u == 0x1680
    ||| 0x2000 <= u <= 0x200a
    ||| u == 0x2028
    ||| u == 0x2029
    ||| u == 0x202f
    ||| u == 0x205f
    ||| u == 0x3000
}

/// The number of characters before the first white space in `s`.
pub open spec fn word_len(s: Seq<char>) -> nat
    decreases s.len(),
{
    if s.len() == 0 || is_white_space(s[0]) {
        0
    } else {
        1 + word_len(s.drop_first())
    }
}

/// A word is never longer than the text, and a text that starts with a
/// character that is not white space has a word of at least one character.
pub proof fn lemma_word_len_bounds(s: Seq<char>)
    ensures
        word_len(s) <= s.len(),
        s.len() > 0 && !is_white_space(s[0]) ==> word_len(s) >= 1,
    decreases s.len(),
{
    if s.len() > 0 && !is_white_space(s[0]) {
        lemma_word_len_bounds(s.drop_first());
    }
}

/// The words of `s`: its maximal runs of characters that are not white
/// space, in order.
pub open spec fn words(s: Seq<char>) -> Seq<Seq<char>>
    decreases s.len(),
{
    if s.len() == 0 {
        seq![]
    } else if is_white_space(s[0]) {
        words(s.drop_first())
    } else {
        let n = word_len(s);
        proof {
            lemma_word_len_bounds(s);
        }
        seq![s.take(n as int)] + words(s.skip(n as int))
    }
}

/// Calls `str::split_whitespace` and collects the words it yields.
/// The contract claims what std's documentation states: the words are the
/// non-empty sub-slices separated by runs of Unicode `White_Space`, in order.
#[verifier::external_body]
fn split_whitespace(s: &str) -> (ws: Vec<String>)
    ensures
        ws@.len() == words(s@).len(),
        forall|i: int| 0 <= i < ws@.len() ==> #[trigger] ws@[i]@ == words(s@)[i],
{
    let mut ws = Vec::new();
    for w in s.split_whitespace() {
        ws.push(w.to_string());
    }
    ws
}

/// The text of a configuration file after its header: the bytes from
/// [`CONFIG_HEADER_LEN`] on, decoded.
pub open spec fn config_body(contents: Seq<char>) -> Seq<char> {
    let bytes = encode_utf8(contents);
    decode_utf8(bytes.subrange(CONFIG_HEADER_LEN as int, bytes.len() as int))
}

/// The file can be cut after its header: [`CONFIG_HEADER_LEN`] is a
/// character boundary of its UTF-8 bytes (and not beyond their end).
pub open spec fn header_fits(contents: Seq<char>) -> bool {
    is_char_boundary(encode_utf8(contents), CONFIG_HEADER_LEN as int)
}

/// The three colour names of a configuration file: the second, fourth and
/// sixth words after the header, when the file can be cut after its header
/// and holds at least six words there; `None` for a file that cannot be
/// parsed so.
pub open spec fn config_colors(contents: Seq<char>) -> Option<(Seq<char>, Seq<char>, Seq<char>)> {
    let ws = words(config_body(contents));
    if header_fits(contents) && ws.len() >= 6 {
        Some((ws[1], ws[3], ws[5]))
    } else {
        None
    }
}


/// The header is plain ASCII, so its byte length is its character count.
pub proof fn lemma_header_len()
    ensures
        CONFIG_MSG.spec_bytes().len() == CONFIG_HEADER_LEN + 1,
{
    reveal_strlit("\nDo not edit/remove this line. Change color for each screen by editing only the right hand side of following lines. If file is not parseable, will revert to default config.\n");
    assert(CONFIG_MSG@.len() == 173);
    assert(is_ascii_chars(CONFIG_MSG@));
    is_ascii_chars_encode_utf8(CONFIG_MSG@);
}


/// The three colour names of a configuration file: `Some` with the second,
/// fourth and sixth words after the header when there are at least six,
/// else `None` (also for a file too short to be cut after its header, or
/// with a character across the cut).
pub fn config_fields(contents: &str) -> (r: Option<(String, String, String)>)
    ensures
        match r {
            Some((init, input, failed)) => config_colors(contents@) == Some(
                (init@, input@, failed@),
            ),
            None => config_colors(contents@) is None,
        },
{
    proof {
        lemma_header_len();
    }
    let at = CONFIG_MSG.len() - 1;
    if !contents.is_char_boundary(at) {
        return None;
    }
    let (_, body) = contents.split_at(at);
    proof {
        encode_utf8_decode_utf8(body@);
        assert(body@ == config_body(contents@));
    }
    let ws = split_whitespace(body);
    if ws.len() >= 6 {
        Some((ws[1].clone(), ws[3].clone(), ws[5].clone()))
    } else {
        None
    }
}

/// Reads the colour map from the contents of a configuration file: the
/// three colour names that follow the header, or the default colours when
/// the file cannot be parsed (fewer than six words after its header, or no
/// room for the header).
pub fn parse_contents(contents: String) -> (m: HashMap<u32, String>)
    ensures
        match config_colors(contents@) {
            Some((init, input, failed)) => holds_colors(m@, init, input, failed),
            None => holds_colors(
                m@,
                default_colors().0,
                default_colors().1,
                default_colors().2,
            ),
        },
{
    match config_fields(contents.as_str()) {
        Some((init, input, failed)) => create_color_map(init.as_str(), input.as_str(), failed.as_str()),
        None => create_default_config(),
    }
}

/// The colour name that `m` gives `key`, or the empty text when it gives
/// none.
pub open spec fn slot_value(m: Map<u32, String>, key: u32) -> Seq<char> {
    if m.contains_key(key) {
        m[key]@
    } else {
        Seq::empty()
    }
}

/// The colour name of a slot, or the empty string when the map has none.
pub fn getvalue(key: u32, map: HashMap<u32, String>) -> (v: String)
    ensures
        v@ == slot_value(map@, key),
{
    match map.get(&key) {
        Some(value) => value.clone(),
        None => String::new(),
    }
}

/// The colour names of the three slots, in slot order, as the lock screen
/// allocates them.
pub fn color_names(colors: &HashMap<u32, String>) -> (names: Vec<String>)
    ensures
        names@.len() == 3,
        forall|i: int|
            0 <= i < 3 ==> #[trigger] names@[i]@ == slot_value(colors@, i as u32),
{
    let mut names: Vec<String> = Vec::new();
    let mut slot: u32 = 0;
    while slot < 3
        invariant
            slot <= 3,
            names@.len() == slot,
            forall|i: int|
                0 <= i < slot ==> #[trigger] names@[i]@ == slot_value(colors@, i as u32),
        decreases 3 - slot,
    {
        names.push(getvalue(slot, colors.clone()));
        slot = slot + 1;
    }
    names
}


/// A colour map that was built from three names gives back each name for
/// its slot, and the empty text for any other key.
pub proof fn lemma_slot_values(m: Map<u32, String>, init: Seq<char>, input: Seq<char>, failed: Seq<char>, key: u32)
    requires
        holds_colors(m, init, input, failed),
    ensures
        slot_value(m, SLOT_INIT) == init,
        slot_value(m, SLOT_INPUT) == input,
        slot_value(m, SLOT_FAILED) == failed,
        key > SLOT_FAILED ==> slot_value(m, key) == Seq::<char>::empty(),
{
    assert(m.dom().contains(SLOT_INIT));
    assert(m.dom().contains(SLOT_INPUT));
    assert(m.dom().contains(SLOT_FAILED));
    if key > SLOT_FAILED {
        assert(!set![SLOT_INIT, SLOT_INPUT, SLOT_FAILED].contains(key));
    }
}

/// Whatever a configuration file holds, the colour map read from it maps
/// exactly the three colour slots.
pub proof fn lemma_parsed_map_has_three_slots(contents: Seq<char>, m: Map<u32, String>)
    requires
        match config_colors(contents) {
            Some((init, input, failed)) => holds_colors(m, init, input, failed),
            None => holds_colors(m, default_colors().0, default_colors().1, default_colors().2),
        },
    ensures
        m.dom() == set![SLOT_INIT, SLOT_INPUT, SLOT_FAILED],
{
}


/// Every character of `s` is white space.
pub open spec fn all_white_space(s: Seq<char>) -> bool {
    forall|i: int| 0 <= i < s.len() ==> is_white_space(#[trigger] s[i])
}

/// A word that reaches the end of `a` runs on into `c`.
pub proof fn lemma_word_len_concat(a: Seq<char>, c: Seq<char>)
    ensures
        word_len(a + c) == if word_len(a) < a.len() {
            word_len(a)
        } else {
            a.len() + word_len(c)
        },
    decreases a.len(),
{
    lemma_word_len_bounds(a);
    if a.len() == 0 {
        assert(a + c =~= c);
    } else {
        assert((a + c)[0] == a[0]);
        if !is_white_space(a[0]) {
            assert((a + c).drop_first() =~= a.drop_first() + c);
            lemma_word_len_concat(a.drop_first(), c);
        }
    }
}

/// Leading white space does not change the words.
pub proof fn lemma_words_skip_white_space(sep: Seq<char>, b: Seq<char>)
    requires
        all_white_space(sep),
    ensures
        words(sep + b) == words(b),
    decreases sep.len(),
{
    if sep.len() == 0 {
        assert(sep + b =~= b);
    } else {
        assert((sep + b)[0] == sep[0]);
        assert((sep + b).drop_first() =~= sep.drop_first() + b);
        assert(all_white_space(sep.drop_first())) by {
            assert forall|i: int| 0 <= i < sep.drop_first().len() implies is_white_space(
                #[trigger] sep.drop_first()[i],
            ) by {
                assert(sep.drop_first()[i] == sep[i + 1]);
            }
        }
        lemma_words_skip_white_space(sep.drop_first(), b);
    }
}

/// Words on both sides of a run of white space stay apart: the words of
/// `a + sep + b` are the words of `a` followed by the words of `b`.
pub proof fn lemma_words_concat(a: Seq<char>, sep: Seq<char>, b: Seq<char>)
    requires
        sep.len() > 0,
        all_white_space(sep),
    ensures
        words(a + sep + b) == words(a) + words(b),
    decreases a.len(),
{
    let whole = a + sep + b;
    if a.len() == 0 {
        assert(whole =~= sep + b);
        lemma_words_skip_white_space(sep, b);
        assert(words(a) =~= Seq::<Seq<char>>::empty());
        assert(words(a) + words(b) =~= words(b));
    } else if is_white_space(a[0]) {
        assert(whole[0] == a[0]);
        assert(whole.drop_first() =~= a.drop_first() + sep + b);
        lemma_words_concat(a.drop_first(), sep, b);
    } else {
        assert(whole[0] == a[0]);
        let n = word_len(a);
        lemma_word_len_bounds(a);
        assert(whole =~= a + (sep + b));
        assert((sep + b)[0] == sep[0]);
        assert(is_white_space(sep[0]));
        assert(word_len(sep + b) == 0);
        lemma_word_len_concat(a, sep + b);
        assert(word_len(whole) == n);
        assert(whole.take(n as int) =~= a.take(n as int));
        assert(whole.skip(n as int) =~= a.skip(n as int) + sep + b);
        lemma_words_concat(a.skip(n as int), sep, b);
        assert(words(whole) =~= seq![a.take(n as int)] + (words(a.skip(n as int)) + words(b)));
        assert(words(a) =~= seq![a.take(n as int)] + words(a.skip(n as int)));
        assert(words(whole) =~= words(a) + words(b));
    }
}

/// Two runs of white space separate words alike, whatever characters they
/// are made of and however long they are.
pub proof fn lemma_separators_interchangeable(
    a: Seq<char>,
    sep1: Seq<char>,
    sep2: Seq<char>,
    b: Seq<char>,
)
    requires
        sep1.len() > 0,
        all_white_space(sep1),
        sep2.len() > 0,
        all_white_space(sep2),
    ensures
        words(a + sep1 + b) == words(a + sep2 + b),
{
    lemma_words_concat(a, sep1, b);
    lemma_words_concat(a, sep2, b);
}

proof fn lemma_boundary_concat(x: Seq<u8>, y: Seq<u8>, i: int)
    requires
        valid_utf8(x),
        valid_utf8(y),
        is_char_boundary(x, i),
    ensures
        valid_utf8(x + y),
        is_char_boundary(x + y, i),
{
    valid_utf8_concat(x, y);
    if i == 0 {
    } else if i < x.len() {
        is_char_boundary_iff_not_is_continuation_byte(x, i);
        assert((x + y)[i] == x[i]);
        is_char_boundary_iff_not_is_continuation_byte(x + y, i);
    } else {
        assert(i == x.len()) by {
            reveal_with_fuel(is_char_boundary, 1);
            if i > x.len() {
                assert(!is_char_boundary(x, i));
            }
        }
        if y.len() == 0 {
            assert(x + y =~= x);
        } else {
            is_char_boundary_start_end_of_seq(y);
            is_char_boundary_iff_not_is_continuation_byte(y, 0);
            assert((x + y)[i] == y[0]);
            is_char_boundary_iff_not_is_continuation_byte(x + y, i);
        }
    }
}

/// Text added to the end of a file that can be cut after its header is
/// added to the end of its body, and the file can still be cut.
pub proof fn lemma_body_append(p: Seq<char>, t: Seq<char>)
    requires
        header_fits(p),
    ensures
        header_fits(p + t),
        config_body(p + t) == config_body(p) + t,
{
    let e = encode_utf8(p);
    let f = encode_utf8(t);
    let h = CONFIG_HEADER_LEN as int;
    lemma_encode_utf8_concat(p, t);
    encode_utf8_valid_utf8(p);
    encode_utf8_valid_utf8(t);
    lemma_boundary_concat(e, f, h);
    let x = e.subrange(h, e.len() as int);
    valid_utf8_split(e, h);
    assert(0 <= h <= e.len()) by {
        reveal_with_fuel(is_char_boundary, 1);
        if h > e.len() {
            assert(!is_char_boundary(e, h));
        }
    }
    assert((e + f).subrange(h, (e + f).len() as int) =~= x + f);
    is_char_boundary_start_end_of_seq(x);
    lemma_boundary_concat(x, f, x.len() as int);
    decode_utf8_split(x + f, x.len() as int);
    assert((x + f).subrange(0, x.len() as int) =~= x);
    assert((x + f).subrange(x.len() as int, (x + f).len() as int) =~= f);
    encode_utf8_decode_utf8(t);
}

/// A file too short to hold the header, or with a character across the
/// cut after it, cannot be parsed, and so gives the default colours; an
/// empty file is one of them.
pub proof fn lemma_unparseable_files(contents: Seq<char>)
    ensures
        !header_fits(contents) ==> config_colors(contents) is None,
        config_colors(Seq::<char>::empty()) is None,
{
    assert(encode_utf8(Seq::<char>::empty()) =~= Seq::<u8>::empty());
    assert(!is_char_boundary(Seq::<u8>::empty(), CONFIG_HEADER_LEN as int));
}

/// Replacing a run of white space after the header by another one leaves
/// the colours read from the file unchanged.
pub proof fn lemma_white_space_runs_ignored(
    p: Seq<char>,
    sep1: Seq<char>,
    sep2: Seq<char>,
    q: Seq<char>,
)
    requires
        header_fits(p),
        sep1.len() > 0,
        all_white_space(sep1),
        sep2.len() > 0,
        all_white_space(sep2),
    ensures
        config_colors(p + sep1 + q) == config_colors(p + sep2 + q),
{
    assert(p + sep1 + q =~= p + (sep1 + q));
    assert(p + sep2 + q =~= p + (sep2 + q));
    lemma_body_append(p, sep1 + q);
    lemma_body_append(p, sep2 + q);
    assert(config_body(p) + (sep1 + q) =~= config_body(p) + sep1 + q);
    assert(config_body(p) + (sep2 + q) =~= config_body(p) + sep2 + q);
    lemma_separators_interchangeable(config_body(p), sep1, sep2, q);
}

/// Words appended after the sixth one, behind white space, leave the
/// colours read from the file unchanged.
pub proof fn lemma_appended_words_ignored(c: Seq<char>, sep: Seq<char>, extra: Seq<char>)
    requires
        header_fits(c),
        words(config_body(c)).len() >= 6,
        sep.len() > 0,
        all_white_space(sep),
    ensures
        config_colors(c + sep + extra) == config_colors(c),
{
    assert(c + sep + extra =~= c + (sep + extra));
    lemma_body_append(c, sep + extra);
    assert(config_body(c) + (sep + extra) =~= config_body(c) + sep + extra);
    lemma_words_concat(config_body(c), sep, extra);
    let w = words(config_body(c));
    assert((w + words(extra))[1] == w[1]);
    assert((w + words(extra))[3] == w[3]);
    assert((w + words(extra))[5] == w[5]);
}


/// A word as a configuration file holds it: at least one character, none
/// of them white space.
pub open spec fn is_word(w: Seq<char>) -> bool {
    w.len() > 0 && forall|i: int| 0 <= i < w.len() ==> !is_white_space(#[trigger] w[i])
}

/// A separator between words: at least one character, all white space.
pub open spec fn is_separator(s: Seq<char>) -> bool {
    s.len() > 0 && all_white_space(s)
}

/// A single word is the one word of its text.
pub proof fn lemma_single_word(w: Seq<char>)
    requires
        is_word(w),
    ensures
        words(w) == seq![w],
{
    assert forall|k: int| 0 <= k <= w.len() implies word_len(w.skip(k)) == w.len() - k by {
        lemma_word_len_suffix(w, k);
    }
    assert(w.skip(0) =~= w);
    assert(word_len(w) == w.len());
    assert(w.take(w.len() as int) =~= w);
    assert(w.skip(w.len() as int) =~= Seq::<char>::empty());
    assert(words(Seq::<char>::empty()) =~= Seq::<Seq<char>>::empty());
    assert(words(w) =~= seq![w]);
}

proof fn lemma_word_len_suffix(w: Seq<char>, k: int)
    requires
        is_word(w),
        0 <= k <= w.len(),
    ensures
        word_len(w.skip(k)) == w.len() - k,
    decreases w.len() - k,
{
    if k < w.len() {
        let rest = w.skip(k);
        assert(rest[0] == w[k]);
        assert(rest.drop_first() =~= w.skip(k + 1));
        lemma_word_len_suffix(w, k + 1);
    } else {
        assert(w.skip(k).len() == 0);
    }
}

/// Adding a separator and a word after some text adds that word to its
/// words.
pub proof fn lemma_words_then_word(a: Seq<char>, sep: Seq<char>, w: Seq<char>)
    requires
        is_separator(sep),
        is_word(w),
    ensures
        words(a + sep + w) == words(a).push(w),
{
    lemma_words_concat(a, sep, w);
    lemma_single_word(w);
    assert(words(a) + seq![w] =~= words(a).push(w));
}

/// White space at the end of a text adds no word.
pub proof fn lemma_trailing_white_space(a: Seq<char>, tail: Seq<char>)
    requires
        all_white_space(tail),
    ensures
        words(a + tail) == words(a),
{
    if tail.len() == 0 {
        assert(a + tail =~= a);
    } else {
        assert(a + tail + Seq::<char>::empty() =~= a + tail);
        lemma_words_concat(a, tail, Seq::<char>::empty());
        assert(words(Seq::<char>::empty()) =~= Seq::<Seq<char>>::empty());
        assert(words(a) + words(Seq::<char>::empty()) =~= words(a));
    }
}

/// The header line, as the file starts with it: the header without its
/// leading line break.
pub open spec fn header_line() -> Seq<char> {
    CONFIG_MSG@.drop_first()
}

/// A file that is just the header line can be cut right after it, and its
/// body is empty.
pub proof fn lemma_header_line()
    ensures
        header_fits(header_line()),
        config_body(header_line()) == Seq::<char>::empty(),
{
    reveal_strlit("\nDo not edit/remove this line. Change color for each screen by editing only the right hand side of following lines. If file is not parseable, will revert to default config.\n");
    assert(CONFIG_MSG@.len() == 173);
    assert(is_ascii_chars(CONFIG_MSG@));
    let h = header_line();
    assert(is_ascii_chars(h)) by {
        assert forall|i: int| 0 <= i < h.len() implies '\0' <= #[trigger] h[i] <= '\u{7f}' by {
            assert(h[i] == CONFIG_MSG@[i + 1]);
        }
    }
    is_ascii_chars_encode_utf8(h);
    let e = encode_utf8(h);
    assert(e.len() == 172);
    encode_utf8_valid_utf8(h);
    is_char_boundary_start_end_of_seq(e);
    assert(e.subrange(172, 172) =~= Seq::<u8>::empty());
    assert(encode_utf8(Seq::<char>::empty()) =~= Seq::<u8>::empty());
    encode_utf8_decode_utf8(Seq::<char>::empty());
}

/// A file made of the header line and then six words separated by white
/// space (and possibly white space at its end) gives as colours its
/// second, fourth and sixth words, whole.
pub proof fn lemma_six_word_file(
    w1: Seq<char>,
    s1: Seq<char>,
    w2: Seq<char>,
    s2: Seq<char>,
    w3: Seq<char>,
    s3: Seq<char>,
    w4: Seq<char>,
    s4: Seq<char>,
    w5: Seq<char>,
    s5: Seq<char>,
    w6: Seq<char>,
    tail: Seq<char>,
)
    requires
        is_word(w1),
        is_word(w2),
        is_word(w3),
        is_word(w4),
        is_word(w5),
        is_word(w6),
        is_separator(s1),
        is_separator(s2),
        is_separator(s3),
        is_separator(s4),
        is_separator(s5),
        all_white_space(tail),
    ensures
        config_colors(
            header_line() + (w1 + s1 + w2 + s2 + w3 + s3 + w4 + s4 + w5 + s5 + w6 + tail),
        ) == Some((w2, w4, w6)),
{
    let t1 = w1;
    let t2 = t1 + s1 + w2;
    let t3 = t2 + s2 + w3;
    let t4 = t3 + s3 + w4;
    let t5 = t4 + s4 + w5;
    let t6 = t5 + s5 + w6;
    let body = t6 + tail;
    assert(body =~= w1 + s1 + w2 + s2 + w3 + s3 + w4 + s4 + w5 + s5 + w6 + tail);
    lemma_single_word(w1);
    lemma_words_then_word(t1, s1, w2);
    lemma_words_then_word(t2, s2, w3);
    lemma_words_then_word(t3, s3, w4);
    lemma_words_then_word(t4, s4, w5);
    lemma_words_then_word(t5, s5, w6);
    lemma_trailing_white_space(t6, tail);
    assert(words(body) =~= seq![w1, w2, w3, w4, w5, w6]);
    lemma_header_line();
    lemma_body_append(header_line(), body);
    assert(Seq::<char>::empty() + body =~= body);
}

} // verus!
