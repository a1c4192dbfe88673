use rlock::config::{
    color_names, config_fields, create_color_map, create_default_config, getvalue,
    parse_contents, CONFIG_HEADER_LEN, CONFIG_MSG,
};

fn assert_default(m: &std::collections::HashMap<u32, String>) {
    assert_eq!(m.len(), 3);
    assert_eq!(m.get(&0).unwrap(), "black");
    assert_eq!(m.get(&1).unwrap(), "#006400");
    assert_eq!(m.get(&2).unwrap(), "#8B0000");
}

fn config_file(body: &str) -> String {
    let mut s = String::from(&CONFIG_MSG[1..]);
    s.push_str(body);
    s
}

#[test]
fn header_length_is_message_minus_one() {
    assert_eq!(CONFIG_MSG.len() - 1, CONFIG_HEADER_LEN);
    assert_eq!(CONFIG_HEADER_LEN, 172);
}

#[test]
fn color_map_holds_three_slots() {
    let m = create_color_map("white", "blue", "red");
    assert_eq!(m.len(), 3);
    assert_eq!(m.get(&0).unwrap(), "white");
    assert_eq!(m.get(&1).unwrap(), "blue");
    assert_eq!(m.get(&2).unwrap(), "red");
}

#[test]
fn default_config_colors() {
    let m = create_default_config();
    assert_eq!(m.len(), 3);
    assert_eq!(m.get(&0).unwrap(), "black");
    assert_eq!(m.get(&1).unwrap(), "#006400");
    assert_eq!(m.get(&2).unwrap(), "#8B0000");
}

#[test]
fn parse_reads_second_fourth_sixth_words() {
    let m = parse_contents(config_file("init: white\ninput: #0000FF\nfailed: orange\n"));
    assert_eq!(m.len(), 3);
    assert_eq!(m.get(&0).unwrap(), "white");
    assert_eq!(m.get(&1).unwrap(), "#0000FF");
    assert_eq!(m.get(&2).unwrap(), "orange");
}

#[test]
fn parse_ignores_words_after_the_sixth() {
    let m = parse_contents(config_file("a  b\tc\n d e f g h"));
    assert_eq!(m.get(&0).unwrap(), "b");
    assert_eq!(m.get(&1).unwrap(), "d");
    assert_eq!(m.get(&2).unwrap(), "f");
}

#[test]
fn parse_splits_on_unicode_white_space() {
    let m = parse_contents(config_file("a\u{3000}b\u{a0}c\u{2028}d\u{85}e\u{1680}f"));
    assert_eq!(m.get(&0).unwrap(), "b");
    assert_eq!(m.get(&1).unwrap(), "d");
    assert_eq!(m.get(&2).unwrap(), "f");
}

#[test]
fn parse_short_body_gives_default() {
    let m = parse_contents(config_file("init: white\ninput: blue\nfailed:"));
    assert_eq!(m.get(&0).unwrap(), "black");
    assert_eq!(m.get(&1).unwrap(), "#006400");
    assert_eq!(m.get(&2).unwrap(), "#8B0000");
}

#[test]
fn parse_header_only_gives_default() {
    let m = parse_contents(config_file(""));
    assert_eq!(m.get(&0).unwrap(), "black");
    assert_eq!(m.len(), 3);
}

#[test]
fn parse_cuts_by_bytes_not_characters() {
    // Header text is not checked: only its length counts. With a two-byte
    // character early on, the cut falls one character earlier.
    let mut s = String::from("é");
    s.push_str(&CONFIG_MSG[3..]);
    s.push_str("x a y b z c");
    let fields = config_fields(&s).unwrap();
    assert_eq!(fields, ("a".to_string(), "b".to_string(), "c".to_string()));
}

#[test]
fn config_fields_none_when_few_words() {
    assert_eq!(config_fields(&config_file("one two three")), None);
    assert_eq!(
        config_fields(&config_file("1 2 3 4 5 6")),
        Some(("2".to_string(), "4".to_string(), "6".to_string()))
    );
}

#[test]
fn empty_file_gives_default() {
    assert_default(&parse_contents(String::new()));
    assert_eq!(config_fields(""), None);
}

#[test]
fn file_shorter_than_header_gives_default() {
    assert_default(&parse_contents("init red input blue failed green".to_string()));
}

#[test]
fn character_across_cut_gives_default() {
    let mut s = String::from(&CONFIG_MSG[2..]);
    s.push('é');
    s.push_str(" a b c d e f g");
    assert_eq!(config_fields(&s), None);
    assert_default(&parse_contents(s));
}

#[test]
fn white_space_runs_do_not_matter() {
    let a = parse_contents(config_file("init: white\ninput: blue\nfailed: red"));
    let b = parse_contents(config_file("init:\t\t white \u{3000}input:  blue\r\n\nfailed:\u{a0}red"));
    assert_eq!(a, b);
}

#[test]
fn appended_words_do_not_matter() {
    let a = parse_contents(config_file("init: white\ninput: blue\nfailed: red"));
    let b = parse_contents(config_file("init: white\ninput: blue\nfailed: red\nextra: pink more"));
    assert_eq!(a, b);
}

#[test]
fn getvalue_present_and_absent() {
    let m = create_color_map("a", "b", "c");
    assert_eq!(getvalue(0, m.clone()), "a");
    assert_eq!(getvalue(2, m.clone()), "c");
    assert_eq!(getvalue(3, m), "");
}

#[test]
fn color_names_in_slot_order() {
    let m = create_color_map("x", "y", "z");
    assert_eq!(color_names(&m), vec!["x".to_string(), "y".to_string(), "z".to_string()]);
    let mut partial = std::collections::HashMap::new();
    partial.insert(1u32, "only".to_string());
    assert_eq!(color_names(&partial), vec!["".to_string(), "only".to_string(), "".to_string()]);
}
