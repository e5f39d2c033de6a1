use riceathon::text::{
    among, chars_of, contains_text, decimal_text, find_char, is_white_space, join, same_text, trim,
};

fn strings(list: &[&str]) -> Vec<String> {
    list.iter().map(|s| s.to_string()).collect()
}

#[test]
fn white_space_is_what_the_standard_library_says() {
    for code in 0..=0x10ffffu32 {
        if let Some(c) = char::from_u32(code) {
            assert_eq!(is_white_space(c), c.is_whitespace(), "U+{code:04X}");
        }
    }
}

#[test]
fn trimming_takes_only_the_outside() {
    for s in [
        "",
        " ",
        "\u{3000}\n\t",
        "a",
        "  a b  ",
        "a \u{2003}",
        "\u{a0}ä ö\r\n",
        "\u{200b}a\u{200b}",
    ] {
        assert_eq!(trim(s), s.trim());
    }
}

#[test]
fn characters_come_in_order() {
    assert_eq!(chars_of("a→é"), vec!['a', '→', 'é']);
    assert_eq!(chars_of(""), Vec::<char>::new());
}

#[test]
fn a_character_is_found_in_its_range() {
    let v = chars_of("a|b|c");
    assert_eq!(find_char(&v, 0, 5, '|'), 1);
    assert_eq!(find_char(&v, 2, 5, '|'), 3);
    assert_eq!(find_char(&v, 2, 3, '|'), 3);
}

#[test]
fn text_is_found_anywhere() {
    assert!(contains_text("my-nixos", "nix"));
    assert!(contains_text("nix", "nix"));
    assert!(contains_text("ninix", "nix"));
    assert!(contains_text("anything", ""));
    assert!(!contains_text("ni", "nix"));
    assert!(!contains_text("n-i-x", "nix"));
    assert!(!contains_text("", "nix"));
}

#[test]
fn texts_are_compared_by_character() {
    assert!(same_text("U1", "U1"));
    assert!(!same_text("U1", "u1"));
    assert!(!same_text("U1", "U12"));
    assert!(among(&strings(&["a", "b"]), "b"));
    assert!(!among(&strings(&["a", "b"]), "ab"));
    assert!(!among(&strings(&[]), ""));
}

#[test]
fn joining_puts_the_separator_between() {
    assert_eq!(join(&strings(&[]), ", "), "");
    assert_eq!(join(&strings(&["a"]), ", "), "a");
    assert_eq!(join(&strings(&["a", "", "c"]), ", "), "a, , c");
}

#[test]
fn numbers_are_written_in_decimal() {
    for n in [0u64, 9, 10, 11, 99, 100, 1_000_000, u64::MAX] {
        assert_eq!(decimal_text(n), n.to_string());
    }
}
