use op_cache::text;

fn every_char() -> Vec<char> {
    (0..=0x10ffffu32).filter_map(char::from_u32).collect()
}

fn strings(list: &[&str]) -> Vec<String> {
    list.iter().map(|s| s.to_string()).collect()
}

#[test]
fn white_space_is_what_unicode_says() {
    for c in every_char() {
        assert_eq!(text::is_white(c), c.is_whitespace(), "{:?}", c);
    }
}

#[test]
fn control_characters_are_what_unicode_says() {
    for c in every_char() {
        assert_eq!(text::is_control(c), c.is_control(), "{:?}", c);
    }
}

#[test]
fn texts_compare_like_strings() {
    let samples = ["", "a", "ab", "b", "é", "e", "\u{ffff}", "\u{10000}", "op://", "op://v"];
    for a in samples {
        for b in samples {
            assert_eq!(text::same(a, b), a == b);
            assert_eq!(text::is_before(a, b), a < b);
            assert_eq!(text::starts_with(a, b), a.starts_with(b));
        }
    }
}

#[test]
fn texts_are_trimmed_and_cut_like_strings() {
    for s in ["", " ", "a", "  a b\t\n", "\u{3000}x\u{a0}", "a\r\nb\n", "\n", "\n\n", "a\nb", "a\r"] {
        assert_eq!(text::trim(s), s.trim());
        assert_eq!(text::lines(s), s.lines().map(String::from).collect::<Vec<String>>());
        assert_eq!(
            text::split(s, '\n'),
            s.split('\n').map(String::from).collect::<Vec<String>>()
        );
    }
}

#[test]
fn texts_are_put_together() {
    assert_eq!(text::join(&strings(&["a", "b", "c"]), "\u{1f}"), "a\u{1f}b\u{1f}c");
    assert_eq!(text::join(&strings(&["a"]), ", "), "a");
    assert_eq!(text::join(&[], ", "), "");
    assert_eq!(text::pad("ab", 5), "ab   ");
    assert_eq!(text::pad("abcdef", 5), "abcdef");
    assert_eq!(text::repeat('─', 3), "───");
    assert_eq!(text::replace("a\u{1f}b\u{1f}", '\u{1f}', ' '), "a b ");
}

#[test]
fn numbers_are_written_in_decimal() {
    for n in [0, 7, 10, 99, 100, 4294967295, u64::MAX] {
        assert_eq!(text::number(n), n.to_string());
    }
}
