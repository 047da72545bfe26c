use playback_status::text::{
    compare_bytes, compare_text, eq_ignore_ascii_case, find, same_text, strip_suffix, take_before,
    to_ascii_lower, to_chars, to_decimal, trim, white_space, Precedence,
};

#[test]
fn decimal_has_no_leading_zeros() {
    assert_eq!(to_decimal(0), "0");
    assert_eq!(to_decimal(7), "7");
    assert_eq!(to_decimal(10), "10");
    assert_eq!(to_decimal(1_700_000_000), "1700000000");
    assert_eq!(to_decimal(u64::MAX), "18446744073709551615");
    for n in [0u64, 9, 99, 100, 101, 4_294_967_295, 4_294_967_296] {
        assert_eq!(to_decimal(n), n.to_string());
    }
}

#[test]
fn bytes_are_ordered_like_slices() {
    let samples: [&[u8]; 7] = [b"", b"a", b"ab", b"b", b"\xff", b"a\x00", b"B"];
    for a in samples {
        for b in samples {
            let expected = match a.cmp(b) {
                std::cmp::Ordering::Less => Precedence::Before,
                std::cmp::Ordering::Equal => Precedence::Same,
                std::cmp::Ordering::Greater => Precedence::After,
            };
            assert_eq!(compare_bytes(a, b), expected, "{:?} {:?}", a, b);
        }
    }
}

#[test]
fn text_is_ordered_like_strings() {
    let samples = ["", "a", "A", "é", "e", "zz", "z", "😀", "track[1]", "track[10]"];
    for a in samples {
        for b in samples {
            let expected = match a.cmp(b) {
                std::cmp::Ordering::Less => Precedence::Before,
                std::cmp::Ordering::Equal => Precedence::Same,
                std::cmp::Ordering::Greater => Precedence::After,
            };
            assert_eq!(compare_text(a, b), expected, "{:?} {:?}", a, b);
            assert_eq!(same_text(a, b), a == b);
        }
    }
}

#[test]
fn trim_takes_off_unicode_white_space() {
    assert_eq!(trim("  a b \n"), "a b");
    assert_eq!(trim(""), "");
    assert_eq!(trim(" \t\r\n"), "");
    assert_eq!(trim("x"), "x");
    assert_eq!(trim("\u{2003}é\u{205f}"), "é");
    assert_eq!(trim("\u{200b}x"), "\u{200b}x");
    for sample in ["  a b \n", "", " \u{85}y\u{a0} ", "\u{1680}\u{2028}\u{2029}\u{202f}z", "\u{180e}w"] {
        assert_eq!(trim(sample), sample.trim(), "{:?}", sample);
    }
}

#[test]
fn white_space_is_what_char_says() {
    for code in 0..0x3100u32 {
        if let Some(c) = char::from_u32(code) {
            assert_eq!(white_space(c), c.is_whitespace(), "{:x}", code);
        }
    }
    assert!(!white_space('\u{feff}'));
    assert!(!white_space('😀'));
}

#[test]
fn ascii_case_folding() {
    for code in 0..0x250u32 {
        if let Some(c) = char::from_u32(code) {
            assert_eq!(to_ascii_lower(c), c.to_ascii_lowercase(), "{:x}", code);
        }
    }
    assert!(eq_ignore_ascii_case("Hello, World", "hELLO, wORLD"));
    assert!(!eq_ignore_ascii_case("Hello", "Hello "));
    assert!(!eq_ignore_ascii_case("Straße", "STRASSE"));
    assert!(eq_ignore_ascii_case("", ""));
}

#[test]
fn suffixes() {
    assert_eq!(strip_suffix("Song - Single", " - Single"), "Song");
    assert_eq!(strip_suffix("Song - Single", " - EP"), "Song - Single");
    assert_eq!(strip_suffix(" - EP", " - EP"), "");
    assert_eq!(strip_suffix("EP", " - EP"), "EP");
    assert_eq!(strip_suffix("é - EP", " - EP"), "é");
    assert_eq!(strip_suffix("x", ""), "x");
    assert_eq!(strip_suffix("", ""), "");
}

#[test]
fn finding_patterns() {
    let text = to_chars("a, b, c");
    assert_eq!(text.len(), 7);
    assert_eq!(find(&text, &to_chars(", ")), Some(1));
    assert_eq!(find(&text, &to_chars("c")), Some(6));
    assert_eq!(find(&text, &to_chars("d")), None);
    assert_eq!(find(&text, &to_chars("")), Some(0));
    assert_eq!(find(&text, &to_chars("a, b, c")), Some(0));
    assert_eq!(find(&text, &to_chars("a, b, c ")), None);
    assert_eq!(find(&to_chars(""), &to_chars("")), Some(0));
    assert_eq!(find(&to_chars("éé & x"), &to_chars(" & ")), Some(2));
    assert_eq!(take_before("éé & x", " & "), ("éé", true));
    assert_eq!(take_before("plain", " & "), ("plain", false));
    assert_eq!(take_before("aab", "ab"), ("a", true));
}
