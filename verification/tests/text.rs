use srtui::text::{
    byte_width, characters, equal_ignoring_ascii_case, first_position, holds_text, is_text,
    lower_ascii, parsed_number, pieces, push_decimal, spelled, standing, stripped, stripped_end,
    stripped_start, takes_bytes, trimmed, CharClass, Standing,
};

const TEXTS: [&str; 16] = [
    "",
    " ",
    "a",
    " a",
    "a ",
    "\t a b \r\n",
    "\u{3000}wide\u{2003}",
    "\u{a0}\u{85}x\u{1680}",
    "##ab##",
    "[[a]]",
    "a=b=c",
    "=",
    ";;1;2;",
    "P4 Östergötland",
    "zero\u{200b}width",
    "é\u{10ffff}",
];

fn chars(text: &str) -> Vec<char> {
    text.chars().collect()
}

#[test]
fn white_space_is_unicode_white_space() {
    for n in 0..=0x10ffffu32 {
        if let Some(c) = char::from_u32(n) {
            assert_eq!(CharClass::Space.has(c), c.is_whitespace(), "U+{n:04X}");
        }
    }
}

#[test]
fn byte_widths_are_those_of_utf8() {
    for n in 0..=0x10ffffu32 {
        if let Some(c) = char::from_u32(n) {
            assert_eq!(byte_width(c) as usize, c.len_utf8(), "U+{n:04X}");
        }
    }
}

#[test]
fn ascii_letters_have_small_forms() {
    for n in 0..0x300u32 {
        let c = char::from_u32(n).unwrap();
        assert_eq!(lower_ascii(c), c.to_ascii_lowercase());
    }
}

#[test]
fn characters_and_spelling_are_inverse() {
    for text in TEXTS {
        assert_eq!(characters(text), chars(text));
        assert_eq!(spelled(&chars(text)), text);
    }
}

#[test]
fn trimming_is_that_of_strings() {
    for text in TEXTS {
        let all = chars(text);
        assert_eq!(spelled(trimmed(&all)), text.trim());
        for c in ['#', '[', ']', '"', ' ', 'a'] {
            let class = CharClass::Only(c);
            assert_eq!(spelled(stripped_start(&all, class)), text.trim_start_matches(c));
            assert_eq!(spelled(stripped_end(&all, class)), text.trim_end_matches(c));
            assert_eq!(spelled(stripped(&all, class)), text.trim_matches(c));
        }
    }
}

#[test]
fn space_at_the_end_does_not_change_what_trimming_leaves() {
    let all = chars("  key \u{2003}\t");
    let shorter = stripped_end(&all, CharClass::Space);
    assert_eq!(trimmed(shorter), trimmed(&all));
    assert_eq!(spelled(trimmed(&all)), "key");
}

#[test]
fn splitting_is_that_of_strings() {
    for text in TEXTS {
        for sep in [';', '=', 'a', '\n'] {
            let all = chars(text);
            let parts: Vec<String> = pieces(&all, sep).into_iter().map(spelled).collect();
            let wanted: Vec<&str> = text.split(sep).collect();
            assert_eq!(parts, wanted);
            let at = text.chars().position(|c| c == sep).unwrap_or(all.len());
            assert_eq!(first_position(&all, sep), at);
        }
    }
}

#[test]
fn searching_is_that_of_strings() {
    for text in TEXTS {
        for needle in ["", "a", "a=b", "Öst", "]]", "missing in all of them"] {
            assert_eq!(holds_text(&chars(text), needle), text.contains(needle));
            assert_eq!(is_text(&chars(text), needle), text == needle);
        }
    }
}

#[test]
fn numbers_are_read_like_u64() {
    let texts = [
        "", "+", "-", "0", "00", "7", "+7", "++7", "-7", " 7", "7 ", "12a", "a12", "1_000",
        "18446744073709551615", "18446744073709551616", "+18446744073709551615",
        "99999999999999999999999999", "000000000000000000000000000042", "18446744073709551615x",
        "٣", "1.5", "0x10",
    ];
    for text in texts {
        assert_eq!(parsed_number(&chars(text)), text.parse::<u64>().ok(), "{text:?}");
    }
}

#[test]
fn decimal_notation_reads_back() {
    for n in [0, 1, 9, 10, 11, 99, 100, 101, 1234567890, u64::MAX - 1, u64::MAX] {
        let mut text = String::from("n=");
        push_decimal(&mut text, n);
        assert_eq!(text, format!("n={n}"));
        assert_eq!(parsed_number(&chars(&text[2..])), Some(n));
    }
}

#[test]
fn byte_counts_are_exact() {
    for text in TEXTS {
        for n in 0..20 {
            assert_eq!(takes_bytes(&chars(text), n), text.len() == n);
        }
    }
}

#[test]
fn order_is_that_of_strings() {
    for a in TEXTS {
        for b in TEXTS {
            let wanted = if a == b {
                Standing::Same
            } else if a < b {
                Standing::Before
            } else {
                Standing::Behind
            };
            assert_eq!(standing(&chars(a), &chars(b)) == wanted, true, "{a:?} {b:?}");
        }
    }
}

#[test]
fn ascii_case_is_ignored() {
    for (a, b) in [
        ("tokyo_night", "Tokyo_Night"),
        ("a", "b"),
        ("", ""),
        ("a", "ab"),
        ("Ärger", "ärger"),
        ("[", "{"),
        ("K", "\u{212a}"),
    ] {
        assert_eq!(equal_ignoring_ascii_case(a, b), a.eq_ignore_ascii_case(b));
    }
}
