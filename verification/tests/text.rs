use script_modules::text::{
    char_is_whitespace, chars_of, find_first, same_text, text_less, trim_bounds,
};

const SAMPLES: [&str; 16] = [
    "",
    " ",
    "a",
    "ab",
    "abc",
    "b",
    "B",
    " a",
    "a ",
    "\u{e9}",
    "e\u{301}",
    "z",
    "\u{7f}",
    "\u{80}",
    "\u{10ffff}",
    "\u{ffff}",
];

fn trimmed_by_bounds(s: &str) -> String {
    let chars = chars_of(s);
    let (from, to) = trim_bounds(&chars, 0, chars.len());
    chars[from..to].iter().collect()
}

#[test]
fn whitespace_is_what_the_standard_library_calls_whitespace() {
    for code in 0..=0x10ffffu32 {
        if let Some(c) = char::from_u32(code) {
            assert_eq!(char_is_whitespace(c), c.is_whitespace(), "U+{:04X}", code);
        }
    }
}

#[test]
fn whitespace_examples() {
    assert!(char_is_whitespace(' '));
    assert!(char_is_whitespace('\t'));
    assert!(char_is_whitespace('\n'));
    assert!(char_is_whitespace('\u{a0}'));
    assert!(char_is_whitespace('\u{3000}'));
    assert!(!char_is_whitespace('a'));
    assert!(!char_is_whitespace('_'));
    assert!(!char_is_whitespace('\u{200b}'));
    assert!(!char_is_whitespace('\u{1c}'));
}

#[test]
fn chars_of_lists_the_characters() {
    assert_eq!(chars_of(""), Vec::<char>::new());
    assert_eq!(chars_of("a:b"), vec!['a', ':', 'b']);
    assert_eq!(chars_of("\u{e9}\u{10ffff}"), vec!['\u{e9}', '\u{10ffff}']);
}

#[test]
fn find_first_gives_the_first_occurrence() {
    assert_eq!(find_first(&chars_of(""), ':'), None);
    assert_eq!(find_first(&chars_of("abc"), ':'), None);
    assert_eq!(find_first(&chars_of(":"), ':'), Some(0));
    assert_eq!(find_first(&chars_of("a:b:c"), ':'), Some(1));
    assert_eq!(find_first(&chars_of("\u{e9}\u{e9}:x"), ':'), Some(2));
}

#[test]
fn trim_bounds_agrees_with_trim() {
    let cases = [
        "",
        " ",
        "   ",
        "a",
        " a",
        "a ",
        "  a b  ",
        "\t\n x \r\n",
        "\u{a0}x\u{3000}",
        "\u{200b}x\u{200b}",
        " \u{e9} ",
    ];
    for case in cases {
        assert_eq!(trimmed_by_bounds(case), case.trim(), "{:?}", case);
    }
}

#[test]
fn trim_bounds_stays_inside_the_range() {
    let chars = chars_of("ab  cd  ef");
    assert_eq!(trim_bounds(&chars, 2, 8), (4, 6));
    assert_eq!(trim_bounds(&chars, 2, 4), (4, 4));
    assert_eq!(trim_bounds(&chars, 0, 0), (0, 0));
    assert_eq!(trim_bounds(&chars, 10, 10), (10, 10));
    assert_eq!(trim_bounds(&chars, 1, 5), (1, 5));
}

#[test]
fn same_text_is_equality() {
    for a in SAMPLES {
        for b in SAMPLES {
            assert_eq!(same_text(a, b), a == b, "{:?} {:?}", a, b);
        }
    }
}

#[test]
fn text_less_is_the_order_of_strings() {
    for a in SAMPLES {
        for b in SAMPLES {
            assert_eq!(text_less(a, b), a < b, "{:?} {:?}", a, b);
        }
    }
}

#[test]
fn text_less_examples() {
    assert!(text_less("", "a"));
    assert!(!text_less("a", ""));
    assert!(!text_less("a", "a"));
    assert!(text_less("a", "ab"));
    assert!(text_less("B", "a"));
    assert!(text_less("util", "utils"));
    assert!(text_less("z", "\u{e9}"));
}
