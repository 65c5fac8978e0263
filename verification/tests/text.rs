use loda_rust::text::{
    char_is_whitespace, chars_contain, chars_equal, chars_start_with, decimal_string,
    occurs_at_position, split_line_ranges, to_chars, trim_chars,
};

fn chars(text: &str) -> Vec<char> {
    text.chars().collect()
}

const SAMPLES: [&str; 14] = [
    "",
    " ",
    "\n",
    "a",
    "abc",
    "  abc  ",
    "\t abc \r\n",
    "a\nb",
    "a\n\nb\n",
    "\n\n",
    "one line without end",
    "\u{3000}wide\u{a0}",
    "```prolog\nobject(output1).\n```",
    "x\u{2028}y\u{85}",
];

#[test]
fn whitespace_is_the_unicode_property() {
    let mut code: u32 = 0;
    while code <= 0x10ffff {
        if let Some(c) = char::from_u32(code) {
            assert_eq!(char_is_whitespace(c), c.is_whitespace(), "U+{:04X}", code);
        }
        code += 1;
    }
}

#[test]
fn decimal_string_of_numbers() {
    assert_eq!(decimal_string(0), "0");
    assert_eq!(decimal_string(7), "7");
    assert_eq!(decimal_string(10), "10");
    assert_eq!(decimal_string(1234567890), "1234567890");
    assert_eq!(decimal_string(u64::MAX), "18446744073709551615");
    for n in 0..2000u64 {
        assert_eq!(decimal_string(n), n.to_string());
    }
}

#[test]
fn to_chars_keeps_every_character() {
    for sample in SAMPLES {
        assert_eq!(to_chars(sample), chars(sample));
    }
}

#[test]
fn trim_drops_whitespace_at_both_ends() {
    for sample in SAMPLES {
        assert_eq!(trim_chars(&chars(sample)), chars(sample.trim()), "{:?}", sample);
    }
    assert_eq!(trim_chars(&chars(" a b ")), chars("a b"));
}

#[test]
fn lines_end_at_line_feeds() {
    for sample in SAMPLES {
        let all = chars(sample);
        let ranges = split_line_ranges(&all);
        let lines: Vec<String> =
            ranges.iter().map(|(from, to)| all[*from..*to].iter().collect()).collect();
        let expected: Vec<String> = sample.split("\n").map(|line| line.to_string()).collect();
        assert_eq!(lines, expected, "{:?}", sample);
    }
    assert_eq!(split_line_ranges(&chars("ab\n\ncd")), vec![(0, 2), (3, 3), (4, 6)]);
    assert_eq!(split_line_ranges(&chars("")), vec![(0, 0)]);
    assert_eq!(split_line_ranges(&chars("\n")), vec![(0, 0), (1, 1)]);
}

#[test]
fn searching_agrees_with_the_standard_library() {
    let patterns = ["", "a", "b", "abc", "bc", "\n", "  ", "```", "```prolog", "object(output"];
    for sample in SAMPLES {
        for pattern in patterns {
            let s = chars(sample);
            let p = chars(pattern);
            assert_eq!(chars_contain(&s, &p), sample.contains(pattern), "{:?} {:?}", sample, pattern);
            assert_eq!(chars_start_with(&s, &p), sample.starts_with(pattern), "{:?} {:?}", sample, pattern);
            assert_eq!(chars_equal(&s, &p), sample == pattern, "{:?} {:?}", sample, pattern);
        }
    }
    assert!(occurs_at_position(&chars("abcabc"), &chars("bc"), 1));
    assert!(occurs_at_position(&chars("abcabc"), &chars("bc"), 4));
    assert!(!occurs_at_position(&chars("abcabc"), &chars("bc"), 2));
    assert!(!occurs_at_position(&chars("abcabc"), &chars("bc"), 5));
    assert!(!occurs_at_position(&chars("abcabc"), &chars("bc"), 600));
    assert!(occurs_at_position(&chars("abc"), &chars(""), 3));
    assert!(!occurs_at_position(&chars("abc"), &chars(""), 4));
}
