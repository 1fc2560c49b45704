use codestrux::text::{
    chars_of, contains, decimal_string, ends_with, is_whitespace, lines, starts_with, str_eq, trim,
    trim_end,
};

fn s(v: &[char]) -> String {
    v.iter().collect()
}

#[test]
fn whitespace_matches_std_for_every_char() {
    for code in 0u32..=0x10FFFF {
        if let Some(c) = char::from_u32(code) {
            assert_eq!(is_whitespace(c), c.is_whitespace(), "code point {:#x}", code);
        }
    }
}

#[test]
fn trim_matches_std() {
    let samples = [
        "", "   ", "abc", "  abc  ", "\t\n x y \r\n", "\u{3000}wide\u{2003}", "\u{85}a\u{a0}", "a b",
        " \u{200b} ",
    ];
    for sample in samples.iter() {
        let cs = chars_of(sample);
        assert_eq!(s(&trim(&cs)), sample.trim());
        assert_eq!(s(&trim_end(&cs)), sample.trim_end());
    }
}

#[test]
fn lines_match_std() {
    let samples = [
        "", "a", "a\n", "a\nb", "a\r\nb\r\n", "\n\n", "x\r", "data: 1\n\ndata: 2", "\r\n", "a\rb\n",
    ];
    for sample in samples.iter() {
        let cs = chars_of(sample);
        let ours: Vec<String> = lines(&cs).iter().map(|l| s(l)).collect();
        let std_lines: Vec<String> = sample.lines().map(|l| l.to_string()).collect();
        assert_eq!(ours, std_lines, "input {:?}", sample);
    }
}

#[test]
fn decimal_matches_to_string() {
    for n in [0u64, 7, 10, 99, 100, 28765, 1_000_000_007, u64::MAX].iter() {
        assert_eq!(decimal_string(*n), n.to_string());
    }
}

#[test]
fn prefix_suffix_and_substring() {
    let hay = chars_of("accept-ranges: bytes");
    assert!(starts_with(&hay, &chars_of("accept")));
    assert!(!starts_with(&hay, &chars_of("bytes")));
    assert!(ends_with(&hay, &chars_of("bytes")));
    assert!(contains(&hay, &chars_of("ranges")));
    assert!(contains(&hay, &chars_of("")));
    assert!(!contains(&hay, &chars_of("byte s")));
    assert!(!contains(&chars_of("by"), &chars_of("bytes")));
    assert!(str_eq("user", "user"));
    assert!(!str_eq("user", "users"));
}

#[test]
fn greeting() {
    assert_eq!(codestrux::greet("Ada"), "Hello, Ada! You've been greeted from Rust!");
    assert_eq!(codestrux::greet(""), "Hello, ! You've been greeted from Rust!");
}
