use appendfile::number::{decimal_chars, parse_u64};
use appendfile::text::{chars_of, is_whitespace, string_of, to_ascii_lowercase, trim};

fn parse(s: &str) -> Option<u64> {
    parse_u64(&chars_of(s))
}

#[test]
fn parse_u64_matches_from_str() {
    for s in ["0", "7", "+7", "007", "18446744073709551615", "18446744073709551616", "", "+", "-1", "1a", " 1", "+-1", "٣"] {
        assert_eq!(parse(s), s.parse::<u64>().ok(), "input {:?}", s);
    }
}

#[test]
fn decimal_chars_matches_display() {
    for n in [0u64, 9, 10, 1234567890, u64::MAX] {
        let text: String = decimal_chars(n).into_iter().collect();
        assert_eq!(text, n.to_string());
    }
}

#[test]
fn trim_removes_unicode_whitespace() {
    for s in ["  ab c\t\n", "\u{3000}x\u{85}", "", "   ", "x"] {
        let t: String = trim(&chars_of(s)).into_iter().collect();
        assert_eq!(t, s.trim());
    }
}

#[test]
fn ascii_lowercase_leaves_other_characters() {
    let l: String = to_ascii_lowercase(&chars_of("AbZ-Ä9")).into_iter().collect();
    assert_eq!(l, "abz-Ä9");
}

#[test]
fn string_of_keeps_characters() {
    assert_eq!(string_of(&['h', 'é', '!']), "hé!");
}

#[test]
fn is_whitespace_agrees_with_std_on_every_char() {
    for u in 0u32..=0x10FFFF {
        if let Some(c) = char::from_u32(u) {
            assert_eq!(is_whitespace(c), c.is_whitespace(), "code point {:#x}", u);
        }
    }
}
