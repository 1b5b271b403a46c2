use cyphal_service::text::{
    decimal_signed_string, decimal_string, is_whitespace, parse_u16, split_words, text_before,
    trim_end_string, trim_string,
};

#[test]
fn test_whitespace_is_that_of_char() {
    for u in 0..=0x10FFFFu32 {
        if let Some(c) = char::from_u32(u) {
            assert_eq!(is_whitespace(c), c.is_whitespace(), "{u:#x}");
        }
    }
}

#[test]
fn test_words_and_trimming_are_those_of_str() {
    for line in [
        "",
        " ",
        "a",
        " a b  c ",
        "\u{2003}x\u{a0}y\u{feff}z\u{200b} ",
        "one\ttwo\r\n",
        "äö ü",
    ] {
        let words: Vec<&str> = line.split_whitespace().collect();
        assert_eq!(split_words(line), words);
        assert_eq!(trim_string(line), line.trim());
        assert_eq!(trim_end_string(line), line.trim_end());
    }
}

#[test]
fn test_numerals() {
    for n in [0u128, 7, 10, 65535, u64::MAX as u128, u128::MAX] {
        assert_eq!(decimal_string(n), n.to_string());
    }
    for v in [0i64, -1, 42, i64::MAX, i64::MIN] {
        assert_eq!(decimal_signed_string(v), v.to_string());
    }
}

#[test]
fn test_parse_u16_is_that_of_std() {
    for s in [
        "", "+", "-", "0", "00", "+12", "-0", "65535", "65536", "99999999999999999999", "1 ",
        "１", "a", "ff", "FF", "fg",
    ] {
        let chars: Vec<char> = s.chars().collect();
        for radix in [2u32, 10, 16] {
            assert_eq!(
                parse_u16(&chars, 0, chars.len(), radix),
                u16::from_str_radix(s, radix).ok(),
                "{s} in base {radix}"
            );
        }
    }
}

#[test]
fn test_order_is_that_of_str() {
    let words = ["", "a", "aa", "ab", "b", "diag", "help", "hello", "é", "z", "\u{10FFFF}"];
    for a in words {
        for b in words {
            assert_eq!(text_before(a, b), a < b);
        }
    }
}
