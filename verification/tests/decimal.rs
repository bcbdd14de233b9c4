use powerlink::decimal::{format_i8, format_u32, parse_digits, parse_i8, parse_u32};
use powerlink::text::{chars_of, contains};

fn whole_u32(s: &str) -> Option<u32> {
    let chars: Vec<char> = s.chars().collect();
    parse_u32(&chars, 0, chars.len())
}

fn whole_i8(s: &str) -> Option<i8> {
    let chars: Vec<char> = s.chars().collect();
    parse_i8(&chars, 0, chars.len())
}

#[test]
fn unsigned_numbers_are_written_in_decimal() {
    assert_eq!(format_u32(0), "0");
    assert_eq!(format_u32(9), "9");
    assert_eq!(format_u32(10), "10");
    assert_eq!(format_u32(1_234_567_890), "1234567890");
    assert_eq!(format_u32(4_294_967_295), "4294967295");
    for n in [0u32, 5, 99, 100, 101, 65_535, 1_000_000, u32::MAX - 1] {
        assert_eq!(format_u32(n), n.to_string());
    }
}

#[test]
fn signed_numbers_are_written_in_decimal() {
    assert_eq!(format_i8(0), "0");
    assert_eq!(format_i8(-1), "-1");
    assert_eq!(format_i8(127), "127");
    assert_eq!(format_i8(-128), "-128");
    for n in i8::MIN..=i8::MAX {
        assert_eq!(format_i8(n), n.to_string());
    }
}

#[test]
fn unsigned_numerals_are_read() {
    assert_eq!(whole_u32("0"), Some(0));
    assert_eq!(whole_u32("+17"), Some(17));
    assert_eq!(whole_u32("4294967295"), Some(4_294_967_295));
    assert_eq!(whole_u32("4294967296"), None);
    assert_eq!(whole_u32(""), None);
    assert_eq!(whole_u32("+"), None);
    assert_eq!(whole_u32("-0"), None);
    assert_eq!(whole_u32("12a"), None);
}

#[test]
fn unsigned_reading_agrees_with_the_standard_one() {
    let samples = [
        "", "0", "7", "+7", "-7", "007", "+007", "4294967295", "4294967296", "9999999999",
        "12345678901234567890123", "+", "-", "+-", "1+", "a", "1a", "a1", " ", "1 ", "٣", "0x1",
    ];
    for s in samples {
        assert_eq!(whole_u32(s), s.parse::<u32>().ok(), "{:?}", s);
    }
}

#[test]
fn signed_reading_agrees_with_the_standard_one() {
    let samples = [
        "", "0", "-0", "+0", "7", "+7", "-7", "127", "128", "-127", "-128", "-129", "0127",
        "-0128", "+0127", "+128", "1000", "-1000", "+", "-", "--1", "-+1", "+-1", "1-", "a",
        "-a", "1a", " 1", "1 ", "٣",
    ];
    for s in samples {
        assert_eq!(whole_i8(s), s.parse::<i8>().ok(), "{:?}", s);
    }
    for n in i8::MIN..=i8::MAX {
        assert_eq!(whole_i8(&n.to_string()), Some(n));
    }
}

#[test]
fn written_numbers_read_back() {
    for n in [0u32, 1, 10, 99, 4_294_967_295] {
        assert_eq!(whole_u32(&format_u32(n)), Some(n));
    }
    for n in i8::MIN..=i8::MAX {
        assert_eq!(whole_i8(&format_i8(n)), Some(n));
    }
}

#[test]
fn a_part_of_the_characters_is_read() {
    let chars: Vec<char> = "ab123cd".chars().collect();
    assert_eq!(parse_digits(&chars, 2, 5, 1000), Some(123));
    assert_eq!(parse_digits(&chars, 2, 5, 123), Some(123));
    assert_eq!(parse_digits(&chars, 2, 5, 122), None);
    assert_eq!(parse_digits(&chars, 2, 4, 1000), Some(12));
    assert_eq!(parse_digits(&chars, 2, 2, 1000), None);
    assert_eq!(parse_digits(&chars, 1, 5, 1000), None);
    assert_eq!(parse_digits(&chars, 2, 6, 1000), None);
    assert_eq!(parse_u32(&chars, 3, 5), Some(23));
    assert_eq!(parse_i8(&chars, 4, 5), Some(3));
}

#[test]
fn characters_are_collected_in_order() {
    assert_eq!(chars_of(""), Vec::<char>::new());
    assert_eq!(chars_of("a|b"), vec!['a', '|', 'b']);
    assert_eq!(chars_of("h\u{e9}\u{1f50b}"), vec!['h', '\u{e9}', '\u{1f50b}']);
}

#[test]
fn search_agrees_with_the_standard_one() {
    let texts = [
        "", "open", "state:      open\n", "closed", "clopen", "ope", "oopen", "op en",
        "\u{e9}open\u{e9}", "aaab",
    ];
    let patterns = ["", "open", "closed", "o", "n\n", "aab", "\u{e9}", "ab", "b", "aaaa"];
    for text in texts {
        for pattern in patterns {
            let expected = text.contains(pattern);
            assert_eq!(contains(text, pattern), expected, "{:?} in {:?}", pattern, text);
        }
    }
}
