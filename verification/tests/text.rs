use stress_tester::number::{parse_long, parse_unsigned};
use stress_tester::text::{
    is_whitespace, lines, push_left_aligned, push_right_aligned, tokens, trim, trim_end,
};

fn samples() -> Vec<String> {
    let alphabet: Vec<char> = "ab \t\r\n\u{b}\u{c}\u{85}\u{a0}\u{2003}\u{3000}é0".chars().collect();
    let mut state: u64 = 99;
    let mut all = vec![String::new()];
    for _ in 0..20_000 {
        state = state.wrapping_mul(6364136223846793005).wrapping_add(1442695040888963407);
        let len = (state >> 59) as usize % 14;
        let mut bits = state >> 3;
        let mut s = String::new();
        for _ in 0..len {
            s.push(alphabet[(bits % alphabet.len() as u64) as usize]);
            bits /= alphabet.len() as u64;
        }
        all.push(s);
    }
    all
}

#[test]
fn whitespace_is_that_of_unicode() {
    for n in 0..=0x10ffffu32 {
        if let Some(c) = char::from_u32(n) {
            assert_eq!(is_whitespace(c), c.is_whitespace(), "{n:x}");
        }
    }
}

#[test]
fn words_lines_and_trimming_are_those_of_std() {
    for s in samples() {
        let words: Vec<&str> = s.split_whitespace().collect();
        assert_eq!(tokens(&s), words, "{s:?}");
        let all: Vec<&str> = s.lines().collect();
        assert_eq!(lines(&s), all, "{s:?}");
        assert_eq!(trim(&s), s.trim(), "{s:?}");
        assert_eq!(trim_end(&s), s.trim_end(), "{s:?}");
    }
}

#[test]
fn padding_is_that_of_format() {
    for s in ["", "a", "ab", "éé", "exactly10!", "longer than ten"] {
        let mut left = String::from("|");
        push_left_aligned(&mut left, s, 10);
        assert_eq!(left, format!("|{s:<10}"));
        let mut right = String::from("|");
        push_right_aligned(&mut right, s, 10);
        assert_eq!(right, format!("|{s:>10}"));
    }
}

#[test]
fn unsigned_numbers_are_those_of_std() {
    for s in [
        "", "0", "00", "7", "+7", "-7", "++7", "+", "18446744073709551615", "18446744073709551616",
        "99999999999999999999999", "1 ", " 1", "1a", "٣", "007",
    ] {
        assert_eq!(parse_unsigned(s), s.parse::<u64>().ok(), "{s:?}");
    }
}

#[test]
fn long_numbers_are_canonical() {
    for i in [0, 1, -1, 9, 10, -10, i64::MAX, i64::MIN, 1234567890123] {
        assert_eq!(parse_long(&i.to_string()), Some(i));
    }
    for s in ["", "-", "+1", "01", "-0", "-01", "1.0", "1e3", "9223372036854775808", "--1", "1-"] {
        assert_eq!(parse_long(s), None, "{s:?}");
    }
}
