use stress_tester::checker::{
    builtin_by_name, compress, interpret_custom_exit, is_real_token, lcmp, ncmp, nyesno, rcmp,
    read_for_check, reals_to_compare, show_value, wcmp, BuiltinChecker, CustomOutcome, RealKind, RealPair,
};

fn kind(x: f64) -> RealKind {
    if x.is_nan() {
        RealKind::NotANumber
    } else if x.abs() > 1e300 {
        RealKind::Huge { positive: x > 0.0 }
    } else {
        RealKind::Ordinary
    }
}

/// What arithmetic finds of a pair of values.
fn pair(expected: f64, found: f64, eps: f64) -> RealPair {
    let tolerance = eps + 1e-15;
    let lo = expected * (1.0 - tolerance);
    let hi = expected * (1.0 + tolerance);
    let absolute = (found - expected).abs();
    let error = if expected.abs() > 1e-9 {
        absolute.min((absolute / expected).abs())
    } else {
        absolute
    };
    RealPair {
        expected_kind: kind(expected),
        found_kind: kind(found),
        near: absolute <= tolerance,
        between: found >= lo.min(hi) && found <= lo.max(hi),
        expected: format!("{expected}"),
        found: format!("{found}"),
        error: format!("{error:.3e}"),
    }
}

fn pairs(checker: BuiltinChecker, output: &str, answer: &str, eps: f64) -> Vec<RealPair> {
    let (expected, found) = reals_to_compare(checker, output, answer);
    expected
        .iter()
        .zip(&found)
        .map(|(e, f)| pair(e.parse().unwrap(), f.parse().unwrap(), eps))
        .collect()
}

fn reals(output: &str, answer: &str, eps: f64) -> Option<String> {
    let found = pairs(BuiltinChecker::Rcmp4, output, answer, eps);
    rcmp(output, answer, &format!("{eps:.3e}"), &found)
}

fn check(name: &str, output: &str, answer: &str) -> Option<String> {
    builtin_by_name(name).unwrap().check(output, answer, &[])
}

#[test]
fn wcmp_basic() {
    assert_eq!(wcmp("1 2 3\n", "  1\n2\t3\n"), None);
    assert!(wcmp("1 2 3", "1 2 4").is_some());
    assert!(wcmp("1 2", "1 2 3").is_some());
    // CRLF handled
    assert_eq!(wcmp("a\r\nb\r\n", "a b"), None);
}

#[test]
fn lcmp_basic() {
    assert_eq!(lcmp("hi\r\n", "hi\n"), None);
    assert_eq!(lcmp("hi  \n", "hi\n"), None);
    // Each line is compared token-wise: inner spacing is not significant,
    assert_eq!(lcmp("a  b", "a b"), None);
    // but the token sequence itself still has to match.
    assert!(lcmp("ab", "a b").is_some());
    assert!(lcmp("a\nb", "a\nc").is_some());
    // Trailing blank lines are ignored.
    assert_eq!(lcmp("a\n\n\n", "a\n"), None);
    assert!(lcmp("a\nb", "a").is_some());
}

#[test]
fn ncmp_basic() {
    assert_eq!(ncmp("5 -3\n", "5 -3"), None);
    assert_eq!(ncmp("0", "0"), None);
    // Order matters.
    assert!(ncmp("5 -3", "-3 5").is_some());
    // `+`, leading zeros and `-0` are rejected.
    assert!(ncmp("+5", "5").is_some());
    assert!(ncmp("05", "5").is_some());
    assert!(ncmp("-0", "0").is_some());
    assert!(ncmp("5", "5.0").is_some());
    assert!(ncmp("1 2", "1 2 3").is_some());
    // The range of 64-bit integers.
    assert_eq!(ncmp("9223372036854775807", "9223372036854775807"), None);
    assert!(ncmp("9223372036854775808", "1").is_some());
}

#[test]
fn compress_long_values() {
    assert_eq!(compress("short"), "short");
    let long = "x".repeat(200);
    let out = compress(&long);
    assert_eq!(out.chars().count(), 64);
    assert!(out.contains("..."));
}

#[test]
fn nyesno_basic() {
    // Single token, case-insensitive.
    assert_eq!(nyesno("YES\n", "yes"), None);
    assert_eq!(nyesno("No", "no"), None);
    // Sequence of tokens.
    assert_eq!(nyesno("yes no YES", "YES NO yes"), None);
    // Mismatch in a later token.
    assert!(nyesno("yes no", "yes yes").is_some());
    // Length mismatch either way.
    assert!(nyesno("yes", "yes no").is_some());
    assert!(nyesno("yes no", "yes").is_some());
    // Invalid output token.
    assert!(nyesno("maybe", "yes").is_some());
    // Empty sequences match.
    assert_eq!(nyesno("", " \n"), None);
}

#[test]
fn custom_exit_codes() {
    assert_eq!(interpret_custom_exit(0), CustomOutcome::Ac);
    assert_eq!(interpret_custom_exit(1), CustomOutcome::Wa);
    assert_eq!(interpret_custom_exit(2), CustomOutcome::Wa);
    assert_eq!(interpret_custom_exit(3), CustomOutcome::Failed);
}

#[test]
fn rcmp_absolute_or_relative() {
    let eps = 1e-4;
    assert_eq!(reals("3.14159\n", "3.14158", eps), None);
    assert!(reals("3.15", "3.14", eps).is_some());
    assert!(reals("1", "1\n2", eps).is_some());
    // The relative tolerance rescues large magnitudes, where the absolute error
    // is far past eps.
    assert_eq!(reals("1000000000.5", "1000000000.0", eps), None);
    assert!(reals("1000000000.0", "2000000000.0", eps).is_some());
    // Around zero only the absolute error applies.
    assert_eq!(reals("0.00001", "0", eps), None);
    assert!(reals("0.001", "0", eps).is_some());
    // nan and inf are malformed reals, never equal to anything,
    assert!(reals("nan", "5", eps).is_some());
    assert!(reals("nan", "nan", eps).is_some());
    assert!(reals("inf", "5", eps).is_some());
    // but a magnitude past 1e300 is infinite, and two infinities of the same
    // sign are equal.
    assert_eq!(reals("1e400", "1e400", eps), None);
    assert!(reals("-1e400", "1e400", eps).is_some());
    assert!(reals("1e400", "5", eps).is_some());
}

#[test]
fn rcmp_messages() {
    assert_eq!(
        reals("1 2.5", "1 2", 1e-4).unwrap(),
        "token 2 differs: expected 2, found 2.5 (error 2.500e-1 > 1.000e-4)"
    );
    assert_eq!(reals("1 2", "1", 1e-4).unwrap(), "expected 1 token(s), found 2");
    assert_eq!(reals("1 x", "1 2", 1e-4).unwrap(), "output token 2 is not a number: \"x\"");
    assert_eq!(
        reals("1", "inf", 1e-4).unwrap(),
        "invalid answer (bug in reference?): answer token 1 is not a number: \"inf\""
    );
    let checker = builtin_by_name("rcmp6").unwrap();
    let found = pairs(checker, "0.5", "0.25", 1e-6);
    assert_eq!(
        checker.check("0.5", "0.25", &found).unwrap(),
        "token 1 differs: expected 0.25, found 0.5 (error 2.500e-1 > 1.000e-6)"
    );
    // Nothing is compared where a text is malformed, or by another checker.
    assert!(pairs(checker, "0.5 a", "0.25 1", 1e-6).is_empty());
    assert!(pairs(BuiltinChecker::Wcmp, "0.5", "0.25", 1e-6).is_empty());
}

#[test]
fn real_notation_is_what_parses() {
    let mut state: u64 = 7;
    let alphabet: Vec<char> = "0123456789..eE+-".chars().collect();
    for _ in 0..200_000 {
        state = state.wrapping_mul(6364136223846793005).wrapping_add(1442695040888963407);
        let len = (state >> 60) as usize % 8;
        let mut t = String::new();
        let mut bits = state >> 8;
        for _ in 0..len {
            t.push(alphabet[(bits % 16) as usize]);
            bits /= 16;
        }
        assert_eq!(is_real_token(&t), t.parse::<f64>().is_ok(), "{t:?}");
    }
    for t in ["nan", "inf", "infinity", "NaN", "1_0", "0x1", " 1", "1 ", "١"] {
        assert!(!is_real_token(t), "{t:?}");
    }
}

#[test]
fn wcmp_messages() {
    assert_eq!(
        wcmp("18", "20").unwrap(),
        "token 1 differs: expected \"20\", found \"18\""
    );
    assert_eq!(wcmp("1 2", "1 2 3").unwrap(), "expected 3 token(s), found 2");
    assert_eq!(wcmp("1 2 3", "1 2").unwrap(), "expected 2 token(s), found 3");
    // Quotes, backslashes and control characters are escaped.
    assert_eq!(
        wcmp("a\"b\\c\u{1}d'", "x").unwrap(),
        format!("token 1 differs: expected \"x\", found {:?}", "a\"b\\c\u{1}d'")
    );
}

#[test]
fn lcmp_messages() {
    assert_eq!(
        lcmp("a\nb\n", "a\nc\n").unwrap(),
        "line 2 differs: expected \"c\", found \"b\""
    );
    assert_eq!(lcmp("a\nb", "a").unwrap(), "expected 1 line(s), found 2");
}

#[test]
fn ncmp_messages() {
    assert_eq!(ncmp("5 7", "5 8").unwrap(), "token 2 differs: expected 8, found 7");
    assert_eq!(ncmp("5 x7", "5 8").unwrap(), "output token 2 is not an integer: \"x7\"");
    assert_eq!(
        ncmp("5", "5.0").unwrap(),
        "invalid answer (bug in reference?): answer token 1 is not an integer: \"5.0\""
    );
    assert_eq!(ncmp("1 2", "1 2 3").unwrap(), "expected 3 token(s), found 2");
    assert_eq!(ncmp("-9223372036854775808", "-9223372036854775808"), None);
    assert!(ncmp("-9223372036854775809", "-9223372036854775809").is_some());
}

#[test]
fn nyesno_messages() {
    assert_eq!(nyesno("yes no", "yes yes").unwrap(), "token 2 differs: expected YES, found NO");
    assert_eq!(nyesno("maybe", "yes").unwrap(), "token 1 is not YES/NO: \"MAYBE\"");
    assert_eq!(
        nyesno("yes", "y").unwrap(),
        "invalid answer (bug in reference?): token 1 is not YES/NO: \"Y\""
    );
    assert_eq!(nyesno("yes", "yes no").unwrap(), "expected 2 token(s), found 1");
    // Only the letters a to z have capitals here.
    assert!(nyesno("yeſ", "yes").is_some());
}

#[test]
fn compress_keeps_both_ends() {
    let exact: String = "y".repeat(64);
    assert_eq!(compress(&exact), exact);
    let long: String = (0..100).map(|i| char::from(b'a' + (i % 26) as u8)).collect();
    let chars: Vec<char> = long.chars().collect();
    let head: String = chars[..30].iter().collect();
    let tail: String = chars[69..].iter().collect();
    assert_eq!(compress(&long), format!("{head}...{tail}"));
}

#[test]
fn values_are_quoted() {
    assert_eq!(show_value("20"), "\"20\"");
    for s in ["", "a b", "tab\t", "\"", "\\", "'", "é", "\u{301}", "\u{200b}", "\u{7f}", "\0"] {
        assert_eq!(show_value(s), format!("{s:?}"));
    }
    let plain: String = (' '..='~').filter(|c| !['"', '\\', '\''].contains(c)).collect();
    for part in [&plain[..40], &plain[40..]] {
        assert_eq!(show_value(part), format!("\"{part}\""));
    }
}

#[test]
fn checkers_by_name() {
    for name in ["wcmp", "lcmp", "ncmp", "rcmp4", "rcmp6", "rcmp9", "nyesno"] {
        assert_eq!(builtin_by_name(name).unwrap().name(), name);
    }
    assert_eq!(builtin_by_name("WCMP"), None);
    assert_eq!(builtin_by_name(""), None);
    assert_eq!(check("wcmp", "a  b", "a b"), None);
    assert!(check("lcmp", "a\nb", "a b").is_some());
    assert!(check("ncmp", "01", "1").is_some());
    assert_eq!(check("nyesno", "No", "nO"), None);
}

#[test]
fn exit_codes_outside_the_known_ones_are_failures() {
    for code in [-1, 3, 4, 5, 7, 100, 255, i32::MAX, i32::MIN] {
        assert_eq!(interpret_custom_exit(code), CustomOutcome::Failed);
    }
}

#[test]
fn token_checkers_do_not_see_spacing() {
    for name in ["wcmp", "ncmp", "nyesno"] {
        let a = check(name, "1 2\n3", "1 2 4");
        let b = check(name, "\t1\r\n2   3\n\n", " 1 2 4 ");
        assert_eq!(a, b);
    }
}

#[test]
fn what_lcmp_accepts_wcmp_accepts() {
    let texts = ["a b\nc\n", "a  b\nc\n\n", "a\nb c", "a b c", "", " \n\n", "a b\r\nc"];
    for output in texts {
        for answer in texts {
            if lcmp(output, answer).is_none() {
                assert_eq!(wcmp(output, answer), None);
            }
            let padded = format!("{output} \t\n \n");
            assert_eq!(lcmp(&padded, answer).is_none(), lcmp(output, answer).is_none());
        }
    }
}

#[test]
fn exact_checkers_are_symmetric() {
    let texts = ["", "1 2", "1\n2", "01 2", "yes", "YES no", "Yes\nNO", "x", "1 2 3", " 1  2 \n\n"];
    for name in ["wcmp", "lcmp", "ncmp", "nyesno"] {
        for a in texts {
            for b in texts {
                assert_eq!(check(name, a, b).is_none(), check(name, b, a).is_none());
            }
        }
    }
}

#[test]
fn larger_tolerances_accept_more() {
    let accepts = |checker: BuiltinChecker, eps: f64, a: &str, b: &str| {
        checker.check(a, b, &pairs(checker, a, b, eps)).is_none()
    };
    let texts = ["1", "1.0000000001", "1.0000001", "1.00001", "1.01", "0", "1e-10", "-1", "1e400"];
    for a in texts {
        for b in texts {
            let nine = accepts(BuiltinChecker::Rcmp9, 1e-9, a, b);
            let six = accepts(BuiltinChecker::Rcmp6, 1e-6, a, b);
            let four = accepts(BuiltinChecker::Rcmp4, 1e-4, a, b);
            assert!(!nine || six);
            assert!(!six || four);
        }
    }
    assert!(!accepts(BuiltinChecker::Rcmp9, 1e-9, "1.00001", "1"));
    assert!(accepts(BuiltinChecker::Rcmp4, 1e-4, "1.00001", "1"));
}

#[test]
fn trailing_blanks_leave_the_message() {
    assert_eq!(lcmp("a\nb", "a\nc"), lcmp("a\nb \t\r\n \n", "a\nc\n\n  "));
}

#[test]
fn files_are_read_as_lossy_text() {
    assert_eq!(read_for_check(&Some(b"1 2\xff".to_vec())), "1 2\u{fffd}");
    assert_eq!(read_for_check(&Some("é\n".as_bytes().to_vec())), "é\n");
    assert_eq!(read_for_check(&None), "");
}

#[test]
fn tolerances_are_written_as_they_are_used() {
    for (checker, text, value) in [
        (BuiltinChecker::Rcmp4, "1.000e-4", 1e-4),
        (BuiltinChecker::Rcmp6, "1.000e-6", 1e-6),
        (BuiltinChecker::Rcmp9, "1.000e-9", 1e-9),
    ] {
        assert_eq!(checker.tolerance(), text);
        assert_eq!(checker.tolerance().parse::<f64>().unwrap(), value);
    }
}
