use geocodec::numtext::{is_number_text, parse_u32, u32_text};

#[test]
fn number_grammar_accepts() {
    for ok in [
        "0", "1", "33.45", "-12.35", "-0.5", "10.5", "1e9", "1E9", "1e+9", "1E-9", "2.5e-7",
        "4294967295", "-0",
    ] {
        assert!(is_number_text(ok), "{} should be a number text", ok);
    }
}

#[test]
fn number_grammar_rejects() {
    for bad in [
        "", "-", "01", "1.", ".5", "1e", "1e+", "abc", "inf", "NaN", "+1", "1.2.3", "1 ", " 1",
        "0x10",
    ] {
        assert!(!is_number_text(bad), "{} should not be a number text", bad);
    }
}

#[test]
fn u32_text_round_trips() {
    for n in [0u32, 1, 9, 10, 99, 100, 12345, 4294967295] {
        let t = u32_text(n);
        assert_eq!(parse_u32(t.as_str()), Some(n));
    }
    assert_eq!(u32_text(0), "0");
    assert_eq!(u32_text(1), "1");
    assert_eq!(u32_text(4294967295), "4294967295");
}

#[test]
fn parse_u32_edges() {
    assert_eq!(parse_u32("0"), Some(0));
    assert_eq!(parse_u32("007"), Some(7));
    assert_eq!(parse_u32("4294967295"), Some(4294967295));
    assert_eq!(parse_u32("4294967296"), None);
    assert_eq!(parse_u32("99999999999999999999"), None);
    assert_eq!(parse_u32(""), None);
    assert_eq!(parse_u32("-1"), None);
    assert_eq!(parse_u32("1a"), None);
}
