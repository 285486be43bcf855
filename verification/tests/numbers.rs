use moeb::numbers::{map_ascii_case, parse_i32, parse_u32, parse_u64};

#[test]
fn unsigned_parsing_follows_str_parse() {
    assert_eq!(parse_u64("42"), Some(42));
    assert_eq!(parse_u64("+7"), Some(7));
    assert_eq!(parse_u64("18446744073709551615"), Some(u64::MAX));
    assert_eq!(parse_u64("18446744073709551616"), None);
    assert_eq!(parse_u64(""), None);
    assert_eq!(parse_u64("+"), None);
    assert_eq!(parse_u64("-0"), None);
    assert_eq!(parse_u64(" 1"), None);
    assert_eq!(parse_u32("4294967295"), Some(u32::MAX));
    assert_eq!(parse_u32("4294967296"), None);
    for s in ["0", "12", "+3", "x", "1a", "007"] {
        assert_eq!(parse_u32(s), s.parse::<u32>().ok(), "input {:?}", s);
    }
}

#[test]
fn signed_parsing_follows_str_parse() {
    for s in ["-1", "0", "+5", "-2147483648", "2147483647", "2147483648", "-2147483649", "-", "--1", "1-", "abc", ""] {
        assert_eq!(parse_i32(s), s.parse::<i32>().ok(), "input {:?}", s);
    }
}

#[test]
fn ascii_case_mapping() {
    assert_eq!(map_ascii_case("run_Retention", true), "RUN_RETENTION");
    assert_eq!(map_ascii_case("TrUe", false), "true");
    assert_eq!(map_ascii_case("éA", false), "éa");
}
