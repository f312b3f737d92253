use sonora::text::{
    clean_optional_string, parse_boolish, parse_optional_i32, parse_optional_u32,
    parse_slash_pair_u32,
};

#[test]
fn clean_optional_string_drops_blank() {
    assert_eq!(clean_optional_string(""), None);
    assert_eq!(clean_optional_string("   \t\n"), None);
    assert_eq!(clean_optional_string(" hi "), Some("hi".to_string()));
    assert_eq!(clean_optional_string("a b"), Some("a b".to_string()));
}

#[test]
fn optional_u32_parses() {
    assert_eq!(parse_optional_u32(""), Ok(None));
    assert_eq!(parse_optional_u32("  "), Ok(None));
    assert_eq!(parse_optional_u32("42"), Ok(Some(42)));
    assert_eq!(parse_optional_u32(" 42 "), Ok(Some(42)));
    assert_eq!(parse_optional_u32("+7"), Ok(Some(7)));
    assert_eq!(parse_optional_u32("4294967295"), Ok(Some(u32::MAX)));
    assert_eq!(parse_optional_u32("4294967296"), Err(()));
    assert_eq!(parse_optional_u32("-1"), Err(()));
    assert_eq!(parse_optional_u32("abc"), Err(()));
    assert_eq!(parse_optional_u32("4 2"), Err(()));
    assert_eq!(parse_optional_u32("+"), Err(()));
}

#[test]
fn optional_i32_parses() {
    assert_eq!(parse_optional_i32(""), Ok(None));
    assert_eq!(parse_optional_i32("1984"), Ok(Some(1984)));
    assert_eq!(parse_optional_i32(" -12 "), Ok(Some(-12)));
    assert_eq!(parse_optional_i32("+5"), Ok(Some(5)));
    assert_eq!(parse_optional_i32("2147483647"), Ok(Some(i32::MAX)));
    assert_eq!(parse_optional_i32("2147483648"), Err(()));
    assert_eq!(parse_optional_i32("-2147483648"), Ok(Some(i32::MIN)));
    assert_eq!(parse_optional_i32("-2147483649"), Err(()));
    assert_eq!(parse_optional_i32("year"), Err(()));
}

#[test]
fn slash_pair_splits_track_and_total() {
    assert_eq!(parse_slash_pair_u32(None), (None, None));
    assert_eq!(parse_slash_pair_u32(Some("")), (None, None));
    assert_eq!(parse_slash_pair_u32(Some("  ")), (None, None));
    assert_eq!(parse_slash_pair_u32(Some("3")), (Some(3), None));
    assert_eq!(parse_slash_pair_u32(Some("3/12")), (Some(3), Some(12)));
    assert_eq!(parse_slash_pair_u32(Some(" 3 / 12 ")), (Some(3), Some(12)));
    assert_eq!(parse_slash_pair_u32(Some("/12")), (None, Some(12)));
    assert_eq!(parse_slash_pair_u32(Some("3/")), (Some(3), None));
    assert_eq!(parse_slash_pair_u32(Some("3/12/99")), (Some(3), Some(12)));
    assert_eq!(parse_slash_pair_u32(Some("a/b")), (None, None));
}

#[test]
fn boolish_accepts_common_spellings() {
    assert_eq!(parse_boolish("1"), Some(true));
    assert_eq!(parse_boolish("true"), Some(true));
    assert_eq!(parse_boolish("TRUE"), Some(true));
    assert_eq!(parse_boolish(" Yes "), Some(true));
    assert_eq!(parse_boolish("y"), Some(true));
    assert_eq!(parse_boolish("0"), Some(false));
    assert_eq!(parse_boolish("false"), Some(false));
    assert_eq!(parse_boolish("No"), Some(false));
    assert_eq!(parse_boolish("N"), Some(false));
    assert_eq!(parse_boolish(""), None);
    assert_eq!(parse_boolish("maybe"), None);
    assert_eq!(parse_boolish("10"), None);
}
