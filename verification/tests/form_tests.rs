use sonora::form::{apply_opt_keep_batch, parse_i32_keep, parse_u32_keep};

#[test]
fn keep_sentinel_changes_nothing() {
    let mut dst = Some("old".to_string());
    apply_opt_keep_batch(&mut dst, "<keep>", false, None);
    assert_eq!(dst, Some("old".to_string()));
    apply_opt_keep_batch(&mut dst, "  <keep>  ", true, Some("old"));
    assert_eq!(dst, Some("old".to_string()));
}

#[test]
fn empty_input_deletes() {
    let mut dst = Some("old".to_string());
    apply_opt_keep_batch(&mut dst, "   ", false, None);
    assert_eq!(dst, None);
}

#[test]
fn text_input_replaces_trimmed() {
    let mut dst = None;
    apply_opt_keep_batch(&mut dst, "  New Title ", false, None);
    assert_eq!(dst, Some("New Title".to_string()));
}

#[test]
fn batch_unchanged_default_is_kept() {
    // In batch mode, input still matching the primary track's value is
    // read as "keep", not as "overwrite everything".
    let mut dst = Some("each own".to_string());
    apply_opt_keep_batch(&mut dst, "Shared Artist", true, Some(" Shared Artist "));
    assert_eq!(dst, Some("each own".to_string()));
}

#[test]
fn batch_real_change_applies() {
    let mut dst = Some("old".to_string());
    apply_opt_keep_batch(&mut dst, "New", true, Some("Old Primary"));
    assert_eq!(dst, Some("New".to_string()));
    // With no primary value, an emptied field really deletes.
    let mut dst = Some("old".to_string());
    apply_opt_keep_batch(&mut dst, "", true, None);
    assert_eq!(dst, None);
}

#[test]
fn u32_keep_field() {
    let mut errs: Vec<&'static str> = Vec::new();
    assert_eq!(parse_u32_keep("<keep>", Some(4), "track #", &mut errs), Ok(Some(4)));
    assert_eq!(parse_u32_keep("  ", Some(4), "track #", &mut errs), Ok(None));
    assert_eq!(parse_u32_keep(" 12 ", Some(4), "track #", &mut errs), Ok(Some(12)));
    assert!(errs.is_empty());
    assert_eq!(parse_u32_keep("twelve", Some(4), "track #", &mut errs), Ok(None));
    assert_eq!(errs, ["track #"]);
}

#[test]
fn i32_keep_field() {
    let mut errs: Vec<&'static str> = Vec::new();
    assert_eq!(parse_i32_keep("<keep>", Some(1999), "year", &mut errs), Ok(Some(1999)));
    assert_eq!(parse_i32_keep("", None, "year", &mut errs), Ok(None));
    assert_eq!(parse_i32_keep("-44", None, "year", &mut errs), Ok(Some(-44)));
    assert!(errs.is_empty());
    assert_eq!(parse_i32_keep("199x", None, "year", &mut errs), Ok(None));
    assert_eq!(errs, ["year"]);
}
