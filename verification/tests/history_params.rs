use awachat_backend::history::get_history;
use awachat_backend::history::parse_param_i64;
use awachat_backend::history::parse_param_u32;
use awachat_backend::history::HistoryError;
use awachat_backend::store::Store;

#[test]
fn param_i64_accepts_plain_signed_and_padded() {
    assert_eq!(parse_param_i64("42"), Some(42));
    assert_eq!(parse_param_i64("-5"), Some(-5));
    assert_eq!(parse_param_i64("+3"), Some(3));
    assert_eq!(parse_param_i64("007"), Some(7));
    assert_eq!(parse_param_i64("0"), Some(0));
    assert_eq!(parse_param_i64("9223372036854775807"), Some(i64::MAX));
    assert_eq!(parse_param_i64("-9223372036854775808"), Some(i64::MIN));
}

#[test]
fn param_i64_rejects_garbage() {
    assert_eq!(parse_param_i64("abc"), None);
    assert_eq!(parse_param_i64(""), None);
    assert_eq!(parse_param_i64("12x"), None);
    assert_eq!(parse_param_i64("-"), None);
    assert_eq!(parse_param_i64("9223372036854775808"), None);
}

#[test]
fn param_u32_bounds() {
    assert_eq!(parse_param_u32("4294967295"), Some(u32::MAX));
    assert_eq!(parse_param_u32("4294967296"), None);
    assert_eq!(parse_param_u32("-1"), None);
    assert_eq!(parse_param_u32("+8"), Some(8));
    assert_eq!(parse_param_u32(""), None);
}

#[test]
fn history_rejects_bad_latest_id() {
    let store = Store::new();
    let r = get_history(&store, Some("abc"), Some("5"));
    assert!(matches!(r, Err(HistoryError::InvalidLatestId)));
}

#[test]
fn history_rejects_bad_count() {
    let store = Store::new();
    let r = get_history(&store, Some("10"), Some("-2"));
    assert!(matches!(r, Err(HistoryError::InvalidCount)));
}

#[test]
fn history_rejects_missing_params() {
    let store = Store::new();
    assert!(matches!(
        get_history(&store, None, Some("5")),
        Err(HistoryError::MissingLatestId)
    ));
    assert!(matches!(
        get_history(&store, Some("10"), None),
        Err(HistoryError::MissingCount)
    ));
}

#[test]
fn history_ok_on_empty_store() {
    let store = Store::new();
    let rows = get_history(&store, Some("10"), Some("5")).unwrap_or_else(|_| panic!());
    assert!(rows.is_empty());
}
