use awachat_backend::wire::parse_message_pack;

#[test]
fn parses_canonical_frame() {
    let mp = parse_message_pack("{\"name\":\"a\",\"message\":\"hi\",\"date\":1000}").unwrap();
    assert_eq!(mp.name, "a");
    assert_eq!(mp.message, "hi");
    assert_eq!(mp.date, 1000);
}

#[test]
fn parses_any_member_order_and_whitespace() {
    let mp = parse_message_pack(
        " { \"date\" : -5 ,\n\t\"message\" : \"yo\" , \"name\" : \"bob\" } ",
    )
    .unwrap();
    assert_eq!(mp.name, "bob");
    assert_eq!(mp.message, "yo");
    assert_eq!(mp.date, -5);
}

#[test]
fn decodes_one_character_escapes() {
    let mp = parse_message_pack(
        "{\"name\":\"a\\n\\\"b\\\\\",\"message\":\"t\\tc\\/d\",\"date\":0}",
    )
    .unwrap();
    assert_eq!(mp.name, "a\n\"b\\");
    assert_eq!(mp.message, "t\tc/d");
    assert_eq!(mp.date, 0);
}

#[test]
fn rejects_non_json() {
    assert!(parse_message_pack("not valid json{").is_none());
    assert!(parse_message_pack("").is_none());
    assert!(parse_message_pack("[1,2,3]").is_none());
}

#[test]
fn rejects_missing_field() {
    assert!(parse_message_pack("{\"name\":\"a\",\"message\":\"hi\"}").is_none());
    assert!(parse_message_pack("{}").is_none());
}

#[test]
fn rejects_duplicate_field() {
    assert!(
        parse_message_pack("{\"name\":\"a\",\"name\":\"b\",\"date\":1}").is_none()
    );
}

#[test]
fn rejects_unknown_field() {
    assert!(parse_message_pack(
        "{\"name\":\"a\",\"message\":\"hi\",\"date\":1,\"id\":7}"
    )
    .is_none());
}

#[test]
fn rejects_wrongly_typed_fields() {
    assert!(parse_message_pack("{\"name\":1,\"message\":\"hi\",\"date\":1}").is_none());
    assert!(
        parse_message_pack("{\"name\":\"a\",\"message\":\"hi\",\"date\":\"1\"}").is_none()
    );
}

#[test]
fn rejects_trailing_text() {
    assert!(
        parse_message_pack("{\"name\":\"a\",\"message\":\"hi\",\"date\":1} x").is_none()
    );
}

#[test]
fn date_edges() {
    let mp = parse_message_pack(
        "{\"name\":\"a\",\"message\":\"m\",\"date\":9223372036854775807}",
    )
    .unwrap();
    assert_eq!(mp.date, i64::MAX);
    let mp = parse_message_pack(
        "{\"name\":\"a\",\"message\":\"m\",\"date\":-9223372036854775808}",
    )
    .unwrap();
    assert_eq!(mp.date, i64::MIN);
    assert!(parse_message_pack(
        "{\"name\":\"a\",\"message\":\"m\",\"date\":9223372036854775808}"
    )
    .is_none());
    assert!(
        parse_message_pack("{\"name\":\"a\",\"message\":\"m\",\"date\":01}").is_none()
    );
}

#[test]
fn decodes_unicode_escapes() {
    let mp = parse_message_pack(
        "{\"name\":\"\\u0041\\u002f\",\"message\":\"\\u5c0f\\u660e\",\"date\":1}",
    )
    .unwrap();
    assert_eq!(mp.name, "A/");
    assert_eq!(mp.message, "\u{5c0f}\u{660e}");
}

#[test]
fn decodes_surrogate_pair_escapes() {
    let mp = parse_message_pack(
        "{\"name\":\"\\ud83d\\ude00\",\"message\":\"m\",\"date\":1}",
    )
    .unwrap();
    assert_eq!(mp.name, "\u{1f600}");
}

#[test]
fn rejects_bad_unicode_escapes() {
    // a lone high surrogate
    assert!(
        parse_message_pack("{\"name\":\"\\ud83d\",\"message\":\"m\",\"date\":1}").is_none()
    );
    // a lone low surrogate
    assert!(
        parse_message_pack("{\"name\":\"\\ude00\",\"message\":\"m\",\"date\":1}").is_none()
    );
    // a misordered pair
    assert!(parse_message_pack(
        "{\"name\":\"\\ude00\\ud83d\",\"message\":\"m\",\"date\":1}"
    )
    .is_none());
    // not four hex digits
    assert!(
        parse_message_pack("{\"name\":\"\\u12g4\",\"message\":\"m\",\"date\":1}").is_none()
    );
    assert!(parse_message_pack("{\"name\":\"\\u12\",\"message\":\"m\",\"date\":1}").is_none());
}
