use awachat_backend::encode::encode_history;
use awachat_backend::msg::MessagePack;
use awachat_backend::store::Store;

#[test]
fn encodes_empty_history() {
    let rows = Vec::new();
    assert_eq!(encode_history(&rows), "[]");
}

#[test]
fn encodes_history_rows_newest_first() {
    let mut store = Store::new();
    store.insert_message(&MessagePack {
        name: "a".to_string(),
        message: "hi".to_string(),
        date: 1000,
    });
    store.insert_message(&MessagePack {
        name: "b".to_string(),
        message: "yo".to_string(),
        date: 2000,
    });
    let body = encode_history(&store.query_recent_messages(999999, 10));
    assert_eq!(
        body,
        "[{\"id\":2,\"message\":\"yo\",\"name\":\"b\",\"date\":2000},\
         {\"id\":1,\"message\":\"hi\",\"name\":\"a\",\"date\":1000}]"
    );
}

#[test]
fn encodes_escapes_and_negative_dates() {
    let mut store = Store::new();
    store.insert_message(&MessagePack {
        name: "a\"b\\c".to_string(),
        message: "line\nbreak\tand \u{1} ctl".to_string(),
        date: -5,
    });
    let body = encode_history(&store.query_recent_messages(i64::MAX, 10));
    assert_eq!(
        body,
        "[{\"id\":1,\"message\":\"line\\nbreak\\tand \\u0001 ctl\",\
         \"name\":\"a\\\"b\\\\c\",\"date\":-5}]"
    );
}

#[test]
fn encodes_extreme_dates() {
    let mut store = Store::new();
    store.insert_message(&MessagePack {
        name: "n".to_string(),
        message: "m".to_string(),
        date: i64::MIN,
    });
    store.insert_message(&MessagePack {
        name: "n".to_string(),
        message: "m".to_string(),
        date: i64::MAX,
    });
    let body = encode_history(&store.query_recent_messages(i64::MAX, 10));
    assert_eq!(
        body,
        "[{\"id\":2,\"message\":\"m\",\"name\":\"n\",\"date\":9223372036854775807},\
         {\"id\":1,\"message\":\"m\",\"name\":\"n\",\"date\":-9223372036854775808}]"
    );
}
