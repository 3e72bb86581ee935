use awachat_backend::broadcaster::Broadcaster;
use awachat_backend::history::get_history;
use awachat_backend::msg::MessagePack;
use awachat_backend::store::Store;
use awachat_backend::worker::persist_payload;

#[test]
fn insert_then_query_round_trips() {
    let mut store = Store::new();
    let mp = MessagePack { name: "a".to_string(), message: "hi".to_string(), date: 1000 };
    let id = store.insert_message(&mp);
    assert_eq!(id, 1);
    let rows = store.query_recent_messages(id + 1, 1);
    assert_eq!(rows.len(), 1);
    assert_eq!(rows[0].id, 1);
    assert_eq!(rows[0].name, "a");
    assert_eq!(rows[0].message, "hi");
    assert_eq!(rows[0].date, 1000);
}

#[test]
fn query_respects_bound_and_limit() {
    let mut store = Store::new();
    let mut k = 0;
    while k < 5 {
        let mp = MessagePack {
            name: format!("user{}", k),
            message: format!("msg{}", k),
            date: 100 + k,
        };
        store.insert_message(&mp);
        k += 1;
    }
    let rows = store.query_recent_messages(4, 10);
    let ids: Vec<i64> = rows.iter().map(|m| m.id).collect();
    assert_eq!(ids, vec![3, 2, 1]);
    let rows = store.query_recent_messages(6, 2);
    let ids: Vec<i64> = rows.iter().map(|m| m.id).collect();
    assert_eq!(ids, vec![5, 4]);
    let rows = store.query_recent_messages(1, 10);
    assert!(rows.is_empty());
    let rows = store.query_recent_messages(6, 0);
    assert!(rows.is_empty());
    for w in rows.windows(2) {
        assert!(w[0].id > w[1].id);
    }
}

#[test]
fn full_pipeline_two_messages() {
    let mut bus = Broadcaster::new(1024);
    let mut worker_sub = bus.subscribe();
    let mut store = Store::new();
    bus.publish("{\"name\":\"a\",\"message\":\"hi\",\"date\":1000}".to_string());
    bus.publish("{\"name\":\"b\",\"message\":\"yo\",\"date\":2000}".to_string());
    for payload in bus.drain(&mut worker_sub) {
        persist_payload(&mut store, &payload);
    }
    let rows = get_history(&store, Some("999999"), Some("10")).unwrap_or_else(|_| panic!());
    assert_eq!(rows.len(), 2);
    assert_eq!(rows[0].id, 2);
    assert_eq!(rows[0].name, "b");
    assert_eq!(rows[0].message, "yo");
    assert_eq!(rows[0].date, 2000);
    assert_eq!(rows[1].id, 1);
    assert_eq!(rows[1].name, "a");
    assert_eq!(rows[1].message, "hi");
    assert_eq!(rows[1].date, 1000);
}

#[test]
fn malformed_payload_is_dropped_not_persisted() {
    let mut store = Store::new();
    assert_eq!(persist_payload(&mut store, "not valid json{"), None);
    assert_eq!(persist_payload(&mut store, "{\"name\":\"a\"}"), None);
    let id = persist_payload(&mut store, "{\"name\":\"a\",\"message\":\"hi\",\"date\":1}");
    assert_eq!(id, Some(1));
    let rows = store.query_recent_messages(i64::MAX, 100);
    assert_eq!(rows.len(), 1);
    assert_eq!(rows[0].name, "a");
}

#[test]
fn unicode_escaped_frame_is_persisted() {
    let mut store = Store::new();
    let id = persist_payload(
        &mut store,
        "{\"name\":\"\\u5c0f\\u660e\",\"message\":\"\\ud83d\\ude00\",\"date\":1}",
    );
    assert_eq!(id, Some(1));
    let rows = store.query_recent_messages(i64::MAX, 10);
    assert_eq!(rows.len(), 1);
    assert_eq!(rows[0].name, "\u{5c0f}\u{660e}");
    assert_eq!(rows[0].message, "\u{1f600}");
}

#[test]
fn duplicate_publishes_produce_duplicate_rows() {
    let mut store = Store::new();
    let text = "{\"name\":\"a\",\"message\":\"same\",\"date\":7}";
    assert_eq!(persist_payload(&mut store, text), Some(1));
    assert_eq!(persist_payload(&mut store, text), Some(2));
    assert_eq!(store.len(), 2);
    let rows = store.query_recent_messages(i64::MAX, 100);
    assert_eq!(rows.len(), 2);
    assert_eq!(rows[0].message, "same");
    assert_eq!(rows[1].message, "same");
}
