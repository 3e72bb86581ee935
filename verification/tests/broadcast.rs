use awachat_backend::broadcaster::Broadcaster;
use awachat_backend::broadcaster::RecvOutcome;

#[test]
fn subscriber_before_first_publish_sees_all_in_order() {
    let mut b = Broadcaster::new(16);
    let mut sub = b.subscribe();
    b.publish("one".to_string());
    b.publish("two".to_string());
    b.publish("three".to_string());
    let got = b.drain(&mut sub);
    assert_eq!(got, vec!["one".to_string(), "two".to_string(), "three".to_string()]);
}

#[test]
fn broadcast_includes_sender() {
    let mut b = Broadcaster::new(8);
    let mut me = b.subscribe();
    b.publish("{\"name\":\"a\",\"message\":\"hi\",\"date\":1}".to_string());
    match b.recv(&mut me) {
        RecvOutcome::Payload(p) => {
            assert_eq!(p, "{\"name\":\"a\",\"message\":\"hi\",\"date\":1}");
        }
        _ => panic!("the sender's own subscriber must get the payload back"),
    }
}

#[test]
fn lagging_subscriber_gets_explicit_lag_signal() {
    let mut b = Broadcaster::new(2);
    let mut sub = b.subscribe();
    b.publish("a".to_string());
    b.publish("b".to_string());
    b.publish("c".to_string());
    b.publish("d".to_string());
    match b.recv(&mut sub) {
        RecvOutcome::Lagged(missed) => assert_eq!(missed, 2),
        _ => panic!("expected a lag signal"),
    }
    match b.recv(&mut sub) {
        RecvOutcome::Payload(p) => assert_eq!(p, "c"),
        _ => panic!("expected the oldest retained payload"),
    }
    match b.recv(&mut sub) {
        RecvOutcome::Payload(p) => assert_eq!(p, "d"),
        _ => panic!("expected the newest payload"),
    }
    match b.recv(&mut sub) {
        RecvOutcome::Empty => {}
        _ => panic!("expected the subscriber to be caught up"),
    }
}

#[test]
fn subscriber_sees_no_backlog() {
    let mut b = Broadcaster::new(8);
    b.publish("before".to_string());
    let mut sub = b.subscribe();
    match b.recv(&mut sub) {
        RecvOutcome::Empty => {}
        _ => panic!("no backlog replay for a late subscriber"),
    }
}

#[test]
fn drain_of_lagging_subscriber_keeps_newest_window() {
    let mut b = Broadcaster::new(3);
    let mut sub = b.subscribe();
    b.publish("1".to_string());
    b.publish("2".to_string());
    b.publish("3".to_string());
    b.publish("4".to_string());
    b.publish("5".to_string());
    let got = b.drain(&mut sub);
    assert_eq!(got, vec!["3".to_string(), "4".to_string(), "5".to_string()]);
}
