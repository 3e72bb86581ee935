use awachat_backend::broadcaster::Broadcaster;
use awachat_backend::broadcaster::RecvOutcome;
use awachat_backend::session::session_inbound_step;
use awachat_backend::session::InboundAction;
use awachat_backend::session::InboundEvent;

#[test]
fn inbound_text_frame_is_republished_and_echoed() {
    let mut b = Broadcaster::new(8);
    let mut me = b.subscribe();
    let act = session_inbound_step(&mut b, InboundEvent::TextFrame("hello".to_string()));
    assert!(matches!(act, InboundAction::Continue));
    match b.recv(&mut me) {
        RecvOutcome::Payload(p) => assert_eq!(p, "hello"),
        _ => panic!("the session's own subscriber must see its frame"),
    }
}

#[test]
fn inbound_close_stops_duty_without_publishing() {
    let mut b = Broadcaster::new(8);
    let mut me = b.subscribe();
    assert!(matches!(
        session_inbound_step(&mut b, InboundEvent::NonTextFrame),
        InboundAction::Continue
    ));
    assert!(matches!(
        session_inbound_step(&mut b, InboundEvent::ClosedOrError),
        InboundAction::Stop
    ));
    assert!(matches!(b.recv(&mut me), RecvOutcome::Empty));
}
