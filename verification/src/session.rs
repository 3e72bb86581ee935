//! The connection session's decisions. A session runs two duties from
//! upgrade to teardown: the inbound duty reads frames from its client and
//! republishes them, the outbound duty relays every broadcast payload back
//! out to the client.
//!
//! The inbound duty's per-event decision is [`session_inbound_step`]. The
//! outbound duty has no decision of its own: it is
//! [`crate::broadcaster::Broadcaster::recv`] on the session's own
//! subscriber, forwarding each payload until the transport send fails —
//! that failure, like a receive error inbound, ends only this session;
//! other sessions and the persistence worker are untouched.

use vstd::prelude::*;

use crate::broadcaster::Broadcaster;

verus! {

/// One occurrence on a session's inbound transport.
pub enum InboundEvent {
    /// A text frame with its contents.
    TextFrame(String),
    /// A frame that carries no text (ping, pong, binary).
    NonTextFrame,
    /// A close frame or a receive error.
    ClosedOrError,
}

/// What the inbound duty does after one event.
pub enum InboundAction {
    /// Keep reading.
    Continue,
    /// End this duty; the session is being torn down.
    Stop,
}

/// Inbound duty, one step: a text frame is republished verbatim to the
/// shared broadcaster — so the session's own subscriber receives it back,
/// exactly as every other session's does; nothing filters the sender out.
/// A non-text frame changes nothing; a close or receive error ends the
/// duty. A publish never blocks and never fails, so only the event decides
/// the action. The one machine limit: the publish count must still fit in
/// `usize` ([`Broadcaster::published_count`] lets a caller test it).
pub fn session_inbound_step(b: &mut Broadcaster, ev: InboundEvent) -> (act: InboundAction)
    requires
        old(b).payloads().len() < usize::MAX,
    ensures
        final(b).cap() == old(b).cap(),
        match ev {
            InboundEvent::TextFrame(t) => final(b).payloads() == old(b).payloads().push(t@)
                && act is Continue,
            InboundEvent::NonTextFrame => final(b).payloads() == old(b).payloads()
                && act is Continue,
            InboundEvent::ClosedOrError => final(b).payloads() == old(b).payloads() && act is Stop,
        },
{
    match ev {
        InboundEvent::TextFrame(t) => {
            b.publish(t);
            InboundAction::Continue
        },
        InboundEvent::NonTextFrame => InboundAction::Continue,
        InboundEvent::ClosedOrError => InboundAction::Stop,
    }
}

} // verus!
