//! The control envelope: the closed tagged union sent on every channel.

use vstd::prelude::*;
use crate::message::{Message, MessageView};

verus! {

/// The envelope carried on every channel between the dispatcher and the
/// lanes. `Request` and `Response` carry the live work item; `Terminate`
/// is the shutdown instruction; `HeartBeat` is the liveness probe sent to
/// the idle lanes and echoed back verbatim.
pub enum MessageKind {
    Request(Message),
    Response(Message),
    Terminate,
    HeartBeat(usize),
}

/// The mathematical value of an envelope.
#[verifier::ext_equal]
pub ghost enum EnvelopeView {
    Request(MessageView),
    Response(MessageView),
    Terminate,
    HeartBeat(nat),
}

impl View for MessageKind {
    type V = EnvelopeView;

    open spec fn view(&self) -> EnvelopeView {
        match self {
            MessageKind::Request(m) => EnvelopeView::Request(m@),
            MessageKind::Response(m) => EnvelopeView::Response(m@),
            MessageKind::Terminate => EnvelopeView::Terminate,
            MessageKind::HeartBeat(n) => EnvelopeView::HeartBeat(*n as nat),
        }
    }
}

/// The envelope values held by a sequence of envelopes.
pub open spec fn env_views(s: Seq<MessageKind>) -> Seq<EnvelopeView> {
    s.map_values(|e: MessageKind| e@)
}

} // verus!
