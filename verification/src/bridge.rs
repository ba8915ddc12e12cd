//! The decisions of a WebSocket bridge: what to do with each thing that one
//! of its two sockets yields. The caller reads and writes the sockets and
//! reports what happened; every choice between forwarding, dropping,
//! counting and stopping is made here.

use crate::state::State;
use crate::traffic::TrafficView;
use crate::ws::{
    axum_to_tungstein, client_payload, client_payload_len, to_client, to_upstream, tungstein_to_axum,
    upstream_payload, upstream_payload_len, ClientMessage, UpstreamMessage,
};
use vstd::prelude::*;

verus! {

/// The payload bytes that are counted for a message once it has been
/// written. A receipt comes with the message to forward and goes back with
/// the news that the write went through; it cannot be made elsewhere.
#[derive(Debug, PartialEq, Eq)]
pub struct Receipt {
    bytes: u64,
}

impl View for Receipt {
    type V = nat;

    closed spec fn view(&self) -> nat {
        self.bytes as nat
    }
}

impl Receipt {
    /// The payload bytes that the receipt stands for.
    pub fn bytes(&self) -> (bytes: u64)
        ensures
            bytes == self@,
    {
        self.bytes
    }
}

/// What the client-to-upstream direction of a bridge has just seen.
#[derive(Debug, PartialEq, Eq)]
pub enum ClientEvent {
    /// The client socket yielded a message.
    Message(ClientMessage),
    /// Reading the client socket failed.
    ReadFailed,
    /// The client socket has ended.
    Closed,
    /// The last message has been written to the upstream socket.
    Written(Receipt),
    /// The last message could not be written to the upstream socket.
    SendFailed,
}

/// What the upstream-to-client direction of a bridge has just seen.
#[derive(Debug, PartialEq, Eq)]
pub enum UpstreamEvent {
    /// The upstream socket yielded a message.
    Message(UpstreamMessage),
    /// Reading the upstream socket failed.
    ReadFailed,
    /// The upstream socket has ended.
    Closed,
    /// The last message has been written to the client socket.
    Written(Receipt),
    /// The last message could not be written to the client socket.
    SendFailed,
}

/// What the client-to-upstream direction does next.
#[derive(Debug, PartialEq, Eq)]
pub enum ClientStep {
    /// Write this message to the upstream socket and report how it went,
    /// with the receipt where it went through.
    Forward(UpstreamMessage, Receipt),
    /// Read the next message.
    Continue,
    /// Stop this direction; the other one goes on.
    StopDirection,
    /// Stop both directions: the client is gone.
    StopBridge,
}

/// What the upstream-to-client direction does next.
#[derive(Debug, PartialEq, Eq)]
pub enum UpstreamStep {
    /// Write this message to the client socket and report how it went,
    /// with the receipt where it went through.
    Forward(ClientMessage, Receipt),
    /// Read the next message; what was read last, if anything, is dropped.
    Continue,
    /// Stop this direction; the other one goes on.
    StopDirection,
}

/// Whether a step is the one that follows an event of the
/// client-to-upstream direction: every message is forwarded, converted,
/// with a receipt for its payload; a write that went through is followed by
/// the next read; a failed read ends the whole bridge; the end of the
/// socket or a failed write ends the direction.
pub open spec fn client_step_for(event: ClientEvent, step: ClientStep) -> bool {
    match event {
        ClientEvent::Message(msg) => step matches ClientStep::Forward(out, receipt) && out == to_upstream(msg)
            && receipt@ == client_payload(msg),
        ClientEvent::Written(_) => step is Continue,
        ClientEvent::ReadFailed => step is StopBridge,
        ClientEvent::Closed => step is StopDirection,
        ClientEvent::SendFailed => step is StopDirection,
    }
}

/// Whether a step is the one that follows an event of the
/// upstream-to-client direction: a message with a counterpart is forwarded,
/// converted, with a receipt for its payload; one without is dropped; a
/// write that went through is followed by the next read; a failed read, the
/// end of the socket or a failed write ends the direction.
pub open spec fn upstream_step_for(event: UpstreamEvent, step: UpstreamStep) -> bool {
    match event {
        UpstreamEvent::Message(msg) => match to_client(msg) {
            Some(wanted) => step matches UpstreamStep::Forward(out, receipt) && out == wanted && receipt@
                == upstream_payload(msg),
            None => step is Continue,
        },
        UpstreamEvent::Written(_) => step is Continue,
        UpstreamEvent::ReadFailed => step is StopDirection,
        UpstreamEvent::Closed => step is StopDirection,
        UpstreamEvent::SendFailed => step is StopDirection,
    }
}

/// The payload bytes that an event of the client-to-upstream direction adds
/// to the WebSocket aggregate: those of the receipt when a write went
/// through, and nothing otherwise.
pub open spec fn client_event_bytes(event: ClientEvent) -> nat {
    match event {
        ClientEvent::Written(receipt) => receipt@,
        _ => 0,
    }
}

/// The payload bytes that an event of the upstream-to-client direction adds
/// to the WebSocket aggregate: those of the receipt when a write went
/// through, and nothing otherwise.
pub open spec fn upstream_event_bytes(event: UpstreamEvent) -> nat {
    match event {
        UpstreamEvent::Written(receipt) => receipt@,
        _ => 0,
    }
}

/// Decides what the client-to-upstream direction does with `event`. A
/// message is handed out for writing together with the receipt for its
/// payload: the length of a text or binary payload, nothing for a control
/// message. The payload is counted when the receipt comes back, that is
/// once the message has been written and not before; where the WebSocket
/// aggregate has no room for it, the store stays as it is.
pub fn on_client_event(state: &mut State, event: ClientEvent) -> (step: ClientStep)
    ensures
        client_step_for(event, step),
        final(state)@ == old(state)@.count_ws(client_event_bytes(event)),
        old(state).wf() ==> final(state).wf(),
{
    proof {
        assert(state@ == state@.record_ws(0));
    }
    match event {
        ClientEvent::Message(msg) => {
            let bytes = client_payload_len(&msg);
            ClientStep::Forward(axum_to_tungstein(msg), Receipt { bytes })
        },
        ClientEvent::Written(receipt) => {
            let _ = state.try_update_ws_traffic(receipt.bytes);
            ClientStep::Continue
        },
        ClientEvent::ReadFailed => ClientStep::StopBridge,
        ClientEvent::Closed => ClientStep::StopDirection,
        ClientEvent::SendFailed => ClientStep::StopDirection,
    }
}

/// Decides what the upstream-to-client direction does with `event`. A
/// message that the client side has a counterpart for is handed out for
/// writing together with the receipt for its payload; one without is
/// dropped. The payload is counted when the receipt comes back, that is
/// once the message has been written and not before; where the WebSocket
/// aggregate has no room for it, the store stays as it is.
pub fn on_upstream_event(state: &mut State, event: UpstreamEvent) -> (step: UpstreamStep)
    ensures
        upstream_step_for(event, step),
        final(state)@ == old(state)@.count_ws(upstream_event_bytes(event)),
        old(state).wf() ==> final(state).wf(),
{
    proof {
        assert(state@ == state@.record_ws(0));
    }
    match event {
        UpstreamEvent::Message(msg) => {
            let bytes = upstream_payload_len(&msg);
            match tungstein_to_axum(msg) {
                Some(out) => UpstreamStep::Forward(out, Receipt { bytes }),
                None => UpstreamStep::Continue,
            }
        },
        UpstreamEvent::Written(receipt) => {
            let _ = state.try_update_ws_traffic(receipt.bytes);
            UpstreamStep::Continue
        },
        UpstreamEvent::ReadFailed => UpstreamStep::StopDirection,
        UpstreamEvent::Closed => UpstreamStep::StopDirection,
        UpstreamEvent::SendFailed => UpstreamStep::StopDirection,
    }
}

/// An event of either direction of one bridge.
pub enum BridgeEvent {
    Client(ClientEvent),
    Upstream(UpstreamEvent),
}

impl BridgeEvent {
    /// The payload bytes that the event adds to the WebSocket aggregate.
    pub open spec fn bytes(self) -> nat {
        match self {
            BridgeEvent::Client(event) => client_event_bytes(event),
            BridgeEvent::Upstream(event) => upstream_event_bytes(event),
        }
    }

    /// Whether the event is a failure: a failed read, a failed write or the
    /// end of a socket.
    pub open spec fn is_failure(self) -> bool {
        match self {
            BridgeEvent::Client(event) => event is ReadFailed || event is Closed || event is SendFailed,
            BridgeEvent::Upstream(event) => event is ReadFailed || event is Closed || event is SendFailed,
        }
    }
}

/// The payload bytes that a whole run of events adds: the sum of the
/// receipts of the writes that went through.
pub open spec fn session_bytes(events: Seq<BridgeEvent>) -> nat
    decreases events.len(),
{
    if events.len() == 0 {
        0
    } else {
        session_bytes(events.drop_last()) + events.last().bytes()
    }
}

/// The store after the bridges handled `events` one after the other.
pub open spec fn after_session(start: TrafficView, events: Seq<BridgeEvent>) -> TrafficView
    decreases events.len(),
{
    if events.len() == 0 {
        start
    } else {
        after_session(start, events.drop_last()).count_ws(events.last().bytes())
    }
}

/// Over any run of events, in either direction and of any number of
/// bridges, the WebSocket aggregate grows by exactly the receipts of the
/// messages written, each of which is the payload length of a text or
/// binary message and nothing for any other, as long as the aggregate has
/// room for their sum; nothing else in the store changes.
pub proof fn lemma_session_total(start: TrafficView, events: Seq<BridgeEvent>)
    requires
        start.ws_has_room(session_bytes(events)),
    ensures
        after_session(start, events) == start.record_ws(session_bytes(events)),
    decreases events.len(),
{
    if events.len() > 0 {
        lemma_session_total(start, events.drop_last());
    }
}

/// The receipt that comes with a forwarded message stands for the payload
/// of the message that was read: its length for text and binary, and
/// nothing for a control message or a raw frame.
pub proof fn lemma_receipt_is_payload(
    down: ClientMessage,
    up_step: ClientStep,
    up: UpstreamMessage,
    down_step: UpstreamStep,
)
    requires
        client_step_for(ClientEvent::Message(down), up_step),
        upstream_step_for(UpstreamEvent::Message(up), down_step),
    ensures
        up_step matches ClientStep::Forward(_, receipt) && receipt@ == client_payload(down),
        !(down is Text || down is Binary) ==> client_payload(down) == 0,
        down_step matches UpstreamStep::Forward(_, receipt) ==> receipt@ == upstream_payload(up),
        !(up is Text || up is Binary) ==> upstream_payload(up) == 0,
{
}

/// A failure on one bridge touches nothing that another bridge reads: the
/// store is as it was, so whatever any bridge handles next is decided and
/// counted as if the failure had not happened.
pub proof fn lemma_failure_is_contained(start: TrafficView, failure: BridgeEvent, next: BridgeEvent)
    requires
        failure.is_failure(),
    ensures
        start.count_ws(failure.bytes()) == start,
        start.count_ws(failure.bytes()).count_ws(next.bytes()) == start.count_ws(next.bytes()),
{
}

} // verus!
