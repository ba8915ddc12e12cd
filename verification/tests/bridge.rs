use traffic_proxy::bridge::{
    on_client_event, on_upstream_event, ClientEvent, ClientStep, Receipt, UpstreamEvent, UpstreamStep,
};
use traffic_proxy::state::State;
use traffic_proxy::ws::{ClientMessage, CloseFrame, OpCode, RawFrame, UpstreamMessage};

fn raw(payload: Vec<u8>) -> RawFrame {
    RawFrame {
        is_final: true,
        rsv1: false,
        rsv2: false,
        rsv3: false,
        opcode: OpCode::Binary,
        mask: None,
        payload,
    }
}

fn forward_up(state: &mut State, msg: ClientMessage) -> (UpstreamMessage, Receipt) {
    match on_client_event(state, ClientEvent::Message(msg)) {
        ClientStep::Forward(out, receipt) => (out, receipt),
        other => panic!("expected a message to forward, got {:?}", other),
    }
}

fn forward_down(state: &mut State, msg: UpstreamMessage) -> (ClientMessage, Receipt) {
    match on_upstream_event(state, UpstreamEvent::Message(msg)) {
        UpstreamStep::Forward(out, receipt) => (out, receipt),
        other => panic!("expected a message to forward, got {:?}", other),
    }
}

fn relay_up(state: &mut State, msg: ClientMessage) -> UpstreamMessage {
    let (out, receipt) = forward_up(state, msg);
    assert_eq!(on_client_event(state, ClientEvent::Written(receipt)), ClientStep::Continue);
    out
}

fn relay_down(state: &mut State, msg: UpstreamMessage) -> ClientMessage {
    let (out, receipt) = forward_down(state, msg);
    assert_eq!(on_upstream_event(state, UpstreamEvent::Written(receipt)), UpstreamStep::Continue);
    out
}

#[test]
fn client_text_is_forwarded_and_counted_once_written() {
    let mut state = State::new();
    let (out, receipt) = forward_up(&mut state, ClientMessage::Text("hello".to_string()));
    assert_eq!(out, UpstreamMessage::Text("hello".to_string()));
    assert_eq!(receipt.bytes(), 5);
    assert_eq!(state.websocket_traffic(), 0);
    assert_eq!(on_client_event(&mut state, ClientEvent::Written(receipt)), ClientStep::Continue);
    assert_eq!(state.websocket_traffic(), 5);
}

#[test]
fn upstream_binary_is_forwarded_and_counted_once_written() {
    let mut state = State::new();
    let (out, receipt) = forward_down(&mut state, UpstreamMessage::Binary(vec![1, 2, 3, 4]));
    assert_eq!(out, ClientMessage::Binary(vec![1, 2, 3, 4]));
    assert_eq!(receipt.bytes(), 4);
    assert_eq!(state.websocket_traffic(), 0);
    assert_eq!(on_upstream_event(&mut state, UpstreamEvent::Written(receipt)), UpstreamStep::Continue);
    assert_eq!(state.websocket_traffic(), 4);
}

#[test]
fn a_message_whose_write_fails_is_not_counted() {
    let mut state = State::new();
    let (_, receipt) = forward_up(&mut state, ClientMessage::Text("lost".to_string()));
    assert_eq!(receipt.bytes(), 4);
    assert_eq!(on_client_event(&mut state, ClientEvent::SendFailed), ClientStep::StopDirection);
    let (_, receipt) = forward_down(&mut state, UpstreamMessage::Binary(vec![0; 9]));
    assert_eq!(receipt.bytes(), 9);
    assert_eq!(on_upstream_event(&mut state, UpstreamEvent::SendFailed), UpstreamStep::StopDirection);
    assert_eq!(state.websocket_traffic(), 0);
}

#[test]
fn control_messages_are_forwarded_but_not_counted() {
    let mut state = State::new();
    assert_eq!(
        relay_up(&mut state, ClientMessage::Ping(vec![1, 2])),
        UpstreamMessage::Ping(vec![1, 2])
    );
    assert_eq!(
        relay_down(&mut state, UpstreamMessage::Pong(vec![1, 2])),
        ClientMessage::Pong(vec![1, 2])
    );
    let close = ClientMessage::Close(Some(CloseFrame { code: 1000, reason: "bye".to_string() }));
    assert_eq!(relay_up(&mut state, close), UpstreamMessage::Close(None));
    assert_eq!(
        relay_down(&mut state, UpstreamMessage::Close(None)),
        ClientMessage::Close(None)
    );
    assert_eq!(state.websocket_traffic(), 0);
}

#[test]
fn receipt_of_a_control_message_is_empty() {
    let mut state = State::new();
    let (_, receipt) = forward_up(&mut state, ClientMessage::Ping(vec![0; 100]));
    assert_eq!(receipt.bytes(), 0);
    let (_, receipt) = forward_down(&mut state, UpstreamMessage::Close(None));
    assert_eq!(receipt.bytes(), 0);
}

#[test]
fn raw_frame_is_dropped() {
    let mut state = State::new();
    assert_eq!(
        on_upstream_event(&mut state, UpstreamEvent::Message(UpstreamMessage::Frame(raw(vec![1, 2, 3])))),
        UpstreamStep::Continue
    );
    assert_eq!(state.websocket_traffic(), 0);
}

#[test]
fn client_read_failure_ends_the_bridge() {
    let mut state = State::new();
    assert_eq!(on_client_event(&mut state, ClientEvent::ReadFailed), ClientStep::StopBridge);
}

#[test]
fn client_end_and_send_failure_end_one_direction() {
    let mut state = State::new();
    assert_eq!(on_client_event(&mut state, ClientEvent::Closed), ClientStep::StopDirection);
    assert_eq!(on_client_event(&mut state, ClientEvent::SendFailed), ClientStep::StopDirection);
}

#[test]
fn upstream_failures_end_one_direction() {
    let mut state = State::new();
    assert_eq!(on_upstream_event(&mut state, UpstreamEvent::ReadFailed), UpstreamStep::StopDirection);
    assert_eq!(on_upstream_event(&mut state, UpstreamEvent::Closed), UpstreamStep::StopDirection);
    assert_eq!(on_upstream_event(&mut state, UpstreamEvent::SendFailed), UpstreamStep::StopDirection);
    assert_eq!(state.websocket_traffic(), 0);
}

#[test]
fn session_total_is_the_sum_of_text_and_binary_payloads() {
    let mut state = State::new();
    relay_up(&mut state, ClientMessage::Text("abc".to_string()));
    relay_down(&mut state, UpstreamMessage::Binary(vec![0; 10]));
    relay_up(&mut state, ClientMessage::Ping(vec![0; 100]));
    relay_down(&mut state, UpstreamMessage::Text("\u{e9}".to_string()));
    on_upstream_event(&mut state, UpstreamEvent::Message(UpstreamMessage::Frame(raw(vec![0; 50]))));
    relay_up(&mut state, ClientMessage::Binary(vec![]));
    relay_up(&mut state, ClientMessage::Close(None));
    on_upstream_event(&mut state, UpstreamEvent::Closed);
    assert_eq!(state.websocket_traffic(), 3 + 10 + 2);
    assert_eq!(state.total_traffic(), 0);
}

#[test]
fn failure_of_one_bridge_leaves_another_running() {
    let mut state = State::new();
    relay_down(&mut state, UpstreamMessage::Text("one".to_string()));
    assert_eq!(on_upstream_event(&mut state, UpstreamEvent::ReadFailed), UpstreamStep::StopDirection);
    assert_eq!(
        relay_down(&mut state, UpstreamMessage::Text("other".to_string())),
        ClientMessage::Text("other".to_string())
    );
    assert_eq!(
        relay_up(&mut state, ClientMessage::Text("up".to_string())),
        UpstreamMessage::Text("up".to_string())
    );
    assert_eq!(state.websocket_traffic(), 3 + 5 + 2);
    assert!(!state.is_shutdown());
}

#[test]
fn a_full_aggregate_does_not_stop_forwarding() {
    let mut state = State::new();
    state.update_ws_traffic(u64::MAX - 2);
    assert_eq!(
        relay_up(&mut state, ClientMessage::Text("abc".to_string())),
        UpstreamMessage::Text("abc".to_string())
    );
    assert_eq!(state.websocket_traffic(), u64::MAX - 2);
    relay_up(&mut state, ClientMessage::Text("ab".to_string()));
    assert_eq!(state.websocket_traffic(), u64::MAX);
}
