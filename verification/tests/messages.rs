use traffic_proxy::ws::{
    axum_to_tungstein, client_payload_len, tungstein_to_axum, upstream_payload_len, ClientMessage,
    CloseFrame, OpCode, RawFrame, UpstreamMessage,
};

fn raw(opcode: OpCode, payload: Vec<u8>) -> RawFrame {
    RawFrame { is_final: true, rsv1: false, rsv2: false, rsv3: false, opcode, mask: None, payload }
}

#[test]
fn text_goes_upstream_unchanged() {
    assert_eq!(
        axum_to_tungstein(ClientMessage::Text("hello".to_string())),
        UpstreamMessage::Text("hello".to_string())
    );
}

#[test]
fn binary_and_control_go_upstream_unchanged() {
    assert_eq!(
        axum_to_tungstein(ClientMessage::Binary(vec![1, 2, 3])),
        UpstreamMessage::Binary(vec![1, 2, 3])
    );
    assert_eq!(
        axum_to_tungstein(ClientMessage::Ping(vec![9])),
        UpstreamMessage::Ping(vec![9])
    );
    assert_eq!(
        axum_to_tungstein(ClientMessage::Pong(vec![])),
        UpstreamMessage::Pong(vec![])
    );
}

#[test]
fn close_goes_upstream_without_code_and_reason() {
    let close = ClientMessage::Close(Some(CloseFrame { code: 1001, reason: "bye".to_string() }));
    assert_eq!(axum_to_tungstein(close), UpstreamMessage::Close(None));
    assert_eq!(
        axum_to_tungstein(ClientMessage::Close(None)),
        UpstreamMessage::Close(None)
    );
}

#[test]
fn messages_come_back_unchanged() {
    assert_eq!(
        tungstein_to_axum(UpstreamMessage::Text("x".to_string())),
        Some(ClientMessage::Text("x".to_string()))
    );
    assert_eq!(
        tungstein_to_axum(UpstreamMessage::Binary(vec![7, 7])),
        Some(ClientMessage::Binary(vec![7, 7]))
    );
    assert_eq!(
        tungstein_to_axum(UpstreamMessage::Ping(vec![1])),
        Some(ClientMessage::Ping(vec![1]))
    );
    assert_eq!(
        tungstein_to_axum(UpstreamMessage::Pong(vec![2])),
        Some(ClientMessage::Pong(vec![2]))
    );
}

#[test]
fn close_comes_back_without_code_and_reason() {
    let close = UpstreamMessage::Close(Some(CloseFrame { code: 1000, reason: String::new() }));
    assert_eq!(tungstein_to_axum(close), Some(ClientMessage::Close(None)));
}

#[test]
fn raw_frame_has_no_counterpart() {
    assert_eq!(tungstein_to_axum(UpstreamMessage::Frame(raw(OpCode::Text, vec![0x61]))), None);
    let masked = RawFrame {
        is_final: false,
        rsv1: true,
        rsv2: false,
        rsv3: false,
        opcode: OpCode::DataReserved(5),
        mask: Some([1, 2, 3, 4]),
        payload: Vec::new(),
    };
    assert_eq!(tungstein_to_axum(UpstreamMessage::Frame(masked)), None);
}

#[test]
fn payload_of_text_is_its_length_in_bytes() {
    assert_eq!(client_payload_len(&ClientMessage::Text("abc".to_string())), 3);
    assert_eq!(client_payload_len(&ClientMessage::Text("h\u{e9}".to_string())), 3);
    assert_eq!(client_payload_len(&ClientMessage::Text(String::new())), 0);
    assert_eq!(upstream_payload_len(&UpstreamMessage::Text("\u{1f600}".to_string())), 4);
}

#[test]
fn payload_of_binary_is_its_length() {
    assert_eq!(client_payload_len(&ClientMessage::Binary(vec![0; 1000])), 1000);
    assert_eq!(upstream_payload_len(&UpstreamMessage::Binary(vec![1, 2])), 2);
}

#[test]
fn control_messages_have_no_counted_payload() {
    assert_eq!(client_payload_len(&ClientMessage::Ping(vec![1, 2, 3])), 0);
    assert_eq!(client_payload_len(&ClientMessage::Pong(vec![1, 2, 3])), 0);
    assert_eq!(
        client_payload_len(&ClientMessage::Close(Some(CloseFrame {
            code: 1000,
            reason: "done".to_string()
        }))),
        0
    );
    assert_eq!(upstream_payload_len(&UpstreamMessage::Ping(vec![1])), 0);
    assert_eq!(upstream_payload_len(&UpstreamMessage::Pong(vec![1])), 0);
    assert_eq!(upstream_payload_len(&UpstreamMessage::Close(None)), 0);
    assert_eq!(upstream_payload_len(&UpstreamMessage::Frame(raw(OpCode::Binary, vec![1, 2, 3]))), 0);
}
