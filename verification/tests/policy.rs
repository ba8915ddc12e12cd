use traffic_proxy::dashboard::{handle_event, UiAction, UiEvent};
use traffic_proxy::state::State;
use traffic_proxy::tls::{
    supported_verify_schemes, verify_server_cert, verify_tls12_signature, verify_tls13_signature,
};

#[test]
fn any_certificate_is_accepted() {
    assert!(verify_server_cert(&[], &Vec::new(), "", &[], 0));
    assert!(verify_server_cert(
        b"not a certificate",
        &vec![b"nor this".to_vec()],
        "some.other.name",
        b"ocsp",
        u64::MAX
    ));
}

#[test]
fn any_signature_is_accepted() {
    assert!(verify_tls12_signature(b"message", b"cert", 0x0401, b"garbage"));
    assert!(verify_tls13_signature(b"", b"", 0xffff, b""));
}

#[test]
fn thirteen_schemes_are_offered() {
    assert_eq!(
        supported_verify_schemes(),
        vec![
            0x0201, 0x0203, 0x0401, 0x0403, 0x0501, 0x0503, 0x0601, 0x0603, 0x0804, 0x0805,
            0x0806, 0x0807, 0x0808
        ]
    );
}

#[test]
fn control_c_asks_for_shutdown() {
    let mut state = State::new();
    let action = handle_event(&mut state, UiEvent::Key { code: 'c', control: true }, 10);
    assert_eq!(action, UiAction::Shutdown);
    assert!(state.is_shutdown());
}

#[test]
fn control_with_the_spanish_key_asks_for_shutdown() {
    let mut state = State::new();
    let action = handle_event(&mut state, UiEvent::Key { code: '\u{d1}', control: true }, 10);
    assert_eq!(action, UiAction::Shutdown);
    assert!(state.is_shutdown());
}

#[test]
fn other_keys_do_nothing() {
    let mut state = State::new();
    for event in [
        UiEvent::Key { code: 'c', control: false },
        UiEvent::Key { code: 'C', control: true },
        UiEvent::Key { code: 'q', control: true },
        UiEvent::Other,
    ] {
        assert_eq!(handle_event(&mut state, event, 10), UiAction::Nothing);
    }
    assert!(!state.is_shutdown());
}

#[test]
fn wheel_pages_the_logs_in_the_log_pane() {
    let mut state = State::new();
    assert_eq!(handle_event(&mut state, UiEvent::ScrollDown { row: 0 }, 10), UiAction::LogsNextPage);
    assert_eq!(handle_event(&mut state, UiEvent::ScrollDown { row: 10 }, 10), UiAction::LogsNextPage);
    assert_eq!(handle_event(&mut state, UiEvent::ScrollUp { row: 3 }, 10), UiAction::LogsPrevPage);
    assert_eq!(handle_event(&mut state, UiEvent::ScrollUp { row: 10 }, 10), UiAction::LogsPrevPage);
}

#[test]
fn wheel_moves_the_table_below_the_log_pane() {
    let mut state = State::new();
    assert_eq!(handle_event(&mut state, UiEvent::ScrollDown { row: 11 }, 10), UiAction::TableNext);
    assert_eq!(handle_event(&mut state, UiEvent::ScrollUp { row: 11 }, 10), UiAction::TablePrev);
    assert_eq!(handle_event(&mut state, UiEvent::ScrollDown { row: 1 }, 0), UiAction::TableNext);
    assert_eq!(handle_event(&mut state, UiEvent::ScrollUp { row: u16::MAX }, 0), UiAction::TablePrev);
    assert!(!state.is_shutdown());
}
