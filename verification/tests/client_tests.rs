use airnc::client::{failure_message, on_client_event, ClientEvent};

#[test]
fn text_frames_are_printed() {
    let a = on_client_event(ClientEvent::Text("hello".to_string()));
    assert_eq!(a.line.as_deref(), Some("➤   Received: hello"));
    assert!(!a.stop);
}

#[test]
fn close_and_failure_stop() {
    let a = on_client_event(ClientEvent::Close);
    assert_eq!(a.line.as_deref(), Some("➤   Received close"));
    assert!(a.stop);
    let b = on_client_event(ClientEvent::Failed("reset".to_string()));
    assert_eq!(b.line.as_deref(), Some("websocket connect fail: reset"));
    assert!(b.stop);
    assert_eq!(failure_message("refused"), "websocket connect fail: refused");
}

#[test]
fn other_frames_are_passed_over() {
    let a = on_client_event(ClientEvent::Other);
    assert!(a.line.is_none());
    assert!(!a.stop);
}
