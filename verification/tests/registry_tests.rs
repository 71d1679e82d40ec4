use airnc::registry::{
    db_settings, header_text, open_session, origin_allowed, CloseReason, Data, SessionError, WsAction,
    WsEvent, WsSession,
};
use airnc::text::PortParseError;

#[test]
fn header_text_accepts_visible_ascii() {
    assert_eq!(header_text(b"dGhlIHNhbXBsZSBub25jZQ=="), Some("dGhlIHNhbXBsZSBub25jZQ==".to_string()));
    assert_eq!(header_text(b"a\tb ~"), Some("a\tb ~".to_string()));
    assert_eq!(header_text(b""), Some(String::new()));
    assert_eq!(header_text(b"bad\x7f"), None);
    assert_eq!(header_text(b"new\nline"), None);
    assert_eq!(header_text("é".as_bytes()), None);
}

#[test]
fn open_session_checks_in_order() {
    let s = open_session(Some("10.0.0.9".to_string()), Some(b"key123")).unwrap();
    assert_eq!(s.ip, "10.0.0.9");
    assert_eq!(s.websocket_key, "key123");
    assert!(matches!(open_session(None, None), Err(SessionError::UnknownPeer)));
    assert!(matches!(open_session(None, Some(b"\x01")), Err(SessionError::UnknownPeer)));
    assert!(matches!(open_session(Some("x".to_string()), None), Err(SessionError::MissingKey)));
    assert!(matches!(open_session(Some("x".to_string()), Some(b"\x01")), Err(SessionError::InvalidKey)));
}

#[test]
fn origin_must_match_header() {
    assert!(origin_allowed(b"http://a.example", b"http://a.example"));
    assert!(!origin_allowed(b"http://a.example", b"http://b.example"));
    assert!(!origin_allowed(b"http://a", b"http://a.example"));
}

#[test]
fn db_settings_parse_port() {
    let d = db_settings("u".to_string(), "p".to_string(), "h".to_string(), "3306", "db".to_string()).unwrap();
    assert_eq!((d.user.as_str(), d.password.as_str(), d.host.as_str(), d.port, d.name.as_str()), ("u", "p", "h", 3306, "db"));
    assert!(matches!(
        db_settings("u".to_string(), "p".to_string(), "h".to_string(), "70000", "db".to_string()),
        Err(PortParseError::PosOverflow)
    ));
    assert!(matches!(
        db_settings("u".to_string(), "p".to_string(), "h".to_string(), "", "db".to_string()),
        Err(PortParseError::Empty)
    ));
}

#[test]
fn session_handles_events() {
    let s = WsSession { ip: "10.0.0.9".to_string(), websocket_key: "K".to_string() };
    assert_eq!(s.greeting(), "K");
    assert_eq!(s.farewell_key(), "K");
    match s.handle(WsEvent::Text(Data { ip: "1.1.1.1".to_string(), link: "http://l".to_string() })) {
        WsAction::Register { ip, link, websocket_key } => {
            assert_eq!(ip, "1.1.1.1");
            assert_eq!(link, "http://l");
            assert_eq!(websocket_key, "K");
        }
        _ => panic!("expected a registration"),
    }
    match s.handle(WsEvent::Close(Some(CloseReason { code: 1000, description: Some("bye".to_string()) }))) {
        WsAction::Close(Some(r)) => {
            assert_eq!(r.code, 1000);
            assert_eq!(r.description.as_deref(), Some("bye"));
        }
        _ => panic!("expected a close"),
    }
    assert!(matches!(s.handle(WsEvent::Close(None)), WsAction::Close(None)));
    assert!(matches!(s.handle(WsEvent::Other), WsAction::Ignore));
}
