use tabra::session::keys::{decode_utf8_char, parse_bytes, KeyEvent};

#[test]
fn test_parse_simple_chars() {
    let (events, pending) = parse_bytes(b"abc", false);
    assert!(!pending);
    assert_eq!(
        events,
        vec![KeyEvent::Char('a'), KeyEvent::Char('b'), KeyEvent::Char('c')]
    );
}

#[test]
fn test_parse_arrow_keys() {
    let (events, pending) = parse_bytes(b"\x1b[A\x1b[B", false);
    assert!(!pending);
    assert_eq!(events, vec![KeyEvent::ArrowUp, KeyEvent::ArrowDown]);
}

#[test]
fn test_parse_tab_enter_backspace() {
    let (events, pending) = parse_bytes(b"\x09\x0d\x7f", false);
    assert!(!pending);
    assert_eq!(events, vec![KeyEvent::Tab, KeyEvent::Enter, KeyEvent::Backspace]);
}

#[test]
fn test_parse_lone_escape_pending() {
    let (events, pending) = parse_bytes(b"\x1b", false);
    assert!(pending);
    assert!(events.is_empty());
}

#[test]
fn test_parse_pending_escape_timeout() {
    let (events, pending) = parse_bytes(b"", true);
    assert!(!pending);
    assert_eq!(events, vec![KeyEvent::Escape]);
}

#[test]
fn test_parse_pending_escape_then_bracket() {
    let (events, pending) = parse_bytes(b"[A", true);
    assert!(!pending);
    assert_eq!(events, vec![KeyEvent::ArrowUp]);
}

#[test]
fn test_parse_ctrl_c_d() {
    let (events, _) = parse_bytes(b"\x03\x04", false);
    assert_eq!(events, vec![KeyEvent::CtrlC, KeyEvent::CtrlD]);
}

#[test]
fn test_parse_mixed() {
    let (events, _) = parse_bytes(b"g\x1b[Bi\x09", false);
    assert_eq!(
        events,
        vec![KeyEvent::Char('g'), KeyEvent::ArrowDown, KeyEvent::Char('i'), KeyEvent::Tab]
    );
}

#[test]
fn parse_multibyte_char() {
    let (events, pending) = parse_bytes("é→".as_bytes(), false);
    assert!(!pending);
    assert_eq!(events, vec![KeyEvent::Char('é'), KeyEvent::Char('→')]);
}

#[test]
fn decode_utf8_char_reports_length() {
    assert_eq!(decode_utf8_char("€x".as_bytes()), Some(('€', 3)));
    assert_eq!(decode_utf8_char(b"a"), Some(('a', 1)));
    assert_eq!(decode_utf8_char(&[0xff]), None);
    assert_eq!(decode_utf8_char(&[]), None);
}

#[test]
fn raw_bytes_round_trip_through_parser() {
    let keys = vec![
        KeyEvent::Char('x'),
        KeyEvent::Char('ß'),
        KeyEvent::Tab,
        KeyEvent::Enter,
        KeyEvent::Backspace,
        KeyEvent::ArrowUp,
        KeyEvent::ArrowDown,
        KeyEvent::ArrowLeft,
        KeyEvent::ArrowRight,
        KeyEvent::CtrlC,
        KeyEvent::CtrlD,
        KeyEvent::CtrlL,
    ];
    for k in keys {
        let (events, pending) = parse_bytes(&k.raw_bytes(), false);
        assert!(!pending);
        assert_eq!(events, vec![k]);
    }
}

#[test]
fn escape_raw_bytes_leave_escape_pending() {
    let (events, pending) = parse_bytes(&KeyEvent::Escape.raw_bytes(), false);
    assert!(events.is_empty());
    assert!(pending);
    let (events, pending) = parse_bytes(b"", pending);
    assert_eq!(events, vec![KeyEvent::Escape]);
    assert!(!pending);
}

#[test]
fn horizontal_arrow_raw_bytes() {
    assert_eq!(KeyEvent::ArrowLeft.raw_bytes(), b"\x1b[D".to_vec());
    assert_eq!(KeyEvent::ArrowRight.raw_bytes(), b"\x1b[C".to_vec());
    let (events, _) = parse_bytes(&KeyEvent::ArrowLeft.raw_bytes(), false);
    assert_eq!(events, vec![KeyEvent::ArrowLeft]);
}
