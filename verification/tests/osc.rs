use base64::Engine;
use tabra::session::osc::{OscEvent, OscParser};

fn make_osc(code: &str, payload: &str) -> Vec<u8> {
    let mut bytes = Vec::new();
    bytes.extend_from_slice(b"\x1b]6973;");
    bytes.extend_from_slice(code.as_bytes());
    if !payload.is_empty() {
        bytes.push(b';');
        bytes.extend_from_slice(payload.as_bytes());
    }
    bytes.push(0x07);
    bytes
}

#[test]
fn test_passthrough_normal_bytes() {
    let mut parser = OscParser::new();
    let (pass, events) = parser.feed(b"hello world");
    assert_eq!(pass, b"hello world");
    assert!(events.is_empty());
}

#[test]
fn test_strip_tabra_osc() {
    let mut parser = OscParser::new();
    let b64 = base64::engine::general_purpose::STANDARD.encode("git ");
    let osc = make_osc("CL", &format!("{};4", b64));
    let mut input = b"before".to_vec();
    input.extend_from_slice(&osc);
    input.extend_from_slice(b"after");

    let (pass, events) = parser.feed(&input);
    assert_eq!(pass, b"beforeafter");
    assert_eq!(events.len(), 1);
    assert_eq!(
        events[0],
        OscEvent::CommandLine {
            buffer: "git ".to_string(),
            cursor: 4
        }
    );
}

#[test]
fn test_prompt_events() {
    let mut parser = OscParser::new();
    let mut input = make_osc("PS", "");
    input.extend_from_slice(&make_osc("PE", ""));

    let (pass, events) = parser.feed(&input);
    assert!(pass.is_empty());
    assert_eq!(events, vec![OscEvent::PromptStart, OscEvent::PromptEnd]);
}

#[test]
fn test_non_tabra_osc_passthrough() {
    let mut parser = OscParser::new();
    let input = b"\x1b]0;window title\x07rest";
    let (pass, events) = parser.feed(input);
    assert_eq!(pass, b"\x1b]0;window title\x07rest");
    assert!(events.is_empty());
}

#[test]
fn test_split_across_chunks() {
    let mut parser = OscParser::new();
    let b64 = base64::engine::general_purpose::STANDARD.encode("ls");
    let osc = make_osc("CL", &format!("{};2", b64));

    let mid = osc.len() / 2;
    let (pass1, events1) = parser.feed(&osc[..mid]);
    let (pass2, events2) = parser.feed(&osc[mid..]);

    assert!(pass1.is_empty() || pass2.is_empty());
    let all_events: Vec<_> = events1.into_iter().chain(events2).collect();
    assert_eq!(all_events.len(), 1);
    assert_eq!(
        all_events[0],
        OscEvent::CommandLine {
            buffer: "ls".to_string(),
            cursor: 2
        }
    );
}

#[test]
fn every_split_point_gives_the_same_result() {
    let b64 = base64::engine::general_purpose::STANDARD.encode("echo héllo");
    let mut input = b"a\x1b]0;t\x07b".to_vec();
    input.extend_from_slice(&make_osc("CL", &format!("{};10", b64)));
    input.extend_from_slice(b"\x1b]69c");
    let mut whole = OscParser::new();
    let (pass_all, events_all) = whole.feed(&input);
    for mid in 0..=input.len() {
        let mut p = OscParser::new();
        let (mut pass, mut events) = p.feed(&input[..mid]);
        let (pass2, events2) = p.feed(&input[mid..]);
        pass.extend_from_slice(&pass2);
        events.extend(events2);
        assert_eq!(pass, pass_all);
        assert_eq!(events, events_all);
    }
    assert_eq!(
        events_all,
        vec![OscEvent::CommandLine {
            buffer: "echo héllo".to_string(),
            cursor: 10
        }]
    );
}

#[test]
fn bad_payloads_are_dropped() {
    let mut parser = OscParser::new();
    let mut input = make_osc("CL", "not base64!;3");
    input.extend_from_slice(&make_osc("CL", "Z2l0;x"));
    input.extend_from_slice(&make_osc("XX", ""));
    let (pass, events) = parser.feed(&input);
    assert!(pass.is_empty());
    assert!(events.is_empty());
}
