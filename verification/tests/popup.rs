use tabra::ipc::protocol::{CompletionItem, Response};
use tabra::session::keys::KeyEvent;
use tabra::session::popup::{PopupAction, PopupState};
use tabra::spec::types::SuggestionType;

fn make_popup(cols: u16) -> PopupState {
    PopupState::new(cols)
}

fn item(name: &str, description: &str) -> CompletionItem {
    CompletionItem {
        display: name.into(),
        insert: name.into(),
        description: description.into(),
        kind: SuggestionType::Subcommand,
        match_indices: vec![],
        is_dangerous: false,
    }
}

#[test]
fn test_forward_key_when_not_visible() {
    let mut popup = make_popup(80);
    let action = popup.on_key(&KeyEvent::Char('a'));
    match action {
        PopupAction::ForwardKey(bytes) => assert_eq!(bytes, b"a"),
        _ => panic!("expected ForwardKey"),
    }
}

#[test]
fn test_escape_hides_popup() {
    let mut popup = make_popup(80);
    popup.visible = true;
    popup.popup_lines = 5;
    popup.items = vec![item("test", "")];

    let action = popup.on_key(&KeyEvent::Escape);
    match action {
        PopupAction::Erase { lines } => assert_eq!(lines, 5),
        _ => panic!("expected Erase"),
    }
    assert!(!popup.visible);
}

#[test]
fn test_arrow_down_navigates() {
    let mut popup = make_popup(80);
    popup.visible = true;
    popup.items = (0..5).map(|i| item(&format!("item{i}"), "")).collect();

    popup.on_key(&KeyEvent::ArrowDown);
    assert_eq!(popup.selected, 1);
    popup.on_key(&KeyEvent::ArrowDown);
    assert_eq!(popup.selected, 2);
}

#[test]
fn test_tab_accepts() {
    let mut popup = make_popup(80);
    popup.visible = true;
    popup.last_buffer = "git ".to_string();
    popup.last_cursor = 4;
    popup.items = vec![item("commit", "Record changes")];

    let action = popup.on_key(&KeyEvent::Tab);
    match action {
        PopupAction::Accept {
            token_start,
            insert_text,
            lines,
        } => {
            assert_eq!(token_start, 4);
            assert_eq!(insert_text, "commit");
            assert_eq!(lines, 1);
        }
        _ => panic!("expected Accept"),
    }
    assert!(!popup.visible);
}

#[test]
fn test_find_token_start() {
    let mut popup = make_popup(80);

    popup.last_buffer = "git commit -m 'hello world'".to_string();
    popup.last_cursor = 27;
    assert_eq!(popup.find_token_start(), 14);

    popup.last_buffer = "git checkout ".to_string();
    popup.last_cursor = 13;
    assert_eq!(popup.find_token_start(), 13);

    popup.last_buffer = "git ".to_string();
    popup.last_cursor = 4;
    assert_eq!(popup.find_token_start(), 4);
}

#[test]
fn test_enter_hides_and_forwards() {
    let mut popup = make_popup(80);
    popup.visible = true;
    popup.popup_lines = 3;
    popup.items = vec![item("test", "")];

    let action = popup.on_key(&KeyEvent::Enter);
    match action {
        PopupAction::ForwardKey(bytes) => assert_eq!(bytes, vec![0x0d]),
        _ => panic!("expected ForwardKey for Enter"),
    }
    assert!(!popup.visible);
}

#[test]
fn arrow_down_then_up_restores_selection() {
    let mut popup = make_popup(80);
    popup.visible = true;
    popup.items = (0..12).map(|i| item(&format!("item{i}"), "")).collect();
    for start in 0..10 {
        popup.selected = start;
        popup.on_key(&KeyEvent::ArrowDown);
        popup.on_key(&KeyEvent::ArrowUp);
        assert_eq!(popup.selected, start);
    }
}

#[test]
fn arrow_navigation_wraps_within_visible_items() {
    let mut popup = make_popup(80);
    popup.visible = true;
    popup.items = (0..12).map(|i| item(&format!("item{i}"), "")).collect();
    popup.selected = 9;
    popup.on_key(&KeyEvent::ArrowDown);
    assert_eq!(popup.selected, 0);
    popup.on_key(&KeyEvent::ArrowUp);
    assert_eq!(popup.selected, 9);
}

#[test]
fn command_line_with_completions_shows_rendered_popup() {
    let mut popup = make_popup(80);
    let response = Response::Completions {
        items: vec![item("commit", ""), item("checkout", "")],
        selected: 0,
        query: "c".to_string(),
        rendered_popup: Some("a\nb\nc\n".to_string()),
    };
    let action = popup.on_command_line("git c".to_string(), 5, Some(response));
    match action {
        PopupAction::Show(s) => assert_eq!(s, "a\nb\nc\n"),
        _ => panic!("expected Show"),
    }
    assert!(popup.visible);
    assert_eq!(popup.popup_lines, 3);
    assert_eq!(popup.items.len(), 2);
    assert_eq!(popup.last_buffer, "git c");
    assert_eq!(popup.last_cursor, 5);
}

#[test]
fn command_line_without_completions_hides() {
    let mut popup = make_popup(80);
    popup.visible = true;
    popup.popup_lines = 4;
    popup.items = vec![item("x", "")];
    let action = popup.on_command_line("zz".to_string(), 2, Some(Response::Empty));
    match action {
        PopupAction::Erase { lines } => assert_eq!(lines, 4),
        _ => panic!("expected Erase"),
    }
    assert!(!popup.visible);
    let action = popup.on_command_line("zz".to_string(), 2, None);
    assert!(matches!(action, PopupAction::Nothing));
}

#[test]
fn command_line_renders_locally_when_not_prerendered() {
    let mut popup = make_popup(80);
    let response = Response::Completions {
        items: vec![item("add", "Add files")],
        selected: 0,
        query: String::new(),
        rendered_popup: None,
    };
    let action = popup.on_command_line("git ".to_string(), 4, Some(response));
    match action {
        PopupAction::Show(s) => {
            assert!(s.contains("Add files"));
            assert!(s.ends_with("\x1b[3A\r\x1b[?25h"));
        }
        _ => panic!("expected Show"),
    }
    assert_eq!(popup.popup_lines, 3);
}

#[test]
fn hiding_twice_does_nothing_the_second_time() {
    let mut popup = make_popup(80);
    popup.visible = true;
    popup.popup_lines = 4;
    popup.items = vec![item("a", "")];
    assert!(matches!(popup.on_key(&KeyEvent::Escape), PopupAction::Erase { lines: 4 }));
    match popup.on_key(&KeyEvent::Escape) {
        PopupAction::ForwardKey(bytes) => assert_eq!(bytes, vec![0x1b]),
        _ => panic!("hidden popup forwards keys"),
    }
}
