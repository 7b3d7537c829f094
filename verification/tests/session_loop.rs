use tabra::ipc::protocol::{CompletionItem, Response};
use tabra::session::event_loop::{
    accept_ghost, accept_line, apply_completions, clear_ghost, ghost_accept, ghost_text, on_prompt_start,
};
use tabra::session::popup::PopupAction;
use tabra::session::popup::PopupState;
use tabra::spec::types::SuggestionType;

#[test]
fn ghost_text_extends_the_token() {
    assert_eq!(ghost_text("checkout", "git che", 4, 7), Some(b"ckout".to_vec()));
    assert_eq!(ghost_text("checkout", "git checkout", 4, 12), None);
    assert_eq!(ghost_text("commit", "git che", 4, 7), None);
    assert_eq!(ghost_text("commit", "git ", 4, 4), Some(b"commit".to_vec()));
    assert_eq!(ghost_text("commit", "git", 5, 3), None);
}

#[test]
fn ghost_accept_types_rest_and_space() {
    assert_eq!(ghost_accept("checkout", "git che", 4, 7), Some(b"ckout ".to_vec()));
    assert_eq!(ghost_accept("checkout", "git checkout", 4, 12), Some(b" ".to_vec()));
    assert_eq!(ghost_accept("push", "git che", 4, 7), None);
}

#[test]
fn accept_line_rewrites_the_line() {
    let mut expected = vec![0x01u8, 0x0b];
    expected.extend_from_slice(b"git commit ");
    assert_eq!(accept_line("git com", 7, 4, "commit"), expected);
    let mut expected = vec![0x01u8, 0x0b];
    expected.extend_from_slice(b"git checkout  --force");
    assert_eq!(accept_line("git ch --force", 6, 4, "checkout"), expected);
}

#[test]
fn prompt_start_hides_visible_popup() {
    let mut popup = PopupState::new(80);
    assert_eq!(on_prompt_start(&mut popup), None);
    popup.visible = true;
    popup.popup_lines = 14;
    popup.items = (0..12)
        .map(|i| CompletionItem {
            display: format!("i{i}"),
            insert: format!("i{i}"),
            description: String::new(),
            kind: SuggestionType::Arg,
            match_indices: vec![],
            is_dangerous: false,
        })
        .collect();
    assert_eq!(on_prompt_start(&mut popup), Some(10));
    assert!(!popup.visible);
    assert!(popup.items.is_empty());
    assert_eq!(popup.popup_lines, 0);
}

fn item(name: &str) -> CompletionItem {
    CompletionItem {
        display: name.to_string(),
        insert: name.to_string(),
        description: String::new(),
        kind: SuggestionType::Subcommand,
        match_indices: vec![],
        is_dangerous: false,
    }
}

#[test]
fn completions_update_popup_and_ghost() {
    let mut popup = PopupState::new(80);
    popup.ghost_len = 3;
    let response = Response::Completions {
        items: vec![item("checkout"), item("cherry-pick")],
        selected: 0,
        query: "ch".to_string(),
        rendered_popup: Some("x\ny\n".to_string()),
    };
    let r = apply_completions(&mut popup, "git ch".to_string(), 6, Some(response));
    assert_eq!(r.clear_ghost, 3);
    assert!(matches!(r.action, PopupAction::Show(_)));
    assert_eq!(r.ghost_tail, Some(b"eckout".to_vec()));
    assert_eq!(popup.ghost_len, 6);
    assert!(popup.visible);
    assert_eq!(popup.last_buffer, "git ch");
}

#[test]
fn empty_answer_hides_and_shows_no_ghost() {
    let mut popup = PopupState::new(80);
    let r = apply_completions(&mut popup, "zz".to_string(), 2, Some(Response::Empty));
    assert_eq!(r.clear_ghost, 0);
    assert!(matches!(r.action, PopupAction::Nothing));
    assert!(r.ghost_tail.is_none());
    assert_eq!(popup.ghost_len, 0);
}

#[test]
fn arrow_right_takes_the_ghost() {
    let mut popup = PopupState::new(80);
    let response = Response::Completions {
        items: vec![item("checkout")],
        selected: 0,
        query: "ch".to_string(),
        rendered_popup: Some("a\nb\nc\n".to_string()),
    };
    apply_completions(&mut popup, "git ch".to_string(), 6, Some(response));
    let taken = accept_ghost(&mut popup).unwrap();
    assert_eq!(taken.clear_ghost, 6);
    assert_eq!(taken.inject, b"eckout ".to_vec());
    assert_eq!(taken.erase_lines, Some(3));
    assert!(!popup.visible);
    assert_eq!(popup.ghost_len, 0);
    assert!(accept_ghost(&mut popup).is_none());
}

#[test]
fn keystroke_clears_ghost_text() {
    let mut popup = PopupState::new(80);
    popup.ghost_len = 5;
    popup.visible = true;
    assert_eq!(clear_ghost(&mut popup), Some(5));
    assert_eq!(popup.ghost_len, 0);
    assert!(popup.visible);
    assert_eq!(clear_ghost(&mut popup), None);
    assert_eq!(popup.ghost_len, 0);
}
