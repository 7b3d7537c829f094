use tabra::session::buffer_tracker::BufferTracker;
use tabra::session::keys::KeyEvent;

#[test]
fn test_char_insert() {
    let mut t = BufferTracker::new();
    t.on_key(&KeyEvent::Char('g'));
    t.on_key(&KeyEvent::Char('i'));
    t.on_key(&KeyEvent::Char('t'));
    assert_eq!(t.buffer, "git");
    assert_eq!(t.cursor, 3);
}

#[test]
fn test_backspace() {
    let mut t = BufferTracker::new();
    t.on_key(&KeyEvent::Char('g'));
    t.on_key(&KeyEvent::Char('i'));
    t.on_key(&KeyEvent::Backspace);
    assert_eq!(t.buffer, "g");
    assert_eq!(t.cursor, 1);
}

#[test]
fn test_enter_clears() {
    let mut t = BufferTracker::new();
    t.on_key(&KeyEvent::Char('l'));
    t.on_key(&KeyEvent::Char('s'));
    t.on_key(&KeyEvent::Enter);
    assert_eq!(t.buffer, "");
    assert_eq!(t.cursor, 0);
}

#[test]
fn test_space_in_buffer() {
    let mut t = BufferTracker::new();
    for c in "git ".chars() {
        t.on_key(&KeyEvent::Char(c));
    }
    assert_eq!(t.buffer, "git ");
    assert_eq!(t.cursor, 4);
}

#[test]
fn insert_in_the_middle_after_arrow_left() {
    let mut t = BufferTracker::new();
    for c in "gt".chars() {
        t.on_key(&KeyEvent::Char(c));
    }
    assert!(!t.on_key(&KeyEvent::ArrowLeft));
    assert!(t.on_key(&KeyEvent::Char('i')));
    assert_eq!(t.buffer, "git");
    assert_eq!(t.cursor, 2);
    assert!(!t.on_key(&KeyEvent::ArrowRight));
    assert_eq!(t.cursor, 3);
    assert!(!t.on_key(&KeyEvent::ArrowRight));
    assert_eq!(t.cursor, 3);
}

#[test]
fn backspace_at_start_changes_nothing() {
    let mut t = BufferTracker::new();
    assert!(!t.on_key(&KeyEvent::Backspace));
    assert_eq!(t.buffer, "");
    assert_eq!(t.cursor, 0);
}

#[test]
fn char_then_backspace_restores_buffer() {
    let mut t = BufferTracker::new();
    t.sync("héllo".to_string(), 2);
    t.on_key(&KeyEvent::Char('ü'));
    assert_eq!(t.buffer, "héüllo");
    t.on_key(&KeyEvent::Backspace);
    assert_eq!(t.buffer, "héllo");
    assert_eq!(t.cursor, 2);
}

#[test]
fn ctrl_c_clears_and_ctrl_l_keeps() {
    let mut t = BufferTracker::new();
    t.sync("ls".to_string(), 2);
    assert!(!t.on_key(&KeyEvent::CtrlL));
    assert_eq!(t.buffer, "ls");
    assert!(t.on_key(&KeyEvent::CtrlC));
    assert_eq!(t.buffer, "");
    assert_eq!(t.cursor, 0);
}

#[test]
fn char_to_byte_counts_utf8_bytes() {
    let mut t = BufferTracker::new();
    t.sync("aé€b".to_string(), 0);
    assert_eq!(t.char_to_byte(0), 0);
    assert_eq!(t.char_to_byte(1), 1);
    assert_eq!(t.char_to_byte(2), 3);
    assert_eq!(t.char_to_byte(3), 6);
    assert_eq!(t.char_to_byte(4), 7);
    assert_eq!(t.char_to_byte(10), 7);
}

#[test]
fn sync_replaces_buffer_and_cursor() {
    let mut t = BufferTracker::new();
    t.sync("git st".to_string(), 6);
    assert_eq!(t.buffer, "git st");
    assert_eq!(t.cursor, 6);
    assert!(t.active);
}
