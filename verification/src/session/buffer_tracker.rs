//! Local tracker of the command line buffer for the PTY session.
//!
//! Follows the keystrokes forwarded to the PTY. Readline's more complex
//! editing (Ctrl-A, Ctrl-W, word movement, kill ring, ...) is not followed;
//! a later sync from the shell corrects the buffer.
use vstd::prelude::*;
use crate::session::keys::{KeyEvent, KeyView};
use crate::text::{byte_len, chars_of, lemma_byte_len_prefix, lemma_encode_push, string_of, utf8_len};

verus! {

/// Tracks the command line buffer locally.
pub struct BufferTracker {
    /// Current buffer content.
    pub buffer: String,
    /// Cursor position (character index).
    pub cursor: usize,
    /// Whether we're in a command (after prompt, before Enter).
    pub active: bool,
}

pub struct TrackerView {
    pub buffer: Seq<char>,
    pub cursor: usize,
    pub active: bool,
}

impl View for BufferTracker {
    type V = TrackerView;

    open spec fn view(&self) -> TrackerView {
        TrackerView { buffer: self.buffer@, cursor: self.cursor, active: self.active }
    }
}

/// The cursor clamped to the buffer: where characters are inserted.
pub open spec fn insert_point(t: TrackerView) -> int {
    if t.cursor <= t.buffer.len() {
        t.cursor as int
    } else {
        t.buffer.len() as int
    }
}

/// The tracker after a key, and whether the buffer changed.
pub open spec fn on_key_spec(t: TrackerView, key: KeyView) -> (TrackerView, bool) {
    match key {
        KeyView::Char(c) => {
            let j = insert_point(t);
            (
                TrackerView {
                    buffer: t.buffer.take(j).push(c) + t.buffer.skip(j),
                    cursor: (t.cursor + 1) as usize,
                    ..t
                },
                true,
            )
        },
        KeyView::Backspace => if t.cursor > 0 {
            let k = t.cursor - 1;
            (
                TrackerView {
                    buffer: if k < t.buffer.len() {
                        t.buffer.take(k) + t.buffer.skip(k + 1)
                    } else {
                        t.buffer
                    },
                    cursor: k as usize,
                    ..t
                },
                true,
            )
        } else {
            (t, false)
        },
        KeyView::Enter | KeyView::CtrlC => (TrackerView { buffer: seq![], cursor: 0, ..t }, true),
        KeyView::ArrowLeft => if t.cursor > 0 {
            (TrackerView { cursor: (t.cursor - 1) as usize, ..t }, false)
        } else {
            (t, false)
        },
        KeyView::ArrowRight => if t.cursor < t.buffer.len() {
            (TrackerView { cursor: (t.cursor + 1) as usize, ..t }, false)
        } else {
            (t, false)
        },
        _ => (t, false),
    }
}

impl BufferTracker {
    pub fn new() -> (t: Self)
        ensures
            t@ == (TrackerView { buffer: seq![], cursor: 0, active: true }),
    {
        BufferTracker { buffer: String::new(), cursor: 0, active: true }
    }

    /// Process a key event that was forwarded to the PTY.
    /// Returns true if the buffer changed (popup should update).
    pub fn on_key(&mut self, event: &KeyEvent) -> (changed: bool)
        requires
            event@ is Char ==> old(self).cursor < usize::MAX,
        ensures
            (final(self)@, changed) == on_key_spec(old(self)@, event@),
    {
        match event {
            KeyEvent::Char(c) => {
                let cs = chars_of(self.buffer.as_str());
                let j = if self.cursor <= cs.len() {
                    self.cursor
                } else {
                    cs.len()
                };
                let mut v: Vec<char> = Vec::new();
                let mut i: usize = 0;
                while i < j
                    invariant
                        i <= j <= cs@.len(),
                        v@ == cs@.take(i as int),
                    decreases j - i,
                {
                    v.push(cs[i]);
                    assert(cs@.take(i + 1) =~= cs@.take(i as int).push(cs@[i as int]));
                    i += 1;
                }
                v.push(*c);
                let ghost head = v@;
                while i < cs.len()
                    invariant
                        j <= i <= cs@.len(),
                        v@ == head + cs@.subrange(j as int, i as int),
                    decreases cs.len() - i,
                {
                    v.push(cs[i]);
                    assert(cs@.subrange(j as int, i + 1) =~= cs@.subrange(j as int, i as int).push(cs@[i as int]));
                    i += 1;
                }
                assert(v@ =~= cs@.take(j as int).push(*c) + cs@.skip(j as int));
                self.buffer = string_of(v.as_slice());
                self.cursor = self.cursor + 1;
                true
            },
            KeyEvent::Backspace => {
                if self.cursor > 0 {
                    self.cursor = self.cursor - 1;
                    let cs = chars_of(self.buffer.as_str());
                    let k = self.cursor;
                    if k < cs.len() {
                        let mut v: Vec<char> = Vec::new();
                        let mut i: usize = 0;
                        while i < cs.len()
                            invariant
                                k < cs@.len(),
                                i <= cs@.len(),
                                v@ == (if i <= k { cs@.take(i as int) } else { cs@.take(k as int) + cs@.subrange(k + 1, i as int) }),
                            decreases cs.len() - i,
                        {
                            if i != k {
                                v.push(cs[i]);
                            }
                            proof {
                                if i < k {
                                    assert(cs@.take(i + 1) =~= cs@.take(i as int).push(cs@[i as int]));
                                } else if i == k {
                                    assert(cs@.subrange(k + 1, i + 1) =~= Seq::<char>::empty());
                                    assert(cs@.take(k as int) + cs@.subrange(k + 1, i + 1) =~= cs@.take(k as int));
                                } else {
                                    assert(cs@.subrange(k + 1, i + 1) =~= cs@.subrange(k + 1, i as int).push(cs@[i as int]));
                                }
                            }
                            i += 1;
                        }
                        assert(v@ =~= cs@.take(k as int) + cs@.skip(k + 1));
                        self.buffer = string_of(v.as_slice());
                    }
                    true
                } else {
                    false
                }
            },
            KeyEvent::Enter => {
                self.buffer = String::new();
                self.cursor = 0;
                true
            },
            KeyEvent::CtrlC => {
                self.buffer = String::new();
                self.cursor = 0;
                true
            },
            KeyEvent::CtrlL => false,
            KeyEvent::ArrowLeft => {
                if self.cursor > 0 {
                    self.cursor -= 1;
                }
                false
            },
            KeyEvent::ArrowRight => {
                let char_len = chars_of(self.buffer.as_str()).len();
                if self.cursor < char_len {
                    self.cursor += 1;
                }
                false
            },
            _ => false,
        }
    }

    /// Byte offset in the buffer of the character at `char_idx`, or the
    /// buffer's byte length when there is no such character.
    pub fn char_to_byte(&self, char_idx: usize) -> (r: usize)
        ensures
            r == byte_len(
                self.buffer@.take(
                    if char_idx < self.buffer@.len() {
                        char_idx as int
                    } else {
                        self.buffer@.len() as int
                    },
                ),
            ),
    {
        let total = self.buffer.as_str().as_bytes().len();
        let cs = chars_of(self.buffer.as_str());
        let n = if char_idx < cs.len() { char_idx } else { cs.len() };
        let mut pos: usize = 0;
        let mut i: usize = 0;
        assert(cs@.take(0) =~= Seq::<char>::empty());
        assert(vstd::utf8::encode_utf8(Seq::<char>::empty()) =~= Seq::<u8>::empty());
        while i < n
            invariant
                i <= n <= cs@.len(),
                cs@ == self.buffer@,
                total == byte_len(cs@),
                pos == byte_len(cs@.take(i as int)),
            decreases n - i,
        {
            proof {
                lemma_byte_len_prefix(cs@, i + 1, cs@.len() as int);
                assert(cs@.take(cs@.len() as int) =~= cs@);
                assert(cs@.take(i + 1) =~= cs@.take(i as int).push(cs@[i as int]));
                lemma_encode_push(cs@.take(i as int), cs@[i as int]);
            }
            pos = pos + utf8_len(cs[i]);
            i += 1;
        }
        pos
    }

    /// Sync buffer from an OSC CommandLine event.
    pub fn sync(&mut self, buffer: String, cursor: usize)
        ensures
            final(self)@ == (TrackerView { buffer: buffer@, cursor, active: old(self).active }),
    {
        self.buffer = buffer;
        self.cursor = cursor;
    }
}

} // verus!

verus! {

/// Typing a character and deleting it with Backspace gives back the
/// buffer and cursor as they were, when the cursor is within the buffer.
pub proof fn law_char_then_backspace(t: TrackerView, c: char)
    requires
        t.cursor <= t.buffer.len(),
        t.cursor < usize::MAX,
    ensures
        on_key_spec(on_key_spec(t, KeyView::Char(c)).0, KeyView::Backspace).0 == t,
{
    let t1 = on_key_spec(t, KeyView::Char(c)).0;
    let j = t.cursor as int;
    assert(t1.buffer.take(j) =~= t.buffer.take(j));
    assert(t1.buffer.skip(j + 1) =~= t.buffer.skip(j));
    assert(t.buffer.take(j) + t.buffer.skip(j) =~= t.buffer);
}

/// The cursor stays within the buffer through every key, once it is.
pub proof fn law_cursor_within_buffer(t: TrackerView, key: KeyView)
    requires
        t.cursor <= t.buffer.len(),
        t.cursor < usize::MAX,
    ensures
        on_key_spec(t, key).0.cursor <= on_key_spec(t, key).0.buffer.len(),
{
}

} // verus!
