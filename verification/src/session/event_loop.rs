//! Decisions of the session event loop.
//!
//! The loop itself (reading the terminal and the PTY, writing to both,
//! timers and signals) runs around this library; what it types into the
//! shell and what it shows is decided here.
use vstd::prelude::*;
use crate::session::popup::{
    ActionView, PopupAction, PopupState, PopupView, on_command_line_spec, scan_limit, token_start_spec,
};
use crate::render::overlay::{cols_fit, visible_count, MAX_VISIBLE_ITEMS};
use crate::ipc::protocol::{ItemView, Response, item_views};

verus! {

/// The end of the typed text a ghost suggestion continues: the cursor,
/// taken as a byte offset, at most the buffer's length.
pub open spec fn token_end(buf: Seq<u8>, cursor: usize) -> int {
    if cursor < buf.len() {
        cursor as int
    } else {
        buf.len() as int
    }
}

/// The ghost text after the cursor: the rest of the first suggestion when
/// it extends the token being typed (`buf[token_start..end]`).
pub open spec fn ghost_spec(insert: Seq<u8>, buf: Seq<u8>, token_start: usize, cursor: usize) -> Option<Seq<u8>> {
    let end = token_end(buf, cursor);
    if token_start <= end {
        let tok = buf.subrange(token_start as int, end);
        if tok.len() < insert.len() && insert.take(tok.len() as int) == tok {
            Some(insert.skip(tok.len() as int))
        } else {
            None
        }
    } else {
        None
    }
}

/// What ArrowRight types to take the ghost suggestion: the rest of the
/// first suggestion after the typed token, and a space.
pub open spec fn ghost_accept_spec(insert: Seq<u8>, buf: Seq<u8>, token_start: usize, cursor: usize) -> Option<Seq<u8>> {
    let end = token_end(buf, cursor);
    let tok = buf.subrange(token_start as int, end);
    if tok.len() <= insert.len() && insert.take(tok.len() as int) == tok {
        Some(insert.skip(tok.len() as int).push(0x20u8))
    } else {
        None
    }
}

/// What accepting a suggestion types into the shell: Ctrl-A and Ctrl-K to
/// clear the line, then the line with the token replaced by the
/// suggestion and a space, and the text after the cursor.
pub open spec fn accept_line_spec(buf: Seq<u8>, cursor: usize, token_start: usize, insert: Seq<u8>) -> Seq<u8> {
    seq![0x01u8, 0x0bu8] + buf.take(token_start as int) + insert + seq![0x20u8] + if cursor < buf.len() {
        buf.skip(cursor as int)
    } else {
        seq![]
    }
}

/// Whether `prefix` starts `s`, byte by byte.
fn starts_with_bytes(s: &[u8], prefix: &[u8]) -> (r: bool)
    ensures
        r == (prefix@.len() <= s@.len() && s@.take(prefix@.len() as int) == prefix@),
{
    if prefix.len() > s.len() {
        return false;
    }
    let mut i: usize = 0;
    while i < prefix.len()
        invariant
            prefix@.len() <= s@.len(),
            i <= prefix@.len(),
            forall|k: int| 0 <= k < i ==> s@[k] == prefix@[k],
        decreases prefix.len() - i,
    {
        if s[i] != prefix[i] {
            assert(s@.take(prefix@.len() as int)[i as int] != prefix@[i as int]);
            return false;
        }
        i += 1;
    }
    assert(s@.take(prefix@.len() as int) =~= prefix@);
    true
}

/// The bytes `s[from..to]`.
fn byte_range(s: &[u8], from: usize, to: usize) -> (r: Vec<u8>)
    requires
        from <= to <= s@.len(),
    ensures
        r@ == s@.subrange(from as int, to as int),
{
    let mut v: Vec<u8> = Vec::new();
    let mut i = from;
    while i < to
        invariant
            from <= i <= to <= s@.len(),
            v@ == s@.subrange(from as int, i as int),
        decreases to - i,
    {
        v.push(s[i]);
        assert(s@.subrange(from as int, i + 1) =~= s@.subrange(from as int, i as int).push(s@[i as int]));
        i += 1;
    }
    v
}

/// The ghost text to show after the cursor once completions arrived for
/// `buffer`: the rest of the first suggestion's insert text when it
/// extends the token being typed, which starts at `token_start` (a byte
/// offset, from [`PopupState::find_token_start`]).
pub fn ghost_text(insert: &str, buffer: &str, token_start: usize, cursor: usize) -> (r: Option<Vec<u8>>)
    requires
        token_start <= token_end(vstd::utf8::encode_utf8(buffer@), cursor) ==> vstd::utf8::is_char_boundary(
            vstd::utf8::encode_utf8(buffer@),
            token_start as int,
        ) && vstd::utf8::is_char_boundary(vstd::utf8::encode_utf8(buffer@), token_end(vstd::utf8::encode_utf8(buffer@), cursor)),
    ensures
        match r {
            Some(g) => ghost_spec(vstd::utf8::encode_utf8(insert@), vstd::utf8::encode_utf8(buffer@), token_start, cursor) == Some(g@),
            None => ghost_spec(vstd::utf8::encode_utf8(insert@), vstd::utf8::encode_utf8(buffer@), token_start, cursor) is None,
        },
{
    let b = buffer.as_bytes();
    let ins = insert.as_bytes();
    let end = if cursor < b.len() { cursor } else { b.len() };
    if token_start > end {
        return None;
    }
    let tok = byte_range(b, token_start, end);
    if tok.len() < ins.len() && starts_with_bytes(ins, tok.as_slice()) {
        Some(byte_range(ins, tok.len(), ins.len()))
    } else {
        proof {
            if tok@.len() < ins@.len() {
                assert(!(ins@.take(tok@.len() as int) == tok@));
            }
        }
        None
    }
}

/// What ArrowRight types into the shell to take the ghost suggestion (the
/// rest of `insert` after the token typed from `token_start`, then a
/// space), or `None` when `insert` does not extend that token.
pub fn ghost_accept(insert: &str, buffer: &str, token_start: usize, cursor: usize) -> (r: Option<Vec<u8>>)
    requires
        token_start <= token_end(vstd::utf8::encode_utf8(buffer@), cursor),
        vstd::utf8::is_char_boundary(vstd::utf8::encode_utf8(buffer@), token_start as int),
        vstd::utf8::is_char_boundary(vstd::utf8::encode_utf8(buffer@), token_end(vstd::utf8::encode_utf8(buffer@), cursor)),
    ensures
        match r {
            Some(g) => ghost_accept_spec(vstd::utf8::encode_utf8(insert@), vstd::utf8::encode_utf8(buffer@), token_start, cursor) == Some(g@),
            None => ghost_accept_spec(vstd::utf8::encode_utf8(insert@), vstd::utf8::encode_utf8(buffer@), token_start, cursor) is None,
        },
{
    let b = buffer.as_bytes();
    let ins = insert.as_bytes();
    let end = if cursor < b.len() { cursor } else { b.len() };
    let tok = byte_range(b, token_start, end);
    if starts_with_bytes(ins, tok.as_slice()) {
        let mut rest = byte_range(ins, tok.len(), ins.len());
        rest.push(0x20);
        Some(rest)
    } else {
        None
    }
}

/// The bytes that accepting `insert_text` types into the shell: Ctrl-A,
/// Ctrl-K, then the line before the token, the inserted text and a space,
/// then what followed the cursor.
pub fn accept_line(buffer: &str, cursor: usize, token_start: usize, insert_text: &str) -> (r: Vec<u8>)
    requires
        token_start <= vstd::utf8::encode_utf8(buffer@).len(),
        vstd::utf8::is_char_boundary(vstd::utf8::encode_utf8(buffer@), token_start as int),
        cursor < vstd::utf8::encode_utf8(buffer@).len() ==> vstd::utf8::is_char_boundary(vstd::utf8::encode_utf8(buffer@), cursor as int),
    ensures
        r@ == accept_line_spec(vstd::utf8::encode_utf8(buffer@), cursor, token_start, vstd::utf8::encode_utf8(insert_text@)),
{
    let b = buffer.as_bytes();
    let ins = insert_text.as_bytes();
    let mut out: Vec<u8> = vec![0x01, 0x0b];
    let head = byte_range(b, 0, token_start);
    let mut i: usize = 0;
    let ghost start = out@;
    while i < head.len()
        invariant
            i <= head@.len(),
            out@ == start + head@.take(i as int),
        decreases head.len() - i,
    {
        out.push(head[i]);
        assert(head@.take(i + 1) =~= head@.take(i as int).push(head@[i as int]));
        i += 1;
    }
    let ghost mid = out@;
    let mut j: usize = 0;
    while j < ins.len()
        invariant
            j <= ins@.len(),
            out@ == mid + ins@.take(j as int),
        decreases ins.len() - j,
    {
        out.push(ins[j]);
        assert(ins@.take(j + 1) =~= ins@.take(j as int).push(ins@[j as int]));
        j += 1;
    }
    out.push(0x20);
    let ghost before_tail = out@;
    if cursor < b.len() {
        let mut k = cursor;
        while k < b.len()
            invariant
                cursor <= k <= b@.len(),
                out@ == before_tail + b@.subrange(cursor as int, k as int),
            decreases b.len() - k,
        {
            out.push(b[k]);
            assert(b@.subrange(cursor as int, k + 1) =~= b@.subrange(cursor as int, k as int).push(b@[k as int]));
            k += 1;
        }
    }
    proof {
        assert(head@.take(head@.len() as int) =~= head@);
        assert(ins@.take(ins@.len() as int) =~= ins@);
        assert(b@.take(token_start as int) =~= b@.subrange(0, token_start as int));
        assert(b@.skip(cursor as int) =~= b@.subrange(cursor as int, b@.len() as int));
        assert(out@ =~= accept_line_spec(b@, cursor, token_start, ins@));
    }
    out
}

/// The popup after a new prompt starts: a visible popup is hidden and
/// cleared, and the number of item lines to erase is returned.
pub open spec fn prompt_start_spec(st: PopupView) -> (PopupView, Option<usize>) {
    if st.visible {
        (
            PopupView { visible: false, items: seq![], popup_lines: 0, ..st },
            Some(visible_count(st.items.len()) as usize),
        )
    } else {
        (st, None)
    }
}

/// Hides the popup when a new prompt starts; returns how many item lines
/// to erase when it was visible.
pub fn on_prompt_start(popup: &mut PopupState) -> (r: Option<usize>)
    ensures
        (final(popup)@, r) == prompt_start_spec(old(popup)@),
{
    if popup.visible {
        let lines = if popup.items.len() < MAX_VISIBLE_ITEMS { popup.items.len() } else { MAX_VISIBLE_ITEMS };
        popup.visible = false;
        popup.items.clear();
        popup.popup_lines = 0;
        assert(item_views(popup.items@) =~= Seq::<ItemView>::empty());
        Some(lines)
    } else {
        None
    }
}

/// The ghost text for the popup's first item after the cursor of
/// `buffer`, when the popup holds items.
pub open spec fn first_item_ghost(st: PopupView, buffer: Seq<char>, cursor: usize) -> Option<Seq<u8>> {
    if st.items.len() > 0 {
        ghost_spec(
            vstd::utf8::encode_utf8(st.items[0].insert),
            vstd::utf8::encode_utf8(buffer),
            token_start_spec(buffer, cursor) as usize,
            cursor,
        )
    } else {
        None
    }
}

/// When a completion update can be applied: the terminal fits a
/// popup it must draw itself, and, when the popup may hold items
/// afterwards (new ones, or earlier ones a hidden popup keeps), the cursor
/// and the token under it fall on character boundaries of the buffer.
pub open spec fn completions_ok(st: PopupView, buffer: Seq<char>, cursor: usize, response: Option<Response>) -> bool {
    let b = vstd::utf8::encode_utf8(buffer);
    let ts = token_start_spec(buffer, cursor);
    let new_items = match response {
        Some(Response::Completions { items, .. }) => items@.len() > 0,
        _ => false,
    };
    let must_draw = match response {
        Some(Response::Completions { items, rendered_popup, .. }) => items@.len() > 0 && rendered_popup is None,
        _ => false,
    };
    &&& must_draw ==> cols_fit(Some(st.terminal_cols))
    &&& st.items.len() > 0 || new_items ==> {
        &&& vstd::utf8::is_char_boundary(b, scan_limit(buffer, cursor) as int)
        &&& ts <= token_end(b, cursor) ==> vstd::utf8::is_char_boundary(b, ts as int)
            && vstd::utf8::is_char_boundary(b, token_end(b, cursor))
    }
}

/// What a completion update does on the terminal: the length of the old
/// ghost text to clear (0 for none), the popup action, and the new ghost
/// text to show after the cursor.
pub struct Refresh {
    pub clear_ghost: usize,
    pub action: PopupAction,
    pub ghost_tail: Option<Vec<u8>>,
}

/// Applies the daemon's answer for the command line `buffer` with the
/// cursor at `cursor`: clears the old ghost text, updates the popup, and
/// computes the new ghost text from the first item.
pub fn apply_completions(popup: &mut PopupState, buffer: String, cursor: usize, response: Option<Response>) -> (r: Refresh)
    requires
        completions_ok(old(popup)@, buffer@, cursor, response),
    ensures
        r.clear_ghost == old(popup).ghost_len,
        on_command_line_spec(
            PopupView { ghost_len: 0, ..old(popup)@ },
            buffer@,
            cursor,
            response,
            PopupView { ghost_len: 0, ..final(popup)@ },
            r.action@,
        ),
        match r.ghost_tail {
            Some(g) => first_item_ghost(final(popup)@, buffer@, cursor) == Some(g@) && final(popup).ghost_len == g@.len(),
            None => first_item_ghost(final(popup)@, buffer@, cursor) is None && final(popup).ghost_len == 0,
        },
{
    let clear_ghost = popup.ghost_len;
    popup.ghost_len = 0;
    let ghost buf_view = buffer@;
    let ghost resp = response;
    let ghost before = popup@;
    let action = popup.on_command_line(buffer, cursor, response);
    let ghost mid = popup@;
    assert(popup.ghost_len == 0);
    assert(popup.last_buffer@ == buf_view && popup.last_cursor == cursor);
    proof {
        if mid.items.len() > 0 {
            match resp {
                Some(Response::Completions { items, .. }) => {
                    if items@.len() == 0 {
                        assert(before.items.len() > 0);
                    }
                },
                _ => {
                    assert(before.items.len() > 0);
                },
            }
        }
    }
    let mut tail: Option<Vec<u8>> = None;
    if popup.items.len() > 0 {
        let first_insert = popup.items[0].insert.clone();
        proof {
            assert(item_views(popup.items@)[0] == popup.items@[0]@);
        }
        let token_start = popup.find_token_start();
        tail = ghost_text(first_insert.as_str(), popup.last_buffer.as_str(), token_start, cursor);
        match &tail {
            Some(g) => {
                popup.ghost_len = g.len();
            },
            None => {},
        }
    }
    proof {
        assert(PopupView { ghost_len: 0, ..popup@ } == mid);
    }
    Refresh { clear_ghost, action, ghost_tail: tail }
}

/// What taking the ghost suggestion with ArrowRight does: the ghost text
/// to clear, the bytes to type into the shell, and the item lines of the
/// popup to erase when it was visible.
pub struct GhostAccept {
    pub clear_ghost: usize,
    pub inject: Vec<u8>,
    pub erase_lines: Option<usize>,
}

/// When ArrowRight with ghost text can be handled: the cursor
/// and the token under it fall on character boundaries, the token ending
/// at or after where it starts.
pub open spec fn ghost_accept_ok(st: PopupView) -> bool {
    st.ghost_len > 0 && st.items.len() > 0 ==> {
        let b = vstd::utf8::encode_utf8(st.last_buffer);
        let ts = token_start_spec(st.last_buffer, st.last_cursor);
        &&& vstd::utf8::is_char_boundary(b, scan_limit(st.last_buffer, st.last_cursor) as int)
        &&& ts <= token_end(b, st.last_cursor)
        &&& vstd::utf8::is_char_boundary(b, ts as int)
        &&& vstd::utf8::is_char_boundary(b, token_end(b, st.last_cursor))
    }
}

/// The bytes ArrowRight types to take the ghost suggestion, when there is
/// one and the first item extends the typed token.
pub open spec fn ghost_accept_of(st: PopupView) -> Option<Seq<u8>> {
    if st.ghost_len > 0 && st.items.len() > 0 {
        ghost_accept_spec(
            vstd::utf8::encode_utf8(st.items[0].insert),
            vstd::utf8::encode_utf8(st.last_buffer),
            token_start_spec(st.last_buffer, st.last_cursor) as usize,
            st.last_cursor,
        )
    } else {
        None
    }
}

/// ArrowRight with ghost text shown: types the rest of the first item and
/// a space into the shell, clears the ghost text and hides the popup.
/// `None` (and nothing changed) when there is no ghost text to take.
pub fn accept_ghost(popup: &mut PopupState) -> (r: Option<GhostAccept>)
    requires
        ghost_accept_ok(old(popup)@),
    ensures
        match r {
            Some(g) => ghost_accept_of(old(popup)@) == Some(g.inject@) && g.clear_ghost == old(popup).ghost_len
                && g.erase_lines == (if old(popup).visible { Some(old(popup).popup_lines) } else { None })
                && final(popup)@ == (if old(popup).visible {
                    PopupView { ghost_len: 0, visible: false, items: seq![], popup_lines: 0, ..old(popup)@ }
                } else {
                    PopupView { ghost_len: 0, ..old(popup)@ }
                }),
            None => ghost_accept_of(old(popup)@) is None && final(popup)@ == old(popup)@,
        },
{
    if popup.ghost_len == 0 || popup.items.len() == 0 {
        return None;
    }
    let first_insert = popup.items[0].insert.clone();
    proof {
        assert(item_views(popup.items@)[0] == popup.items@[0]@);
    }
    let token_start = popup.find_token_start();
    match ghost_accept(first_insert.as_str(), popup.last_buffer.as_str(), token_start, popup.last_cursor) {
        Some(inject) => {
            let clear_ghost = popup.ghost_len;
            popup.ghost_len = 0;
            let erase_lines = if popup.visible {
                let lines = popup.popup_lines;
                popup.visible = false;
                popup.items.clear();
                popup.popup_lines = 0;
                assert(item_views(popup.items@) =~= Seq::<ItemView>::empty());
                Some(lines)
            } else {
                None
            };
            Some(GhostAccept { clear_ghost, inject, erase_lines })
        },
        None => None,
    }
}

/// Any other keystroke clears the ghost text: returns how many columns of
/// it are on screen to clear, if any, and forgets it.
pub fn clear_ghost(popup: &mut PopupState) -> (r: Option<usize>)
    ensures
        r == (if old(popup).ghost_len > 0 {
            Some(old(popup).ghost_len)
        } else {
            None
        }),
        final(popup)@ == (PopupView { ghost_len: 0, ..old(popup)@ }),
{
    if popup.ghost_len > 0 {
        let n = popup.ghost_len;
        popup.ghost_len = 0;
        Some(n)
    } else {
        None
    }
}

/// The ghost text continues the typed token into the first suggestion:
/// the token followed by the ghost text is the suggestion's insert text,
/// and taking it with ArrowRight types that ghost text and a space.
pub proof fn law_ghost_completes_token(insert: Seq<u8>, buf: Seq<u8>, token_start: usize, cursor: usize)
    ensures
        ghost_spec(insert, buf, token_start, cursor) matches Some(g) ==> buf.subrange(
            token_start as int,
            token_end(buf, cursor),
        ) + g == insert && g.len() > 0 && ghost_accept_spec(insert, buf, token_start, cursor) == Some(
            g.push(0x20u8),
        ),
{
    if let Some(g) = ghost_spec(insert, buf, token_start, cursor) {
        let tok = buf.subrange(token_start as int, token_end(buf, cursor));
        assert(insert.take(tok.len() as int) + insert.skip(tok.len() as int) =~= insert);
    }
}

} // verus!
