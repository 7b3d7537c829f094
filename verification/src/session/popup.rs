//! Popup state machine for the session event loop.
//!
//! Receives command line updates with the daemon's completion response, and
//! key events, and produces the action the event loop performs (write to
//! the terminal, forward to the PTY, ...).
use vstd::prelude::*;
use crate::ipc::protocol::{CompletionItem, ItemView, Response, item_views};
use crate::render::overlay::{PaletteView, palette_of, popup_spec, render_popup, cols_fit, visible_count, MAX_VISIBLE_ITEMS};
use crate::render::theme::{Theme, default_theme};
use crate::session::keys::{KeyEvent, KeyView, raw_bytes_of};
use crate::text::{byte_len, chars_of, lemma_encode_push, utf8_len};

verus! {

/// Action the event loop should take in response to a popup state change.
#[derive(Debug)]
pub enum PopupAction {
    /// Write this ANSI string to the real terminal (show/update popup).
    Show(String),
    /// Erase the popup (write erase sequence to terminal).
    Erase { lines: usize },
    /// Forward these raw bytes to the PTY master (key not consumed by popup).
    ForwardKey(Vec<u8>),
    /// Accept the selected suggestion: erase popup and insert text.
    Accept {
        /// Start position of the token to replace (byte offset in buffer).
        token_start: usize,
        /// Text to insert.
        insert_text: String,
        /// Item lines of the popup to erase.
        lines: usize,
    },
    /// Erase the popup, then forward these bytes to the PTY.
    EraseAndForward { lines: usize, bytes: Vec<u8> },
    /// Erase the popup, then show a new one.
    EraseAndShow { erase_lines: usize, show: String },
    /// No action needed.
    Nothing,
}

pub enum ActionView {
    Show(Seq<char>),
    Erase { lines: usize },
    ForwardKey(Seq<u8>),
    Accept { token_start: usize, insert_text: Seq<char>, lines: usize },
    EraseAndForward { lines: usize, bytes: Seq<u8> },
    EraseAndShow { erase_lines: usize, show: Seq<char> },
    Nothing,
}

impl View for PopupAction {
    type V = ActionView;

    open spec fn view(&self) -> ActionView {
        match self {
            PopupAction::Show(s) => ActionView::Show(s@),
            PopupAction::Erase { lines } => ActionView::Erase { lines: *lines },
            PopupAction::ForwardKey(b) => ActionView::ForwardKey(b@),
            PopupAction::Accept { token_start, insert_text, lines } => ActionView::Accept {
                token_start: *token_start,
                insert_text: insert_text@,
                lines: *lines,
            },
            PopupAction::EraseAndForward { lines, bytes } => ActionView::EraseAndForward {
                lines: *lines,
                bytes: bytes@,
            },
            PopupAction::EraseAndShow { erase_lines, show } => ActionView::EraseAndShow {
                erase_lines: *erase_lines,
                show: show@,
            },
            PopupAction::Nothing => ActionView::Nothing,
        }
    }
}

/// Popup state: visibility, items, selection, and last known buffer.
pub struct PopupState {
    pub visible: bool,
    pub items: Vec<CompletionItem>,
    pub selected: usize,
    pub last_buffer: String,
    pub last_cursor: usize,
    pub terminal_cols: u16,
    pub theme: Theme,
    /// Number of lines of the popup on screen.
    pub popup_lines: usize,
    /// Length of the inline ghost text on screen.
    pub ghost_len: usize,
}

pub struct PopupView {
    pub visible: bool,
    pub items: Seq<ItemView>,
    pub selected: usize,
    pub last_buffer: Seq<char>,
    pub last_cursor: usize,
    pub terminal_cols: u16,
    pub theme: Theme,
    pub popup_lines: usize,
    pub ghost_len: usize,
}

impl View for PopupState {
    type V = PopupView;

    open spec fn view(&self) -> PopupView {
        PopupView {
            visible: self.visible,
            items: item_views(self.items@),
            selected: self.selected,
            last_buffer: self.last_buffer@,
            last_cursor: self.last_cursor,
            terminal_cols: self.terminal_cols,
            theme: self.theme,
            popup_lines: self.popup_lines,
            ghost_len: self.ghost_len,
        }
    }
}

/// Number of occurrences of `c` in `s`.
pub open spec fn count_char(s: Seq<char>, c: char) -> nat
    decreases s.len(),
{
    if s.len() == 0 {
        0
    } else {
        count_char(s.drop_last(), c) + if s.last() == c { 1nat } else { 0nat }
    }
}

/// Lines a rendered popup occupies: its line breaks, at least one.
pub open spec fn lines_of(text: Seq<char>) -> nat {
    if count_char(text, '\n') > 1 {
        count_char(text, '\n')
    } else {
        1
    }
}

/// Whether `text` is the popup of the state's items and selection.
pub open spec fn shows(st: PopupView, text: Seq<char>) -> bool {
    exists|p: PaletteView|
        palette_of(p, st.theme) && popup_spec(p, st.items, st.selected, Some(st.terminal_cols)) == Some(text)
}

/// Hiding: a visible popup is erased and cleared; else nothing happens.
pub open spec fn hide_spec(st: PopupView) -> (PopupView, ActionView) {
    if st.visible {
        (
            PopupView { visible: false, popup_lines: 0, items: seq![], selected: 0, ..st },
            ActionView::Erase { lines: st.popup_lines },
        )
    } else {
        (st, ActionView::Nothing)
    }
}

/// Re-rendering: shows the popup of the current items, or hides when there are none.
pub open spec fn render_result(st: PopupView, new: PopupView, act: ActionView) -> bool {
    if st.items.len() > 0 {
        &&& act is Show
        &&& shows(st, act->Show_0)
        &&& new == PopupView { popup_lines: lines_of(act->Show_0) as usize, ..st }
    } else {
        (new, act) == hide_spec(st)
    }
}

/// Scanner state for the token start: last boundary and byte offset.
pub struct TokenScan {
    pub last_boundary: nat,
    pub in_single_quote: bool,
    pub in_double_quote: bool,
    pub escape_next: bool,
    pub offset: nat,
}

/// One character at the scan's byte offset; characters at or after
/// `limit` are not looked at.
pub open spec fn scan_step(st: TokenScan, ch: char, limit: nat) -> TokenScan {
    if st.offset >= limit {
        st
    } else {
        let next = st.offset + vstd::utf8::encode_scalar(ch as u32).len();
        if st.escape_next {
            TokenScan { escape_next: false, offset: next, ..st }
        } else if ch == '\\' && !st.in_single_quote {
            TokenScan { escape_next: true, offset: next, ..st }
        } else if ch == '\'' && !st.in_double_quote {
            TokenScan { in_single_quote: !st.in_single_quote, offset: next, ..st }
        } else if ch == '"' && !st.in_single_quote {
            TokenScan { in_double_quote: !st.in_double_quote, offset: next, ..st }
        } else if (ch == ' ' || ch == '\t') && !st.in_single_quote && !st.in_double_quote {
            TokenScan { last_boundary: next, offset: next, ..st }
        } else {
            TokenScan { offset: next, ..st }
        }
    }
}

pub open spec fn scan_run(s: Seq<char>, limit: nat) -> TokenScan
    decreases s.len(),
{
    if s.len() == 0 {
        TokenScan { last_boundary: 0, in_single_quote: false, in_double_quote: false, escape_next: false, offset: 0 }
    } else {
        scan_step(scan_run(s.drop_last(), limit), s.last(), limit)
    }
}

/// The byte limit the token search looks before: the cursor, taken as a
/// byte offset, at most the buffer's length.
pub open spec fn scan_limit(buffer: Seq<char>, cursor: usize) -> nat {
    if cursor <= byte_len(buffer) {
        cursor as nat
    } else {
        byte_len(buffer)
    }
}

/// Byte offset where the token under the cursor starts: just after the
/// last unquoted space or tab before the cursor, or 0.
pub open spec fn token_start_spec(buffer: Seq<char>, cursor: usize) -> nat {
    scan_run(buffer, scan_limit(buffer, cursor)).last_boundary
}

/// The state after a key event, and the action to take.
pub open spec fn on_key_spec(st: PopupView, key: KeyView, new: PopupView, act: ActionView) -> bool {
    if !st.visible {
        new == st && act == ActionView::ForwardKey(raw_bytes_of(key))
    } else {
        match key {
            KeyView::Tab => if st.selected < st.items.len() {
                &&& new == PopupView { visible: false, popup_lines: 0, items: seq![], ..st }
                &&& act == ActionView::Accept {
                    token_start: token_start_spec(st.last_buffer, st.last_cursor) as usize,
                    insert_text: st.items[st.selected as int].insert,
                    lines: visible_count(st.items.len()) as usize,
                }
            } else {
                (new, act) == hide_spec(st)
            },
            KeyView::Escape => (new, act) == hide_spec(st),
            KeyView::ArrowDown => if st.items.len() > 0 {
                render_result(
                    PopupView { selected: ((st.selected + 1) % visible_count(st.items.len()) as int) as usize, ..st },
                    new,
                    act,
                )
            } else {
                new == st && act == ActionView::Nothing
            },
            KeyView::ArrowUp => if st.items.len() > 0 {
                let max = visible_count(st.items.len()) as int;
                render_result(PopupView { selected: ((st.selected + max - 1) % max) as usize, ..st }, new, act)
            } else {
                new == st && act == ActionView::Nothing
            },
            KeyView::Enter => new == hide_spec(st).0 && act == ActionView::ForwardKey(raw_bytes_of(key)),
            _ => new == st && act == ActionView::ForwardKey(raw_bytes_of(key)),
        }
    }
}

/// When a key can be handled: the byte slice at the cursor must
/// fall on a character boundary when a suggestion is accepted, the
/// selection must not overflow, and the terminal must fit the popup when it
/// is redrawn.
pub open spec fn on_key_ok(st: PopupView, key: KeyView) -> bool {
    st.visible ==> match key {
        KeyView::Tab => st.selected < st.items.len() ==> vstd::utf8::is_char_boundary(
            vstd::utf8::encode_utf8(st.last_buffer),
            scan_limit(st.last_buffer, st.last_cursor) as int,
        ),
        KeyView::ArrowDown => st.items.len() > 0 ==> st.selected < usize::MAX && cols_fit(Some(st.terminal_cols)),
        KeyView::ArrowUp => st.items.len() > 0 ==> st.selected + visible_count(st.items.len()) <= usize::MAX
            && cols_fit(Some(st.terminal_cols)),
        _ => true,
    }
}

/// The state after a command line update with the daemon's response
/// (`None` when the daemon could not be asked), and the action to take.
pub open spec fn on_command_line_spec(
    st: PopupView,
    buffer: Seq<char>,
    cursor: usize,
    response: Option<Response>,
    new: PopupView,
    act: ActionView,
) -> bool {
    let st1 = PopupView { last_buffer: buffer, last_cursor: cursor, ..st };
    match response {
        Some(Response::Completions { items, rendered_popup, .. }) => if items@.len() == 0 {
            (new, act) == hide_spec(st1)
        } else {
            let st2 = PopupView { items: item_views(items@), selected: 0, visible: true, ..st1 };
            match rendered_popup {
                Some(p) => new == PopupView { popup_lines: lines_of(p@) as usize, ..st2 } && act
                    == ActionView::Show(p@),
                None => render_result(st2, new, act),
            }
        },
        _ => (new, act) == hide_spec(st1),
    }
}

fn count_newlines(s: &String) -> (n: usize)
    ensures
        n == count_char(s@, '\n'),
{
    let cs = chars_of(s.as_str());
    let mut n: usize = 0;
    let mut i: usize = 0;
    assert(cs@.take(0) =~= Seq::<char>::empty());
    while i < cs.len()
        invariant
            i <= cs@.len(),
            n == count_char(cs@.take(i as int), '\n'),
            n <= i,
        decreases cs.len() - i,
    {
        assert(cs@.take(i + 1).drop_last() =~= cs@.take(i as int));
        if cs[i] == '\n' {
            n += 1;
        }
        i += 1;
    }
    assert(cs@.take(cs@.len() as int) =~= cs@);
    n
}

fn lines_in(s: &String) -> (n: usize)
    ensures
        n == lines_of(s@),
{
    let c = count_newlines(s);
    if c > 1 {
        c
    } else {
        1
    }
}

impl PopupState {
    pub fn new(terminal_cols: u16) -> (p: Self)
        ensures
            p@ == (PopupView {
                visible: false,
                items: seq![],
                selected: 0,
                last_buffer: seq![],
                last_cursor: 0,
                terminal_cols,
                theme: default_theme(),
                popup_lines: 0,
                ghost_len: 0,
            }),
    {
        let p = PopupState {
            visible: false,
            items: Vec::new(),
            selected: 0,
            last_buffer: String::new(),
            last_cursor: 0,
            terminal_cols,
            theme: Theme::default(),
            popup_lines: 0,
            ghost_len: 0,
        };
        assert(item_views(p.items@) =~= Seq::<ItemView>::empty());
        p
    }

    /// Handle a command line update with the daemon's completion response
    /// (`None` when the request failed).
    pub fn on_command_line(&mut self, buffer: String, cursor: usize, response: Option<Response>) -> (a: PopupAction)
        requires
            match response {
                Some(Response::Completions { items, rendered_popup, .. }) => items@.len() > 0
                    && rendered_popup is None ==> cols_fit(Some(old(self).terminal_cols)),
                _ => true,
            },
        ensures
            on_command_line_spec(old(self)@, buffer@, cursor, response, final(self)@, a@),
    {
        self.last_buffer = buffer;
        self.last_cursor = cursor;
        match response {
            Some(Response::Completions { items, rendered_popup, .. }) => {
                if items.len() == 0 {
                    return self.hide_popup();
                }
                self.items = items;
                self.selected = 0;
                self.visible = true;
                match rendered_popup {
                    Some(popup) => {
                        let lines = lines_in(&popup);
                        self.popup_lines = lines;
                        PopupAction::Show(popup)
                    },
                    None => self.render_current(),
                }
            },
            _ => self.hide_popup(),
        }
    }

    /// Handle a key event. Returns the action the event loop should take.
    pub fn on_key(&mut self, key: &KeyEvent) -> (a: PopupAction)
        requires
            on_key_ok(old(self)@, key@),
        ensures
            on_key_spec(old(self)@, key@, final(self)@, a@),
    {
        if !self.visible {
            return PopupAction::ForwardKey(key.raw_bytes());
        }
        match key {
            KeyEvent::Tab => {
                if self.selected < self.items.len() {
                    let insert_text = self.items[self.selected].insert.clone();
                    let token_start = self.find_token_start();
                    let lines = if self.items.len() < MAX_VISIBLE_ITEMS {
                        self.items.len()
                    } else {
                        MAX_VISIBLE_ITEMS
                    };
                    self.visible = false;
                    self.popup_lines = 0;
                    self.items.clear();
                    assert(item_views(self.items@) =~= Seq::<ItemView>::empty());
                    PopupAction::Accept { token_start, insert_text, lines }
                } else {
                    self.hide_popup()
                }
            },
            KeyEvent::Escape => self.hide_popup(),
            KeyEvent::ArrowDown => {
                if self.items.len() > 0 {
                    let max = if self.items.len() < MAX_VISIBLE_ITEMS {
                        self.items.len()
                    } else {
                        MAX_VISIBLE_ITEMS
                    };
                    self.selected = (self.selected + 1) % max;
                    self.render_current()
                } else {
                    PopupAction::Nothing
                }
            },
            KeyEvent::ArrowUp => {
                if self.items.len() > 0 {
                    let max = if self.items.len() < MAX_VISIBLE_ITEMS {
                        self.items.len()
                    } else {
                        MAX_VISIBLE_ITEMS
                    };
                    assert(max == visible_count(self.items@.len()));
                    self.selected = (self.selected + max - 1) % max;
                    self.render_current()
                } else {
                    PopupAction::Nothing
                }
            },
            KeyEvent::Enter => {
                self.hide_popup();
                PopupAction::ForwardKey(key.raw_bytes())
            },
            _ => PopupAction::ForwardKey(key.raw_bytes()),
        }
    }

    /// Hide the popup and return an Erase action.
    fn hide_popup(&mut self) -> (a: PopupAction)
        ensures
            (final(self)@, a@) == hide_spec(old(self)@),
    {
        if self.visible {
            self.visible = false;
            let lines = self.popup_lines;
            self.popup_lines = 0;
            self.items.clear();
            self.selected = 0;
            assert(item_views(self.items@) =~= Seq::<ItemView>::empty());
            PopupAction::Erase { lines }
        } else {
            PopupAction::Nothing
        }
    }

    /// Render the popup with the current selection.
    fn render_current(&mut self) -> (a: PopupAction)
        requires
            old(self).items@.len() > 0 ==> cols_fit(Some(old(self).terminal_cols)),
        ensures
            render_result(old(self)@, final(self)@, a@),
    {
        if self.items.len() == 0 {
            return self.hide_popup();
        }
        let rendered = render_popup(self.items.as_slice(), self.selected, "", &self.theme, Some(self.terminal_cols));
        match rendered {
            Some(r) => {
                let lines = lines_in(&r);
                self.popup_lines = lines;
                PopupAction::Show(r)
            },
            None => self.hide_popup(),
        }
    }

    /// Byte offset of the start of the token under the cursor in the last
    /// known buffer, walking forward with the tokenizer's quoting rules.
    pub fn find_token_start(&self) -> (r: usize)
        requires
            vstd::utf8::is_char_boundary(
                vstd::utf8::encode_utf8(self.last_buffer@),
                scan_limit(self.last_buffer@, self.last_cursor) as int,
            ),
        ensures
            r == token_start_spec(self.last_buffer@, self.last_cursor),
    {
        token_start(self.last_buffer.as_str(), self.last_cursor)
    }
}

/// Byte offset where the token under the cursor (a byte offset into
/// `buffer`) starts: just after the last unquoted space or tab before it.
pub fn token_start(buffer: &str, cursor: usize) -> (r: usize)
    requires
        vstd::utf8::is_char_boundary(vstd::utf8::encode_utf8(buffer@), scan_limit(buffer@, cursor) as int),
    ensures
        r == token_start_spec(buffer@, cursor),
{
    let total = buffer.as_bytes().len();
    let limit = if cursor < total {
        cursor
    } else {
        total
    };
    let cs = chars_of(buffer);
    let ghost s = buffer@;
    let mut last_boundary: usize = 0;
    let mut in_sq = false;
    let mut in_dq = false;
    let mut escape_next = false;
    let mut offset: usize = 0;
    let mut i: usize = 0;
    assert(s.take(0) =~= Seq::<char>::empty());
    assert(vstd::utf8::encode_utf8(Seq::<char>::empty()) =~= Seq::<u8>::empty());
    while i < cs.len()
        invariant
            i <= cs@.len(),
            cs@ == s,
            total == byte_len(s),
            limit == scan_limit(s, cursor),
            offset as nat <= byte_len(s.take(i as int)),
            last_boundary <= offset,
            scan_run(s.take(i as int), limit as nat) == (TokenScan {
                last_boundary: last_boundary as nat,
                in_single_quote: in_sq,
                in_double_quote: in_dq,
                escape_next,
                offset: offset as nat,
            }),
            offset < limit ==> offset == byte_len(s.take(i as int)),
        decreases cs.len() - i,
    {
        let ch = cs[i];
        proof {
            assert(s.take(i + 1).drop_last() =~= s.take(i as int));
            assert(s.take(i + 1) =~= s.take(i as int).push(ch));
            lemma_encode_push(s.take(i as int), ch);
            crate::text::lemma_byte_len_prefix(s, i + 1, s.len() as int);
            assert(s.take(s.len() as int) =~= s);
        }
        if offset < limit {
            let next = offset + utf8_len(ch);
            if escape_next {
                escape_next = false;
            } else if ch == '\\' && !in_sq {
                escape_next = true;
            } else if ch == '\'' && !in_dq {
                in_sq = !in_sq;
            } else if ch == '"' && !in_sq {
                in_dq = !in_dq;
            } else if (ch == ' ' || ch == '\t') && !in_sq && !in_dq {
                last_boundary = next;
            }
            offset = next;
        }
        i += 1;
    }
    assert(s.take(cs@.len() as int) =~= s);
    last_boundary
}

} // verus!

verus! {

/// On a visible popup, ArrowDown moves the selection to the next visible
/// item, wrapping to the first, and ArrowUp after it comes back to the item
/// that was selected; the items stay and the popup stays shown.
pub proof fn law_down_then_up(
    st: PopupView,
    st1: PopupView,
    act1: ActionView,
    st2: PopupView,
    act2: ActionView,
)
    requires
        st.visible,
        st.items.len() > 0,
        st.selected < visible_count(st.items.len()),
        on_key_spec(st, KeyView::ArrowDown, st1, act1),
        on_key_spec(st1, KeyView::ArrowUp, st2, act2),
    ensures
        st1.selected == (st.selected + 1) % (visible_count(st.items.len()) as int),
        st1.items == st.items,
        st1.visible,
        st2.selected == st.selected,
        st2.items == st.items,
        st2.visible,
{
    let max = visible_count(st.items.len()) as int;
    let s = st.selected as int;
    assert(st1.selected == (s + 1) % max);
    assert(st1.items == st.items);
    if s + 1 < max {
        assert((s + 1) % max == s + 1) by (nonlinear_arith)
            requires
                0 <= s,
                s + 1 < max,
        ;
        assert((s + 1 + max - 1) % max == s) by (nonlinear_arith)
            requires
                0 <= s,
                s + 1 < max,
        ;
    } else {
        assert((s + 1) % max == 0) by (nonlinear_arith)
            requires
                s + 1 == max,
                max > 0,
        ;
        assert((0 + max - 1) % max == max - 1) by (nonlinear_arith)
            requires
                max > 0,
        ;
    }
}

/// Arrow keys keep the selection among the visible items.
pub proof fn law_selection_stays_visible(st: PopupView, key: KeyView, st1: PopupView, act: ActionView)
    requires
        st.visible,
        st.items.len() > 0,
        key is ArrowDown || key is ArrowUp,
        on_key_spec(st, key, st1, act),
    ensures
        st1.selected < visible_count(st1.items.len()),
{
    let max = visible_count(st.items.len()) as int;
    assert(max > 0);
    if key is ArrowDown {
        assert((st.selected + 1) % max < max);
    } else {
        assert((st.selected + max - 1) % max < max);
    }
}

/// Hiding is done once: hiding a hidden popup does nothing.
pub proof fn law_hide_once(st: PopupView)
    ensures
        hide_spec(hide_spec(st).0) == (hide_spec(st).0, ActionView::Nothing),
        !hide_spec(st).0.visible,
{
}

/// While the popup is hidden every key goes to the shell unchanged.
pub proof fn law_hidden_forwards(st: PopupView, key: KeyView, st1: PopupView, act: ActionView)
    requires
        !st.visible,
        on_key_spec(st, key, st1, act),
    ensures
        st1 == st,
        act == ActionView::ForwardKey(raw_bytes_of(key)),
{
}

} // verus!
