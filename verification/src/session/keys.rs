//! Raw terminal input bytes to key events.
//!
//! Handles ANSI escape sequences for the arrow keys, control bytes,
//! printable ASCII and UTF-8 multi-byte characters.
use vstd::prelude::*;
use vstd::utf8::*;

verus! {

/// A parsed key event from raw terminal input.
#[derive(Debug, Clone, PartialEq)]
pub enum KeyEvent {
    /// A printable character.
    Char(char),
    /// Tab key (0x09 / Ctrl-I).
    Tab,
    /// Escape key (standalone, no following sequence within timeout).
    Escape,
    /// Enter / Return (0x0D / Ctrl-M).
    Enter,
    /// Backspace (0x7F or 0x08).
    Backspace,
    ArrowUp,
    ArrowDown,
    ArrowLeft,
    ArrowRight,
    /// Ctrl+C (0x03).
    CtrlC,
    /// Ctrl+D (0x04).
    CtrlD,
    /// Ctrl+L (0x0C) - clear screen.
    CtrlL,
    /// Unrecognized byte sequence, forwarded as-is.
    Raw(Vec<u8>),
}

/// Mathematical model of a key event: raw bytes are a sequence.
pub enum KeyView {
    Char(char),
    Tab,
    Escape,
    Enter,
    Backspace,
    ArrowUp,
    ArrowDown,
    ArrowLeft,
    ArrowRight,
    CtrlC,
    CtrlD,
    CtrlL,
    Raw(Seq<u8>),
}

impl View for KeyEvent {
    type V = KeyView;

    open spec fn view(&self) -> KeyView {
        match self {
            KeyEvent::Char(c) => KeyView::Char(*c),
            KeyEvent::Tab => KeyView::Tab,
            KeyEvent::Escape => KeyView::Escape,
            KeyEvent::Enter => KeyView::Enter,
            KeyEvent::Backspace => KeyView::Backspace,
            KeyEvent::ArrowUp => KeyView::ArrowUp,
            KeyEvent::ArrowDown => KeyView::ArrowDown,
            KeyEvent::ArrowLeft => KeyView::ArrowLeft,
            KeyEvent::ArrowRight => KeyView::ArrowRight,
            KeyEvent::CtrlC => KeyView::CtrlC,
            KeyEvent::CtrlD => KeyView::CtrlD,
            KeyEvent::CtrlL => KeyView::CtrlL,
            KeyEvent::Raw(b) => KeyView::Raw(b@),
        }
    }
}

/// The views of a sequence of key events.
pub open spec fn key_views(s: Seq<KeyEvent>) -> Seq<KeyView> {
    s.map_values(|e: KeyEvent| e@)
}

/// The bytes forwarded to the PTY for a key event.
pub open spec fn raw_bytes_of(k: KeyView) -> Seq<u8> {
    match k {
        KeyView::Char(c) => encode_utf8(seq![c]),
        KeyView::Tab => seq![0x09u8],
        KeyView::Escape => seq![0x1bu8],
        KeyView::Enter => seq![0x0du8],
        KeyView::Backspace => seq![0x7fu8],
        KeyView::ArrowUp => seq![0x1bu8, 0x5bu8, 0x41u8],
        KeyView::ArrowDown => seq![0x1bu8, 0x5bu8, 0x42u8],
        KeyView::ArrowLeft => seq![0x1bu8, 0x5bu8, 0x44u8],
        KeyView::ArrowRight => seq![0x1bu8, 0x5bu8, 0x43u8],
        KeyView::CtrlC => seq![0x03u8],
        KeyView::CtrlD => seq![0x04u8],
        KeyView::CtrlL => seq![0x0cu8],
        KeyView::Raw(b) => b,
    }
}

/// The UTF-8 encoding of one character.
pub fn encode_char(c: char) -> (r: Vec<u8>)
    ensures
        r@ == encode_utf8(seq![c]),
{
    let v = c as u32;
    proof {
        assert(seq![c].drop_first() =~= Seq::<char>::empty());
        assert(encode_utf8(Seq::<char>::empty()) =~= Seq::<u8>::empty());
        assert(encode_utf8(seq![c]) =~= encode_scalar(v) + encode_utf8(seq![c].drop_first()));
        assert(encode_utf8(seq![c]) =~= encode_scalar(v));
    }
    if v <= 0x7F {
        vec![(v & 0x7F) as u8]
    } else if v <= 0x7FF {
        vec![0xC0 | ((v >> 6) & 0x1F) as u8, 0x80 | (v & 0x3F) as u8]
    } else if v <= 0xFFFF {
        proof {
            vstd::utf8::char_is_scalar(c);
        }
        vec![
            0xE0 | ((v >> 12) & 0x0F) as u8,
            0x80 | ((v >> 6) & 0x3F) as u8,
            0x80 | (v & 0x3F) as u8,
        ]
    } else {
        proof {
            vstd::utf8::char_is_scalar(c);
        }
        vec![
            0xF0 | ((v >> 18) & 0x7) as u8,
            0x80 | ((v >> 12) & 0x3F) as u8,
            0x80 | ((v >> 6) & 0x3F) as u8,
            0x80 | (v & 0x3F) as u8,
        ]
    }
}

impl KeyEvent {
    /// Get the raw bytes to forward to the PTY for this key event.
    pub fn raw_bytes(&self) -> (r: Vec<u8>)
        ensures
            r@ == raw_bytes_of(self@),
    {
        match self {
            KeyEvent::Char(c) => encode_char(*c),
            KeyEvent::Tab => vec![0x09],
            KeyEvent::Escape => vec![0x1b],
            KeyEvent::Enter => vec![0x0d],
            KeyEvent::Backspace => vec![0x7f],
            KeyEvent::ArrowUp => vec![0x1b, 0x5b, 0x41],
            KeyEvent::ArrowDown => vec![0x1b, 0x5b, 0x42],
            KeyEvent::ArrowLeft => vec![0x1b, 0x5b, 0x44],
            KeyEvent::ArrowRight => vec![0x1b, 0x5b, 0x43],
            KeyEvent::CtrlC => vec![0x03],
            KeyEvent::CtrlD => vec![0x04],
            KeyEvent::CtrlL => vec![0x0c],
            KeyEvent::Raw(bytes) => bytes.clone(),
        }
    }
}

/// `char::from_u32`: the character with the given scalar value, if it is one.
#[verifier::external_body]
fn char_from_u32(v: u32) -> (r: Option<char>)
    ensures
        r == (if is_scalar(v) {
            Some(v as char)
        } else {
            None
        }),
{
    char::from_u32(v)
}

/// The first character encoded at the start of `bytes` and its encoded
/// length, when the bytes start with a well-formed UTF-8 scalar.
pub open spec fn first_char(bytes: Seq<u8>) -> Option<(char, nat)> {
    if bytes.len() > 0 && valid_first_scalar(bytes) {
        Some((decode_first_scalar(bytes) as char, length_of_first_scalar(bytes) as nat))
    } else {
        None
    }
}

/// Try to decode a single UTF-8 character from the start of a byte slice.
/// Returns the character and its byte length, or None if invalid.
pub fn decode_utf8_char(bytes: &[u8]) -> (r: Option<(char, usize)>)
    ensures
        match r {
            Some((c, n)) => first_char(bytes@) == Some((c, n as nat)),
            None => first_char(bytes@) is None,
        },
{
    let n = bytes.len();
    if n == 0 {
        return None;
    }
    let b1 = bytes[0];
    let (cp, len): (u32, usize) = if b1 <= 0x7f {
        ((b1 & 0x7F) as u32, 1)
    } else if 0xc0 <= b1 && b1 <= 0xdf {
        if n < 2 || !(0x80 <= bytes[1] && bytes[1] <= 0xbf) {
            return None;
        }
        let b2 = bytes[1];
        (((b1 & 0x1F) as u32) << 6 | (b2 & 0x3f) as u32, 2)
    } else if 0xe0 <= b1 && b1 <= 0xef {
        if n < 3 || !(0x80 <= bytes[1] && bytes[1] <= 0xbf) || !(0x80 <= bytes[2] && bytes[2]
            <= 0xbf) {
            return None;
        }
        let b2 = bytes[1];
        let b3 = bytes[2];
        (((b1 & 0x0F) as u32) << 12 | ((b2 & 0x3f) as u32) << 6 | (b3 & 0x3f) as u32, 3)
    } else if 0xf0 <= b1 && b1 <= 0xf7 {
        if n < 4 || !(0x80 <= bytes[1] && bytes[1] <= 0xbf) || !(0x80 <= bytes[2] && bytes[2]
            <= 0xbf) || !(0x80 <= bytes[3] && bytes[3] <= 0xbf) {
            return None;
        }
        let b2 = bytes[1];
        let b3 = bytes[2];
        let b4 = bytes[3];
        (
            ((b1 & 0x07) as u32) << 18 | ((b2 & 0x3f) as u32) << 12 | ((b3 & 0x3f) as u32) << 6
                | (b4 & 0x3f) as u32,
            4,
        )
    } else {
        return None;
    };
    assert(cp == decode_first_codepoint(bytes@));
    assert(len == length_of_first_codepoint(bytes@));
    // overlong encodings and surrogates are not characters
    if (len == 2 && cp < 0x80) || (len == 3 && cp < 0x800) || (len == 4 && (cp < 0x10000 || cp
        > 0x10ffff)) || (0xD800 <= cp && cp <= 0xDFFF) {
        return None;
    }
    proof {
        let b1 = bytes@[0];
        if len == 1 {
            assert((b1 & 0x7F) as u32 <= 0x7F) by (bit_vector);
        } else if len == 2 {
            let b2 = bytes@[1];
            assert(((b1 & 0x1F) as u32) << 6 | (b2 & 0x3f) as u32 <= 0x7FF) by (bit_vector);
        } else if len == 3 {
            let b2 = bytes@[1];
            let b3 = bytes@[2];
            assert(((b1 & 0x0F) as u32) << 12 | ((b2 & 0x3f) as u32) << 6 | (b3 & 0x3f) as u32
                <= 0xFFFF) by (bit_vector);
        }
    }
    match char_from_u32(cp) {
        Some(c) => Some((c, len)),
        None => None,
    }
}

/// Index just past the end of a CSI sequence whose parameters start at `k`:
/// the position after the first final byte (0x40..=0x7e), or the end.
pub open spec fn csi_end(buf: Seq<u8>, k: int) -> int
    decreases buf.len() - k,
{
    if k >= buf.len() {
        buf.len() as int
    } else if 0x40 <= buf[k] <= 0x7e {
        k + 1
    } else {
        csi_end(buf, k + 1)
    }
}

/// The event for a CSI sequence whose first byte after `ESC [` is at `k`
/// (which must be in bounds), and the index after it.
pub open spec fn csi_event(buf: Seq<u8>, k: int) -> (KeyView, int) {
    if buf[k] == 0x41 {
        (KeyView::ArrowUp, k + 1)
    } else if buf[k] == 0x42 {
        (KeyView::ArrowDown, k + 1)
    } else if buf[k] == 0x43 {
        (KeyView::ArrowRight, k + 1)
    } else if buf[k] == 0x44 {
        (KeyView::ArrowLeft, k + 1)
    } else {
        (
            KeyView::Raw(seq![0x1bu8, 0x5bu8] + buf.subrange(k, csi_end(buf, k))),
            csi_end(buf, k),
        )
    }
}

/// The events for the sequence starting right after `ESC [` at `k`.
pub open spec fn csi_from(buf: Seq<u8>, k: int) -> (KeyView, int) {
    if k < buf.len() {
        csi_event(buf, k)
    } else {
        (KeyView::Raw(seq![0x1bu8, 0x5bu8]), k)
    }
}

/// One step of the byte parser at index `i` (in bounds): the events
/// produced, the next index, and whether a lone ESC was left pending.
pub open spec fn parse_step(buf: Seq<u8>, i: int) -> (Seq<KeyView>, int, bool) {
    let b = buf[i];
    if b == 0x1b {
        if i + 1 < buf.len() && buf[i + 1] == 0x5b {
            let (e, j) = csi_from(buf, i + 2);
            (seq![e], j, false)
        } else if i + 1 < buf.len() {
            (seq![KeyView::Raw(seq![0x1bu8, buf[i + 1]])], i + 2, false)
        } else {
            (seq![], i + 1, true)
        }
    } else if b == 0x03 {
        (seq![KeyView::CtrlC], i + 1, false)
    } else if b == 0x04 {
        (seq![KeyView::CtrlD], i + 1, false)
    } else if b == 0x09 {
        (seq![KeyView::Tab], i + 1, false)
    } else if b == 0x0c {
        (seq![KeyView::CtrlL], i + 1, false)
    } else if b == 0x0d {
        (seq![KeyView::Enter], i + 1, false)
    } else if b == 0x7f || b == 0x08 {
        (seq![KeyView::Backspace], i + 1, false)
    } else if 0x20 <= b < 0x7f {
        (seq![KeyView::Char(b as char)], i + 1, false)
    } else if b >= 0x80 {
        match first_char(buf.subrange(i, buf.len() as int)) {
            Some((c, n)) => (seq![KeyView::Char(c)], i + n, false),
            None => (seq![KeyView::Raw(seq![b])], i + 1, false),
        }
    } else {
        (seq![KeyView::Raw(seq![b])], i + 1, false)
    }
}

/// The events of `buf` from index `i` on, and whether an escape is pending.
pub open spec fn parse_from(buf: Seq<u8>, i: int) -> (Seq<KeyView>, bool)
    decreases buf.len() - i,
{
    if i < 0 || i >= buf.len() {
        (seq![], false)
    } else {
        let (ev, j, p) = parse_step(buf, i);
        if p || j <= i || j > buf.len() {
            (ev, p)
        } else {
            let (rest, pend) = parse_from(buf, j);
            (ev + rest, pend)
        }
    }
}

/// The events of a chunk given whether the previous chunk ended in a lone
/// ESC, and whether this chunk leaves one pending.
pub open spec fn parse_chunk(buf: Seq<u8>, escape_pending: bool) -> (Seq<KeyView>, bool) {
    if !escape_pending {
        parse_from(buf, 0)
    } else if buf.len() == 0 {
        (seq![KeyView::Escape], false)
    } else if buf[0] == 0x5b {
        let (e, j) = csi_from(buf, 1);
        let (rest, pend) = parse_from(buf, j);
        (seq![e] + rest, pend)
    } else {
        let (rest, pend) = parse_from(buf, 0);
        (seq![KeyView::Escape] + rest, pend)
    }
}

proof fn lemma_csi_end_bounds(buf: Seq<u8>, k: int)
    requires
        0 <= k <= buf.len(),
    ensures
        k <= csi_end(buf, k) <= buf.len(),
    decreases buf.len() - k,
{
    if k < buf.len() && !(0x40 <= buf[k] <= 0x7e) {
        lemma_csi_end_bounds(buf, k + 1);
    }
}

/// Reads the rest of an unknown CSI sequence starting at `k`.
fn read_csi_raw(buf: &[u8], k: usize) -> (r: (Vec<u8>, usize))
    requires
        k <= buf@.len(),
    ensures
        r.1 == csi_end(buf@, k as int),
        r.0@ == seq![0x1bu8, 0x5bu8] + buf@.subrange(k as int, r.1 as int),
{
    let mut raw: Vec<u8> = vec![0x1b, 0x5b];
    let mut i = k;
    while i < buf.len()
        invariant_except_break
            k <= i <= buf@.len(),
            csi_end(buf@, k as int) == csi_end(buf@, i as int),
            raw@ == seq![0x1bu8, 0x5bu8] + buf@.subrange(k as int, i as int),
        ensures
            i == csi_end(buf@, k as int),
            raw@ == seq![0x1bu8, 0x5bu8] + buf@.subrange(k as int, i as int),
        decreases buf.len() - i,
    {
        raw.push(buf[i]);
        proof {
            assert(buf@.subrange(k as int, i + 1) =~= buf@.subrange(k as int, i as int).push(
                buf@[i as int],
            ));
        }
        if buf[i] >= 0x40 && buf[i] <= 0x7e {
            i += 1;
            break;
        }
        i += 1;
    }
    (raw, i)
}

/// The event for the bytes right after `ESC [` at `k`.
fn read_csi(buf: &[u8], k: usize) -> (r: (KeyEvent, usize))
    requires
        k <= buf@.len(),
    ensures
        (r.0@, r.1 as int) == csi_from(buf@, k as int),
{
    if k < buf.len() {
        let b = buf[k];
        if b == 0x41 {
            (KeyEvent::ArrowUp, k + 1)
        } else if b == 0x42 {
            (KeyEvent::ArrowDown, k + 1)
        } else if b == 0x43 {
            (KeyEvent::ArrowRight, k + 1)
        } else if b == 0x44 {
            (KeyEvent::ArrowLeft, k + 1)
        } else {
            let (raw, j) = read_csi_raw(buf, k);
            (KeyEvent::Raw(raw), j)
        }
    } else {
        (KeyEvent::Raw(vec![0x1b, 0x5b]), k)
    }
}

proof fn lemma_step_progress(buf: Seq<u8>, i: int)
    requires
        0 <= i < buf.len(),
    ensures
        ({
            let (ev, j, p) = parse_step(buf, i);
            &&& i < j <= buf.len()
            &&& p ==> j == buf.len() && ev.len() == 0
        }),
{
    let b = buf[i];
    if b == 0x1b && i + 1 < buf.len() && buf[i + 1] == 0x5b {
        if i + 2 < buf.len() {
            lemma_csi_end_bounds(buf, i + 2);
        }
    }
}

/// Parse a chunk of raw bytes from terminal stdin into key events.
///
/// `escape_pending` tracks whether the previous chunk ended with a lone ESC byte.
/// Returns the parsed events and whether an escape is pending for the next call.
pub fn parse_bytes(buf: &[u8], escape_pending: bool) -> (r: (Vec<KeyEvent>, bool))
    ensures
        (key_views(r.0@), r.1) == parse_chunk(buf@, escape_pending),
{
    let mut events: Vec<KeyEvent> = Vec::new();
    let mut i: usize = 0;
    let mut pending = escape_pending;
    let ghost head: Seq<KeyView> = seq![];

    if pending {
        if buf.len() == 0 {
            events.push(KeyEvent::Escape);
            proof {
                assert(key_views(events@) =~= seq![KeyView::Escape]);
            }
            return (events, false);
        }
        if buf[0] == 0x5b {
            let (e, j) = read_csi(buf, 1);
            events.push(e);
            i = j;
            pending = false;
            proof {
                lemma_csi_end_bounds(buf@, 1);
                head = seq![e@];
                assert(key_views(events@) =~= head);
            }
        } else {
            events.push(KeyEvent::Escape);
            pending = false;
            proof {
                head = seq![KeyView::Escape];
                assert(key_views(events@) =~= head);
            }
        }
    }
    let ghost start = i as int;
    assert(parse_chunk(buf@, escape_pending) == (head + parse_from(buf@, start).0, parse_from(
        buf@,
        start,
    ).1));
    assert(head + parse_from(buf@, start).0 =~= key_views(events@) + parse_from(buf@, i as int).0);

    while i < buf.len()
        invariant
            i <= buf@.len(),
            pending ==> i == buf@.len(),
            pending ==> parse_chunk(buf@, escape_pending) == (key_views(events@), true),
            !pending ==> parse_chunk(buf@, escape_pending) == (key_views(events@) + parse_from(
                buf@,
                i as int,
            ).0, parse_from(buf@, i as int).1),
        decreases buf.len() - i,
    {
        let ghost old_events = events@;
        let ghost gi = i as int;
        proof {
            lemma_step_progress(buf@, gi);
        }
        let b = buf[i];
        if b == 0x1b {
            if i + 1 < buf.len() && buf[i + 1] == 0x5b {
                let (e, j) = read_csi(buf, i + 2);
                events.push(e);
                i = j;
            } else if i + 1 < buf.len() {
                let raw = vec![0x1b, buf[i + 1]];
                assert(raw@ =~= seq![0x1bu8, buf@[i + 1]]);
                events.push(KeyEvent::Raw(raw));
                i += 2;
            } else {
                pending = true;
                i += 1;
            }
        } else if b == 0x03 {
            events.push(KeyEvent::CtrlC);
            i += 1;
        } else if b == 0x04 {
            events.push(KeyEvent::CtrlD);
            i += 1;
        } else if b == 0x09 {
            events.push(KeyEvent::Tab);
            i += 1;
        } else if b == 0x0c {
            events.push(KeyEvent::CtrlL);
            i += 1;
        } else if b == 0x0d {
            events.push(KeyEvent::Enter);
            i += 1;
        } else if b == 0x7f {
            events.push(KeyEvent::Backspace);
            i += 1;
        } else if b == 0x08 {
            events.push(KeyEvent::Backspace);
            i += 1;
        } else if b >= 0x20 && b < 0x7f {
            events.push(KeyEvent::Char(b as char));
            i += 1;
        } else if b >= 0x80 {
            let remaining = &buf[i..buf.len()];
            assert(remaining@ =~= buf@.subrange(i as int, buf@.len() as int));
            match decode_utf8_char(remaining) {
                Some((ch, len)) => {
                    events.push(KeyEvent::Char(ch));
                    i += len;
                },
                None => {
                    let raw = vec![b];
                    assert(raw@ =~= seq![b]);
                    events.push(KeyEvent::Raw(raw));
                    i += 1;
                },
            }
        } else {
            let raw = vec![b];
            assert(raw@ =~= seq![b]);
            events.push(KeyEvent::Raw(raw));
            i += 1;
        }
        proof {
            let (ev, j, p) = parse_step(buf@, gi);
            assert(i == j);
            assert(pending == p);
            if events@.len() > old_events.len() {
                assert(events@ =~= old_events.push(events@.last()));
                assert(key_views(events@) =~= key_views(old_events).push(events@.last()@));
                assert(ev =~= seq![events@.last()@]);
            } else {
                assert(events@ =~= old_events);
                assert(ev =~= Seq::<KeyView>::empty());
            }
            assert(key_views(events@) =~= key_views(old_events) + ev);
            if !p {
                assert(parse_from(buf@, gi) == (ev + parse_from(buf@, j).0, parse_from(buf@, j).1));
                assert(key_views(old_events) + (ev + parse_from(buf@, j).0) =~= key_views(events@)
                    + parse_from(buf@, j).0);
            } else {
                assert(key_views(events@) =~= key_views(old_events) + parse_from(buf@, gi).0);
            }
        }
    }
    (events, pending)
}

} // verus!

verus! {

/// The keys that the parser reads back from their own forwarded bytes:
/// printable characters, Tab, Enter, Backspace, the arrows and the
/// control keys.
pub open spec fn reads_back(k: KeyView) -> bool {
    match k {
        KeyView::Char(c) => 0x20 <= c as u32 && c as u32 != 0x7f,
        KeyView::Tab => true,
        KeyView::Enter => true,
        KeyView::Backspace => true,
        KeyView::ArrowUp => true,
        KeyView::ArrowDown => true,
        KeyView::ArrowLeft => true,
        KeyView::ArrowRight => true,
        KeyView::CtrlC => true,
        KeyView::CtrlD => true,
        KeyView::CtrlL => true,
        _ => false,
    }
}

proof fn lemma_parse_single(buf: Seq<u8>)
    requires
        buf.len() > 0,
        ({
            let (ev, j, p) = parse_step(buf, 0);
            j == buf.len() && !p
        }),
    ensures
        parse_chunk(buf, false) == (parse_step(buf, 0).0, false),
{
    let (ev, j, p) = parse_step(buf, 0);
    assert(parse_from(buf, j) == (Seq::<KeyView>::empty(), false));
    assert(ev + Seq::<KeyView>::empty() =~= ev);
}

/// A key forwarded to the shell and read back by the parser is the same
/// key, for every key that [`reads_back`]: every key but Escape (read
/// back only after the pending-escape timeout) and raw byte sequences.
pub proof fn law_forwarded_key_reads_back(k: KeyView)
    requires
        reads_back(k),
    ensures
        parse_chunk(raw_bytes_of(k), false) == (seq![k], false),
{
    let buf = raw_bytes_of(k);
    match k {
        KeyView::Char(c) => {
            let v = c as u32;
            char_is_scalar(c);
            assert(encode_utf8(seq![c]) =~= encode_scalar(v) + encode_utf8(seq![c].drop_first()));
            assert(seq![c].drop_first() =~= Seq::<char>::empty());
            assert(encode_utf8(Seq::<char>::empty()) =~= Seq::<u8>::empty());
            assert(buf =~= encode_scalar(v));
            if v <= 0x7f {
                let b = leading_byte_width_1(v);
                assert(b as u32 == v) by (bit_vector)
                    requires
                        v <= 0x7f,
                        b == (v & 0x7F) as u8,
                ;
                char_u32_cast(c, v);
                assert(buf[0] == b);
                assert(parse_step(buf, 0).0 == seq![KeyView::Char(b as char)]);
                lemma_parse_single(buf);
            } else {
                encode_utf8_first_scalar(seq![c]);
                assert(buf.subrange(0, buf.len() as int) =~= buf);
                char_u32_cast(c, v);
                if has_width_2_encoding(v) {
                    let b = leading_byte_width_2(v);
                    assert(b >= 0x80) by (bit_vector)
                        requires
                            b == 0xC0 | ((v >> 6) & 0x1F) as u8,
                    ;
                } else if has_width_3_encoding(v) {
                    let b = leading_byte_width_3(v);
                    assert(b >= 0x80) by (bit_vector)
                        requires
                            b == 0xE0 | ((v >> 12) & 0x0F) as u8,
                    ;
                } else {
                    let b = leading_byte_width_4(v);
                    assert(b >= 0x80) by (bit_vector)
                        requires
                            b == 0xF0 | ((v >> 18) & 0x7) as u8,
                    ;
                }
                assert(buf[0] >= 0x80);
                assert(first_char(buf) == Some((c, buf.len())));
                lemma_parse_single(buf);
            }
        },
        KeyView::ArrowUp => {
            assert(parse_step(buf, 0) == (seq![KeyView::ArrowUp], 3int, false));
            lemma_parse_single(buf);
        },
        KeyView::ArrowDown => {
            assert(parse_step(buf, 0) == (seq![KeyView::ArrowDown], 3int, false));
            lemma_parse_single(buf);
        },
        KeyView::ArrowLeft => {
            assert(parse_step(buf, 0) == (seq![KeyView::ArrowLeft], 3int, false));
            lemma_parse_single(buf);
        },
        KeyView::ArrowRight => {
            assert(parse_step(buf, 0) == (seq![KeyView::ArrowRight], 3int, false));
            lemma_parse_single(buf);
        },
        _ => {
            lemma_parse_single(buf);
        },
    }
}

/// An ESC at the end of a chunk is held back; when the next read times out
/// with no bytes, it is the Escape key.
pub proof fn law_lone_escape_then_timeout()
    ensures
        parse_chunk(raw_bytes_of(KeyView::Escape), false) == (Seq::<KeyView>::empty(), true),
        parse_chunk(Seq::empty(), true) == (seq![KeyView::Escape], false),
{
    let buf = raw_bytes_of(KeyView::Escape);
    assert(parse_step(buf, 0) == (Seq::<KeyView>::empty(), 1int, true));
}

/// Whether every byte is a CSI parameter or intermediate byte
/// (0x20..=0x3f).
pub open spec fn csi_params(p: Seq<u8>) -> bool {
    forall|i: int| 0 <= i < p.len() ==> 0x20 <= #[trigger] p[i] <= 0x3f
}

proof fn lemma_csi_runs_to_final(buf: Seq<u8>, k: int)
    requires
        2 <= k < buf.len(),
        forall|i: int| k <= i < buf.len() - 1 ==> 0x20 <= #[trigger] buf[i] <= 0x3f,
        0x40 <= buf[buf.len() - 1] <= 0x7e,
    ensures
        csi_end(buf, k) == buf.len(),
    decreases buf.len() - k,
{
    if k < buf.len() - 1 {
        lemma_csi_runs_to_final(buf, k + 1);
    }
}

/// A CSI sequence the parser does not know (`ESC [`, parameter bytes,
/// then a final byte in 0x40..=0x7e) is one raw event holding the whole
/// sequence: parameter bytes never end it, and the final byte does. Only
/// the arrow keys (`ESC [` A to D, with no parameters) are read as keys.
pub proof fn law_unknown_csi_is_one_raw_event(params: Seq<u8>, fin: u8)
    requires
        csi_params(params),
        0x40 <= fin <= 0x7e,
        params.len() > 0 || fin < 0x41 || fin > 0x44,
    ensures
        parse_chunk(seq![0x1bu8, 0x5bu8] + params + seq![fin], false) == (
            seq![KeyView::Raw(seq![0x1bu8, 0x5bu8] + params + seq![fin])],
            false,
        ),
{
    let buf = seq![0x1bu8, 0x5bu8] + params + seq![fin];
    assert(buf[0] == 0x1b && buf[1] == 0x5b);
    assert(buf[buf.len() - 1] == fin);
    assert forall|i: int| 2 <= i < buf.len() - 1 implies 0x20 <= #[trigger] buf[i] <= 0x3f by {
        assert(buf[i] == params[i - 2]);
    }
    lemma_csi_runs_to_final(buf, 2);
    if params.len() > 0 {
        assert(buf[2] == params[0]);
    }
    assert(buf.subrange(2, buf.len() as int) =~= params + seq![fin]);
    assert(seq![0x1bu8, 0x5bu8] + buf.subrange(2, buf.len() as int) =~= buf);
    assert(parse_step(buf, 0) == (seq![KeyView::Raw(buf)], buf.len() as int, false));
    lemma_parse_single(buf);
}

} // verus!
