//! Parser for the private OSC sequences that the shell integration scripts
//! embed in the PTY output stream.
//!
//! Tabra's own sequences are stripped and returned as events; every other
//! byte (including other OSC sequences) is passed through unchanged.
//!
//! Wire format: `ESC ] 6973 ; <CODE> ; <PAYLOAD> BEL`
use vstd::prelude::*;
use vstd::utf8::*;
use base64::Engine;
use crate::text::{append_bytes, chars_of, find_char, find_from, parse_usize, parse_usize_spec, string_of, sub_chars};

verus! {

/// The decoded bytes of a text in standard base64 (RFC 4648 alphabet,
/// padding required), or `None` where it is not valid base64.
pub uninterp spec fn base64_standard_decode(input: Seq<char>) -> Option<Seq<u8>>;

/// `base64::engine::general_purpose::STANDARD.decode`.
/// Trusted: returns exactly the bytes the named decoding gives, and
/// fails exactly where it is undefined.
#[verifier::external_body]
fn decode_base64(input: &str) -> (r: Option<Vec<u8>>)
    ensures
        match r {
            Some(v) => base64_standard_decode(input@) == Some(v@),
            None => base64_standard_decode(input@) is None,
        },
{
    base64::engine::general_purpose::STANDARD.decode(input).ok()
}

/// `std::str::from_utf8`: the text that well-formed UTF-8 bytes encode.
#[verifier::external_body]
fn str_from_utf8(bytes: &[u8]) -> (r: Option<&str>)
    ensures
        match r {
            Some(s) => valid_utf8(bytes@) && s@ == decode_utf8(bytes@),
            None => !valid_utf8(bytes@),
        },
{
    std::str::from_utf8(bytes).ok()
}

/// `String::from_utf8`: the string that well-formed UTF-8 bytes encode.
#[verifier::external_body]
fn string_from_utf8(bytes: Vec<u8>) -> (r: Option<String>)
    ensures
        match r {
            Some(s) => valid_utf8(bytes@) && s@ == decode_utf8(bytes@),
            None => !valid_utf8(bytes@),
        },
{
    String::from_utf8(bytes).ok()
}

/// The OSC introducer `ESC ] 6973 ;`.
pub open spec fn osc_prefix() -> Seq<u8> {
    seq![0x1bu8, 0x5du8, 0x36u8, 0x39u8, 0x37u8, 0x33u8, 0x3bu8]
}

/// BEL, the terminator of an OSC sequence.
pub open spec fn osc_terminator() -> u8 {
    0x07u8
}

/// Largest payload kept; a longer one is dropped.
pub open spec fn max_payload() -> nat {
    65536
}

fn prefix_byte(i: usize) -> (b: u8)
    requires
        i < 7,
    ensures
        b == osc_prefix()[i as int],
{
    match i {
        0 => 0x1b,
        1 => 0x5d,
        2 => 0x36,
        3 => 0x39,
        4 => 0x37,
        5 => 0x33,
        _ => 0x3b,
    }
}

/// Parsed OSC event from the shell integration script.
#[derive(Debug, Clone, PartialEq)]
pub enum OscEvent {
    /// The shell reported the current command line buffer and cursor position.
    CommandLine { buffer: String, cursor: usize },
    /// The shell prompt is about to be drawn.
    PromptStart,
    /// The shell prompt has finished drawing.
    PromptEnd,
}

/// Model of an OSC event.
pub enum OscEventView {
    CommandLine { buffer: Seq<char>, cursor: usize },
    PromptStart,
    PromptEnd,
}

impl View for OscEvent {
    type V = OscEventView;

    open spec fn view(&self) -> OscEventView {
        match self {
            OscEvent::CommandLine { buffer, cursor } => OscEventView::CommandLine {
                buffer: buffer@,
                cursor: *cursor,
            },
            OscEvent::PromptStart => OscEventView::PromptStart,
            OscEvent::PromptEnd => OscEventView::PromptEnd,
        }
    }
}

pub open spec fn osc_views(s: Seq<OscEvent>) -> Seq<OscEventView> {
    s.map_values(|e: OscEvent| e@)
}

/// The event an OSC payload (the bytes between prefix and terminator)
/// denotes: `CL;<base64 buffer>;<cursor>`, `PS` or `PE`.
pub open spec fn payload_event(payload: Seq<u8>) -> Option<OscEventView> {
    if !valid_utf8(payload) {
        None
    } else {
        let s = decode_utf8(payload);
        let p1 = find_from(s, ';', 0);
        let code = s.take(p1);
        if code == seq!['C', 'L'] {
            if p1 >= s.len() {
                None
            } else {
                let p2 = find_from(s, ';', p1 + 1);
                if p2 >= s.len() {
                    None
                } else {
                    match base64_standard_decode(s.subrange(p1 + 1, p2)) {
                        None => None,
                        Some(bytes) => if !valid_utf8(bytes) {
                            None
                        } else {
                            match parse_usize_spec(s.subrange(p2 + 1, s.len() as int)) {
                                None => None,
                                Some(cursor) => Some(
                                    OscEventView::CommandLine { buffer: decode_utf8(bytes), cursor },
                                ),
                            }
                        },
                    }
                }
            }
        } else if code == seq!['P', 'S'] {
            Some(OscEventView::PromptStart)
        } else if code == seq!['P', 'E'] {
            Some(OscEventView::PromptEnd)
        } else {
            None
        }
    }
}

fn is_code(code: &Vec<char>, a: char, b: char) -> (r: bool)
    ensures
        r == (code@ == seq![a, b]),
{
    let r = code.len() == 2 && code[0] == a && code[1] == b;
    proof {
        if r {
            assert(code@ =~= seq![a, b]);
        }
    }
    r
}

/// Parse an OSC payload (the bytes between the prefix and terminator).
/// Format: CODE;ARG1;ARG2;...
fn parse_payload(payload: &[u8]) -> (r: Option<OscEvent>)
    ensures
        match r {
            Some(e) => payload_event(payload@) == Some(e@),
            None => payload_event(payload@) is None,
        },
{
    let s = match str_from_utf8(payload) {
        Some(s) => s,
        None => return None,
    };
    let cs = chars_of(s);
    let p1 = find_char(cs.as_slice(), ';', 0);
    let code = sub_chars(cs.as_slice(), 0, p1);
    assert(cs@.subrange(0, p1 as int) =~= cs@.take(p1 as int));
    if is_code(&code, 'C', 'L') {
        if p1 >= cs.len() {
            return None;
        }
        let p2 = find_char(cs.as_slice(), ';', p1 + 1);
        if p2 >= cs.len() {
            return None;
        }
        let b64_chars = sub_chars(cs.as_slice(), p1 + 1, p2);
        let b64 = string_of(b64_chars.as_slice());
        let bytes = match decode_base64(b64.as_str()) {
            Some(b) => b,
            None => return None,
        };
        let buffer = match string_from_utf8(bytes) {
            Some(b) => b,
            None => return None,
        };
        let cursor_chars = sub_chars(cs.as_slice(), p2 + 1, cs.len());
        let cursor = match parse_usize(cursor_chars.as_slice()) {
            Some(c) => c,
            None => return None,
        };
        Some(OscEvent::CommandLine { buffer, cursor })
    } else if is_code(&code, 'P', 'S') {
        Some(OscEvent::PromptStart)
    } else if is_code(&code, 'P', 'E') {
        Some(OscEvent::PromptEnd)
    } else {
        None
    }
}

/// Where the parser is within a possible OSC sequence.
#[derive(Debug, Clone, Copy, PartialEq, Eq, Structural)]
pub enum State {
    /// Normal passthrough mode.
    Normal,
    /// Some bytes of the OSC prefix have been matched.
    MatchingPrefix,
    /// Inside a confirmed Tabra OSC sequence, accumulating payload.
    InPayload,
}

/// Model of the parser: its state, accumulated bytes and prefix progress.
pub struct OscModel {
    pub state: State,
    pub buf: Seq<u8>,
    pub matched: nat,
}

/// The effect of one byte on the parser: new model, bytes passed
/// through, events produced.
pub open spec fn osc_step(m: OscModel, byte: u8) -> (OscModel, Seq<u8>, Seq<OscEventView>) {
    match m.state {
        State::Normal => if byte == osc_prefix()[0] {
            (OscModel { state: State::MatchingPrefix, buf: seq![byte], matched: 1 }, seq![], seq![])
        } else {
            (m, seq![byte], seq![])
        },
        State::MatchingPrefix => if byte == osc_prefix()[m.matched as int] {
            if m.matched + 1 == osc_prefix().len() {
                (OscModel { state: State::InPayload, buf: seq![], matched: m.matched + 1 }, seq![], seq![])
            } else {
                (OscModel { state: State::MatchingPrefix, buf: m.buf.push(byte), matched: m.matched + 1 }, seq![], seq![])
            }
        } else if byte == osc_prefix()[0] {
            (OscModel { state: State::MatchingPrefix, buf: seq![byte], matched: 1 }, m.buf, seq![])
        } else {
            (OscModel { state: State::Normal, buf: seq![], matched: 0 }, m.buf.push(byte), seq![])
        },
        State::InPayload => if byte == osc_terminator() {
            (
                OscModel { state: State::Normal, buf: seq![], matched: m.matched },
                seq![],
                match payload_event(m.buf) {
                    Some(e) => seq![e],
                    None => seq![],
                },
            )
        } else if m.buf.len() + 1 > max_payload() {
            (OscModel { state: State::Normal, buf: seq![], matched: m.matched }, seq![], seq![])
        } else {
            (OscModel { state: State::InPayload, buf: m.buf.push(byte), matched: m.matched }, seq![], seq![])
        },
    }
}

/// The effect of a byte sequence: final model, passthrough, events.
pub open spec fn osc_run(m: OscModel, bytes: Seq<u8>) -> (OscModel, Seq<u8>, Seq<OscEventView>)
    decreases bytes.len(),
{
    if bytes.len() == 0 {
        (m, seq![], seq![])
    } else {
        let (m1, p1, e1) = osc_run(m, bytes.drop_last());
        let (m2, p2, e2) = osc_step(m1, bytes.last());
        (m2, p1 + p2, e1 + e2)
    }
}

/// The parser's invariant: while matching, between 1 and 6 prefix bytes
/// have been matched.
pub open spec fn osc_model_wf(m: OscModel) -> bool {
    m.state == State::MatchingPrefix ==> 1 <= m.matched < osc_prefix().len()
}

/// Accumulator-based OSC parser that processes PTY output byte by byte.
pub struct OscParser {
    state: State,
    buf: Vec<u8>,
    prefix_matched: usize,
}

impl View for OscParser {
    type V = OscModel;

    closed spec fn view(&self) -> OscModel {
        OscModel { state: self.state, buf: self.buf@, matched: self.prefix_matched as nat }
    }
}

impl OscParser {
    pub open spec fn wf(&self) -> bool {
        osc_model_wf(self@)
    }

    pub fn new() -> (p: Self)
        ensures
            p@ == (OscModel { state: State::Normal, buf: seq![], matched: 0 }),
            p.wf(),
    {
        OscParser { state: State::Normal, buf: Vec::new(), prefix_matched: 0 }
    }

    /// Feed a chunk of PTY output bytes through the parser.
    ///
    /// Returns the bytes to forward to the real terminal and the parsed
    /// Tabra OSC events.
    pub fn feed(&mut self, chunk: &[u8]) -> (r: (Vec<u8>, Vec<OscEvent>))
        requires
            old(self).wf(),
        ensures
            final(self).wf(),
            (final(self)@, r.0@, osc_views(r.1@)) == osc_run(old(self)@, chunk@),
    {
        let mut passthrough: Vec<u8> = Vec::new();
        let mut events: Vec<OscEvent> = Vec::new();
        let mut i: usize = 0;
        assert(chunk@.take(0) =~= Seq::<u8>::empty());
        assert(osc_views(events@) =~= Seq::<OscEventView>::empty());
        while i < chunk.len()
            invariant
                i <= chunk@.len(),
                self.wf(),
                (self@, passthrough@, osc_views(events@)) == osc_run(
                    old(self)@,
                    chunk@.take(i as int),
                ),
            decreases chunk.len() - i,
        {
            let byte = chunk[i];
            let ghost m0 = self@;
            let ghost p0 = passthrough@;
            let ghost e0 = osc_views(events@);
            assert(chunk@.take(i + 1).drop_last() =~= chunk@.take(i as int));
            assert(chunk@.take(i + 1).last() == byte);
            match self.state {
                State::Normal => {
                    if byte == 0x1b {
                        self.state = State::MatchingPrefix;
                        self.prefix_matched = 1;
                        self.buf.clear();
                        self.buf.push(byte);
                        assert(self.buf@ =~= seq![byte]);
                    } else {
                        passthrough.push(byte);
                    }
                },
                State::MatchingPrefix => {
                    self.buf.push(byte);
                    if byte == prefix_byte(self.prefix_matched) {
                        self.prefix_matched += 1;
                        if self.prefix_matched == 7 {
                            self.state = State::InPayload;
                            self.buf.clear();
                        }
                    } else {
                        let accumulated_before = self.buf.len() - 1;
                        append_bytes(&mut passthrough, &self.buf.as_slice()[0..accumulated_before]);
                        assert(self.buf@.subrange(0, accumulated_before as int) =~= m0.buf);
                        self.buf.clear();
                        if byte == 0x1b {
                            self.state = State::MatchingPrefix;
                            self.prefix_matched = 1;
                            self.buf.push(byte);
                            assert(self.buf@ =~= seq![byte]);
                        } else {
                            passthrough.push(byte);
                            self.prefix_matched = 0;
                            self.state = State::Normal;
                        }
                    }
                },
                State::InPayload => {
                    if byte == 0x07 {
                        let ev = parse_payload(self.buf.as_slice());
                        let ghost e_old = events@;
                        match ev {
                            Some(event) => {
                                events.push(event);
                                assert(osc_views(events@) =~= osc_views(e_old).push(event@));
                            },
                            None => {},
                        }
                        self.buf.clear();
                        self.state = State::Normal;
                    } else {
                        self.buf.push(byte);
                        if self.buf.len() > 65536 {
                            self.buf.clear();
                            self.state = State::Normal;
                        }
                    }
                },
            }
            proof {
                let (m2, p2, e2) = osc_step(m0, byte);
                assert(self@ == m2);
                assert(passthrough@ =~= p0 + p2);
                assert(osc_views(events@) =~= e0 + e2);
            }
            i += 1;
        }
        assert(chunk@.take(chunk@.len() as int) =~= chunk@);
        (passthrough, events)
    }
}

} // verus!

verus! {

/// Feeding a stream in two chunks, in turn, has the effect of feeding it
/// at once: the same final state, the same bytes passed through and the
/// same events, in order, wherever the stream is cut (a sequence may span
/// the two chunks).
pub proof fn law_feed_split(m: OscModel, a: Seq<u8>, b: Seq<u8>)
    ensures
        ({
            let (m1, p1, e1) = osc_run(m, a);
            let (m2, p2, e2) = osc_run(m1, b);
            osc_run(m, a + b) == (m2, p1 + p2, e1 + e2)
        }),
    decreases b.len(),
{
    if b.len() == 0 {
        assert(a + b =~= a);
        let (m1, p1, e1) = osc_run(m, a);
        assert(p1 + Seq::<u8>::empty() =~= p1);
        assert(e1 + Seq::<OscEventView>::empty() =~= e1);
    } else {
        law_feed_split(m, a, b.drop_last());
        assert((a + b).drop_last() =~= a + b.drop_last());
        assert((a + b).last() == b.last());
        let (m1, p1, e1) = osc_run(m, a);
        let (mb, pb, eb) = osc_run(m1, b.drop_last());
        let (ms, ps, es) = osc_step(mb, b.last());
        assert(p1 + pb + ps =~= p1 + (pb + ps));
        assert(e1 + eb + es =~= e1 + (eb + es));
    }
}

/// Output without an ESC byte passes through unchanged and produces no
/// event while the parser is in its normal state.
pub proof fn law_plain_output_passes(m: OscModel, bytes: Seq<u8>)
    requires
        m.state == State::Normal,
        forall|i: int| 0 <= i < bytes.len() ==> #[trigger] bytes[i] != 0x1bu8,
    ensures
        osc_run(m, bytes) == (m, bytes, Seq::<OscEventView>::empty()),
    decreases bytes.len(),
{
    if bytes.len() > 0 {
        law_plain_output_passes(m, bytes.drop_last());
        assert(bytes[bytes.len() - 1] != 0x1bu8);
        assert(bytes.drop_last().push(bytes.last()) =~= bytes);
    } else {
        assert(bytes =~= Seq::<u8>::empty());
    }
}

} // verus!
