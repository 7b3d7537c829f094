//! Generator scripts: which command a generator runs, and the suggestions
//! its output gives.
//!
//! The output is split on the generator's `split_on` text (a newline by
//! default); each piece is trimmed of whitespace, empty pieces are
//! skipped, and every other piece becomes a suggestion of kind `Special`.
use vstd::prelude::*;
use crate::engine::resolver::{ResolvedSuggestion, ResolvedView, resolved_views};
use crate::spec::types::{Generator, GeneratorScript, SuggestionType, string_views};
use crate::text::{chars_of, owned, string_of, sub_chars};

verus! {

/// Milliseconds a script may run when its generator sets no timeout.
pub const DEFAULT_SCRIPT_TIMEOUT_MS: u64 = 5000;

/// A command to run for a generator: the program, its arguments, and how
/// long it may run.
#[derive(Debug, Clone)]
pub struct ScriptRun {
    pub program: String,
    pub args: Vec<String>,
    pub timeout_ms: u64,
}

pub struct ScriptRunView {
    pub program: Seq<char>,
    pub args: Seq<Seq<char>>,
    pub timeout_ms: u64,
}

impl View for ScriptRun {
    type V = ScriptRunView;

    open spec fn view(&self) -> ScriptRunView {
        ScriptRunView { program: self.program@, args: string_views(self.args@), timeout_ms: self.timeout_ms }
    }
}

/// The command a generator runs: a command list runs its first element
/// with the rest as arguments; a shell line runs under `sh -c`; a function
/// or an empty command list runs nothing.
pub open spec fn script_run_spec(g: Generator) -> Option<ScriptRunView> {
    let timeout_ms = match g.script_timeout {
        Some(t) => t,
        None => DEFAULT_SCRIPT_TIMEOUT_MS,
    };
    match g.script {
        Some(GeneratorScript::Command(v)) => if v@.len() > 0 {
            Some(ScriptRunView { program: v@[0]@, args: string_views(v@.drop_first()), timeout_ms })
        } else {
            None
        },
        Some(GeneratorScript::Shell(line)) => Some(
            ScriptRunView { program: "sh"@, args: seq!["-c"@, line@], timeout_ms },
        ),
        _ => None,
    }
}

/// The command to run for a generator, if it has a runnable script.
pub fn script_run(g: &Generator) -> (r: Option<ScriptRun>)
    ensures
        match r {
            Some(run) => script_run_spec(*g) == Some(run@),
            None => script_run_spec(*g) is None,
        },
{
    let timeout_ms = match g.script_timeout {
        Some(t) => t,
        None => DEFAULT_SCRIPT_TIMEOUT_MS,
    };
    match &g.script {
        Some(GeneratorScript::Command(v)) => {
            if v.len() == 0 {
                return None;
            }
            let mut args: Vec<String> = Vec::new();
            let mut i: usize = 1;
            while i < v.len()
                invariant
                    1 <= i <= v@.len(),
                    string_views(args@) == string_views(v@.subrange(1, i as int)),
                decreases v.len() - i,
            {
                let a = v[i].clone();
                let ghost before = args@;
                args.push(a);
                assert(string_views(args@) =~= string_views(before).push(v@[i as int]@));
                assert(string_views(v@.subrange(1, i + 1)) =~= string_views(v@.subrange(1, i as int)).push(
                    v@[i as int]@,
                ));
                i += 1;
            }
            assert(v@.subrange(1, v@.len() as int) =~= v@.drop_first());
            Some(ScriptRun { program: v[0].clone(), args, timeout_ms })
        },
        Some(GeneratorScript::Shell(line)) => {
            let args = vec![owned("-c"), line.clone()];
            assert(string_views(args@) =~= seq!["-c"@, line@]);
            Some(ScriptRun { program: owned("sh"), args, timeout_ms })
        },
        _ => None,
    }
}

/// Whether a character is whitespace (`char::is_whitespace`: Unicode
/// `White_Space`).
pub open spec fn is_white(c: char) -> bool {
    let v = c as u32;
    ||| 0x09 <= v <= 0x0d
    ||| v == 0x20
    ||| v == 0x85
    ||| v == 0xa0
    ||| v == 0x1680
    ||| 0x2000 <= v <= 0x200a
    ||| v == 0x2028
    ||| v == 0x2029
    ||| v == 0x202f
    ||| v == 0x205f
    ||| v == 0x3000
}

fn white(c: char) -> (r: bool)
    ensures
        r == is_white(c),
{
    let v = c as u32;
    (0x09 <= v && v <= 0x0d) || v == 0x20 || v == 0x85 || v == 0xa0 || v == 0x1680 || (0x2000 <= v && v <= 0x200a)
        || v == 0x2028 || v == 0x2029 || v == 0x202f || v == 0x205f || v == 0x3000
}

/// Index of the first non-whitespace character at or after `i`, or the length.
pub open spec fn lead_end(s: Seq<char>, i: int) -> int
    decreases s.len() - i,
{
    if i >= s.len() {
        s.len() as int
    } else if is_white(s[i]) {
        lead_end(s, i + 1)
    } else {
        i
    }
}

/// Index just past the last non-whitespace character before `j`, or 0.
pub open spec fn trail_end(s: Seq<char>, j: int) -> int
    decreases j,
{
    if j <= 0 {
        0
    } else if is_white(s[j - 1]) {
        trail_end(s, j - 1)
    } else {
        j
    }
}

/// A text without its leading and trailing whitespace (`str::trim`).
pub open spec fn trim_spec(s: Seq<char>) -> Seq<char> {
    let a = lead_end(s, 0);
    let b = trail_end(s, s.len() as int);
    if a < b {
        s.subrange(a, b)
    } else {
        seq![]
    }
}

proof fn lemma_lead_end(s: Seq<char>, i: int)
    requires
        0 <= i <= s.len(),
    ensures
        i <= lead_end(s, i) <= s.len(),
    decreases s.len() - i,
{
    if i < s.len() && is_white(s[i]) {
        lemma_lead_end(s, i + 1);
    }
}

proof fn lemma_trail_end(s: Seq<char>, j: int)
    requires
        0 <= j <= s.len(),
    ensures
        0 <= trail_end(s, j) <= j,
    decreases j,
{
    if j > 0 && is_white(s[j - 1]) {
        lemma_trail_end(s, j - 1);
    }
}

/// The characters of `s` without leading and trailing whitespace.
fn trim_chars(s: &Vec<char>) -> (r: Vec<char>)
    ensures
        r@ == trim_spec(s@),
{
    let mut a: usize = 0;
    while a < s.len() && white(s[a])
        invariant
            a <= s@.len(),
            lead_end(s@, 0) == lead_end(s@, a as int),
        decreases s.len() - a,
    {
        a += 1;
    }
    let mut b: usize = s.len();
    while b > 0 && white(s[b - 1])
        invariant
            b <= s@.len(),
            trail_end(s@, s@.len() as int) == trail_end(s@, b as int),
        decreases b,
    {
        b -= 1;
    }
    if a < b {
        sub_chars(s.as_slice(), a, b)
    } else {
        Vec::new()
    }
}

/// The pieces of `s` between the occurrences of a non-empty `sep`, the
/// search resuming at `i` within the piece that starts at `start`.
pub open spec fn split_from(s: Seq<char>, sep: Seq<char>, start: int, i: int) -> Seq<Seq<char>>
    decreases s.len() - i,
{
    if sep.len() == 0 || i < 0 || i + sep.len() > s.len() {
        seq![s.subrange(start, s.len() as int)]
    } else if s.subrange(i, i + sep.len()) == sep {
        seq![s.subrange(start, i)] + split_from(s, sep, i + sep.len(), i + sep.len())
    } else {
        split_from(s, sep, start, i + 1)
    }
}

/// `str::split` by a text: the pieces between non-overlapping occurrences
/// of `sep`, left to right; an empty `sep` splits between all characters,
/// with an empty piece at each end.
pub open spec fn split_pieces(s: Seq<char>, sep: Seq<char>) -> Seq<Seq<char>> {
    if sep.len() == 0 {
        seq![Seq::<char>::empty()] + s.map_values(|c: char| seq![c]) + seq![Seq::<char>::empty()]
    } else {
        split_from(s, sep, 0, 0)
    }
}

/// The suggestion a line of script output gives.
pub open spec fn output_view(line: Seq<char>) -> ResolvedView {
    ResolvedView {
        match_text: line,
        display_text: line,
        insert_text: line,
        description: seq![],
        kind: SuggestionType::Special,
        priority: 50,
        is_dangerous: false,
    }
}

/// The suggestions of pieces of output: each trimmed piece that is not
/// empty, in order.
pub open spec fn pieces_suggestions(pieces: Seq<Seq<char>>) -> Seq<ResolvedView>
    decreases pieces.len(),
{
    if pieces.len() == 0 {
        seq![]
    } else {
        pieces_suggestions(pieces.drop_last()) + if trim_spec(pieces.last()).len() > 0 {
            seq![output_view(trim_spec(pieces.last()))]
        } else {
            seq![]
        }
    }
}

/// The separator a generator splits its output on: `split_on`, or a newline.
pub open spec fn separator_of(g: Generator) -> Seq<char> {
    match g.split_on {
        Some(s) => s@,
        None => seq!['\n'],
    }
}

/// The suggestions a generator's script output gives.
pub open spec fn script_suggestions_spec(output: Seq<char>, g: Generator) -> Seq<ResolvedView> {
    pieces_suggestions(split_pieces(output, separator_of(g)))
}

proof fn lemma_pieces_concat(a: Seq<Seq<char>>, b: Seq<Seq<char>>)
    ensures
        pieces_suggestions(a + b) == pieces_suggestions(a) + pieces_suggestions(b),
    decreases b.len(),
{
    if b.len() == 0 {
        assert(a + b =~= a);
        assert(pieces_suggestions(a) + Seq::<ResolvedView>::empty() =~= pieces_suggestions(a));
    } else {
        lemma_pieces_concat(a, b.drop_last());
        assert((a + b).drop_last() =~= a + b.drop_last());
        assert((a + b).last() == b.last());
        let t = if trim_spec(b.last()).len() > 0 {
            seq![output_view(trim_spec(b.last()))]
        } else {
            Seq::<ResolvedView>::empty()
        };
        assert(pieces_suggestions(a) + pieces_suggestions(b.drop_last()) + t =~= pieces_suggestions(a) + (
        pieces_suggestions(b.drop_last()) + t));
    }
}

proof fn lemma_pieces_one(x: Seq<char>)
    ensures
        pieces_suggestions(seq![x]) == (if trim_spec(x).len() > 0 {
            seq![output_view(trim_spec(x))]
        } else {
            Seq::<ResolvedView>::empty()
        }),
{
    assert(seq![x].drop_last() =~= Seq::<Seq<char>>::empty());
    assert(pieces_suggestions(Seq::<Seq<char>>::empty()) =~= Seq::<ResolvedView>::empty());
    let t = if trim_spec(x).len() > 0 {
        seq![output_view(trim_spec(x))]
    } else {
        Seq::<ResolvedView>::empty()
    };
    assert(Seq::<ResolvedView>::empty() + t =~= t);
}

/// Appends the suggestion of one piece of output, when it is not blank.
fn push_piece(piece: &Vec<char>, out: &mut Vec<ResolvedSuggestion>)
    ensures
        resolved_views(final(out)@) == resolved_views(old(out)@) + pieces_suggestions(seq![piece@]),
{
    proof {
        lemma_pieces_one(piece@);
    }
    let t = trim_chars(piece);
    if t.len() > 0 {
        let text = string_of(t.as_slice());
        let r = ResolvedSuggestion {
            match_text: text.clone(),
            display_text: text.clone(),
            insert_text: text,
            description: String::new(),
            kind: SuggestionType::Special,
            priority: 50,
            is_dangerous: false,
        };
        let ghost before = out@;
        out.push(r);
        assert(resolved_views(out@) =~= resolved_views(before).push(r@));
        assert(r@ == output_view(trim_spec(piece@)));
        assert(resolved_views(before) + seq![r@] =~= resolved_views(before).push(r@));
    } else {
        assert(resolved_views(out@) + Seq::<ResolvedView>::empty() =~= resolved_views(out@));
    }
}

/// Whether `sep` occurs in `s` at `i`.
fn occurs_at(s: &Vec<char>, sep: &Vec<char>, i: usize) -> (r: bool)
    requires
        i + sep@.len() <= s@.len(),
    ensures
        r == (s@.subrange(i as int, i + sep@.len()) == sep@),
{
    let n = s.len();
    let mut j: usize = 0;
    while j < sep.len()
        invariant
            n == s@.len(),
            i + sep@.len() <= s@.len(),
            j <= sep@.len(),
            forall|k: int| 0 <= k < j ==> s@[i + k] == sep@[k],
        decreases sep.len() - j,
    {
        if s[i + j] != sep[j] {
            assert(s@.subrange(i as int, i + sep@.len())[j as int] != sep@[j as int]);
            return false;
        }
        j += 1;
    }
    assert(s@.subrange(i as int, i + sep@.len()) =~= sep@);
    true
}

/// The suggestions a generator's script output gives: the output split on
/// the generator's `split_on` (a newline by default), each piece trimmed,
/// empty pieces skipped, every other piece a suggestion of kind `Special`.
pub fn script_suggestions(output: &str, g: &Generator) -> (r: Vec<ResolvedSuggestion>)
    ensures
        resolved_views(r@) == script_suggestions_spec(output@, *g),
{
    let s = chars_of(output);
    let sep = match &g.split_on {
        Some(x) => chars_of(x.as_str()),
        None => vec!['\n'],
    };
    assert(sep@ == separator_of(*g));
    let mut out: Vec<ResolvedSuggestion> = Vec::new();
    assert(resolved_views(out@) =~= Seq::<ResolvedView>::empty());
    if sep.len() == 0 {
        let ghost m = s@.map_values(|c: char| seq![c]);
        let empty: Vec<char> = Vec::new();
        push_piece(&empty, &mut out);
        let ghost head = resolved_views(out@);
        assert(head =~= pieces_suggestions(seq![Seq::<char>::empty()])) by {
            assert(Seq::<ResolvedView>::empty() + pieces_suggestions(seq![Seq::<char>::empty()]) =~= pieces_suggestions(
                seq![Seq::<char>::empty()],
            ));
        }
        let mut i: usize = 0;
        assert(m.take(0) =~= Seq::<Seq<char>>::empty());
        assert(head + pieces_suggestions(m.take(0)) =~= head);
        while i < s.len()
            invariant
                i <= s@.len(),
                m == s@.map_values(|c: char| seq![c]),
                resolved_views(out@) == head + pieces_suggestions(m.take(i as int)),
            decreases s.len() - i,
        {
            let piece = vec![s[i]];
            assert(piece@ =~= m[i as int]);
            push_piece(&piece, &mut out);
            proof {
                assert(m.take(i + 1) =~= m.take(i as int) + seq![m[i as int]]);
                lemma_pieces_concat(m.take(i as int), seq![m[i as int]]);
            }
            i += 1;
        }
        push_piece(&empty, &mut out);
        proof {
            assert(m.take(s@.len() as int) =~= m);
            lemma_pieces_concat(seq![Seq::<char>::empty()], m);
            lemma_pieces_concat(seq![Seq::<char>::empty()] + m, seq![Seq::<char>::empty()]);
            assert(split_pieces(output@, sep@) == seq![Seq::<char>::empty()] + m + seq![Seq::<char>::empty()]);
        }
        return out;
    }
    if sep.len() > s.len() {
        proof {
            assert(split_pieces(output@, sep@) == seq![s@.subrange(0, s@.len() as int)]);
            assert(s@.subrange(0, s@.len() as int) =~= s@);
        }
        push_piece(&s, &mut out);
        return out;
    }
    let sl = s.len();
    let last = sl - sep.len();
    let mut start: usize = 0;
    let mut i: usize = 0;
    assert(resolved_views(out@) + pieces_suggestions(split_from(s@, sep@, 0, 0)) =~= pieces_suggestions(
        split_from(s@, sep@, 0, 0),
    ));
    while i <= last
        invariant
            sep@.len() > 0,
            sep@.len() <= s@.len(),
            last == s@.len() - sep@.len(),
            sl == s@.len(),
            start <= i <= last + sep@.len(),
            resolved_views(out@) + pieces_suggestions(split_from(s@, sep@, start as int, i as int))
                == pieces_suggestions(split_from(s@, sep@, 0, 0)),
        decreases s@.len() - i,
    {
        let ghost before = resolved_views(out@);
        if occurs_at(&s, &sep, i) {
            let piece = sub_chars(s.as_slice(), start, i);
            push_piece(&piece, &mut out);
            proof {
                let rest = split_from(s@, sep@, i + sep@.len(), i + sep@.len());
                assert(split_from(s@, sep@, start as int, i as int) == seq![piece@] + rest);
                lemma_pieces_concat(seq![piece@], rest);
                assert(before + (pieces_suggestions(seq![piece@]) + pieces_suggestions(rest)) =~= before
                    + pieces_suggestions(seq![piece@]) + pieces_suggestions(rest));
            }
            i = i + sep.len();
            start = i;
        } else {
            i = i + 1;
        }
    }
    let piece = sub_chars(s.as_slice(), start, s.len());
    push_piece(&piece, &mut out);
    proof {
        assert(split_from(s@, sep@, start as int, i as int) == seq![piece@]);
        assert(split_pieces(output@, sep@) == split_from(s@, sep@, 0, 0));
    }
    out
}

} // verus!
