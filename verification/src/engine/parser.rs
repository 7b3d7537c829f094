//! Command-line parser: tokenizes the user's input buffer and walks the
//! spec tree to determine the current completion context.
//!
//! This is not a shell parser: pipes, redirections and variable expansion
//! are not handled.
use vstd::prelude::*;
use crate::spec::types::{FilterStrategy, SingleOrArray, Spec, Subcommand, Opt, string_views};
use crate::text::{chars_of, push_char};

verus! {

/// Tokenizer state after a prefix of the input.
pub struct TokState {
    pub tokens: Seq<Seq<char>>,
    pub current: Seq<char>,
    pub in_single_quote: bool,
    pub in_double_quote: bool,
    pub escape_next: bool,
}

pub open spec fn tok_init() -> TokState {
    TokState {
        tokens: seq![],
        current: seq![],
        in_single_quote: false,
        in_double_quote: false,
        escape_next: false,
    }
}

/// The effect of one character on the tokenizer: backslash escapes the
/// next character outside single quotes, quotes toggle (and are dropped),
/// unquoted spaces and tabs end the current token.
pub open spec fn tok_step(st: TokState, ch: char) -> TokState {
    if st.escape_next {
        TokState { current: st.current.push(ch), escape_next: false, ..st }
    } else if ch == '\\' && !st.in_single_quote {
        TokState { escape_next: true, ..st }
    } else if ch == '\'' && !st.in_double_quote {
        TokState { in_single_quote: !st.in_single_quote, ..st }
    } else if ch == '"' && !st.in_single_quote {
        TokState { in_double_quote: !st.in_double_quote, ..st }
    } else if (ch == ' ' || ch == '\t') && !st.in_single_quote && !st.in_double_quote {
        if st.current.len() > 0 {
            TokState { tokens: st.tokens.push(st.current), current: seq![], ..st }
        } else {
            st
        }
    } else {
        TokState { current: st.current.push(ch), ..st }
    }
}

pub open spec fn tok_run(chars: Seq<char>) -> TokState
    decreases chars.len(),
{
    if chars.len() == 0 {
        tok_init()
    } else {
        tok_step(tok_run(chars.drop_last()), chars.last())
    }
}

/// The part of the buffer before the cursor (a character index).
pub open spec fn before_cursor(buffer: Seq<char>, cursor: usize) -> Seq<char> {
    if cursor <= buffer.len() {
        buffer.take(cursor as int)
    } else {
        buffer
    }
}

/// The completed tokens before the cursor and the partial token at it.
/// A space or tab at the end, outside quotes, means a new token is being
/// started: the partial token is then empty. Inside an open quote the
/// trailing blank belongs to the partial token.
pub open spec fn tokenize_spec(buffer: Seq<char>, cursor: usize) -> (Seq<Seq<char>>, Seq<char>) {
    let relevant = before_cursor(buffer, cursor);
    let st = tok_run(relevant);
    if relevant.len() > 0 && (relevant.last() == ' ' || relevant.last() == '\t') && !st.in_single_quote
        && !st.in_double_quote {
        (if st.current.len() > 0 {
            st.tokens.push(st.current)
        } else {
            st.tokens
        }, seq![])
    } else {
        (st.tokens, st.current)
    }
}

/// Tokenize a command line buffer at the given cursor position.
/// `cursor` is a character index, not a byte offset.
/// Returns (tokens_before_cursor, partial_token_at_cursor).
pub fn tokenize(buffer: &str, cursor: usize) -> (r: (Vec<String>, String))
    ensures
        (string_views(r.0@), r.1@) == tokenize_spec(buffer@, cursor),
{
    let cs = chars_of(buffer);
    let end = if cursor <= cs.len() {
        cursor
    } else {
        cs.len()
    };
    let ghost relevant = before_cursor(buffer@, cursor);
    assert(relevant =~= cs@.take(end as int));

    let mut tokens: Vec<String> = Vec::new();
    let mut current = String::new();
    let mut in_single_quote = false;
    let mut in_double_quote = false;
    let mut escape_next = false;
    let mut i: usize = 0;
    assert(cs@.take(0) =~= Seq::<char>::empty());
    assert(string_views(tokens@) =~= Seq::<Seq<char>>::empty());
    while i < end
        invariant
            i <= end <= cs@.len(),
            tok_run(cs@.take(i as int)) == (TokState {
                tokens: string_views(tokens@),
                current: current@,
                in_single_quote,
                in_double_quote,
                escape_next,
            }),
        decreases end - i,
    {
        let ch = cs[i];
        assert(cs@.take(i + 1).drop_last() =~= cs@.take(i as int));
        if escape_next {
            push_char(&mut current, ch);
            escape_next = false;
        } else if ch == '\\' && !in_single_quote {
            escape_next = true;
        } else if ch == '\'' && !in_double_quote {
            in_single_quote = !in_single_quote;
        } else if ch == '"' && !in_single_quote {
            in_double_quote = !in_double_quote;
        } else if (ch == ' ' || ch == '\t') && !in_single_quote && !in_double_quote {
            if !current.as_str().is_empty() {
                let ghost old_tokens = tokens@;
                tokens.push(current);
                current = String::new();
                assert(string_views(tokens@) =~= string_views(old_tokens).push(
                    string_views(tokens@).last(),
                ));
            }
        } else {
            push_char(&mut current, ch);
        }
        i += 1;
    }
    let ends_with_space = end > 0 && (cs[end - 1] == ' ' || cs[end - 1] == '\t');
    if ends_with_space && !in_single_quote && !in_double_quote {
        if !current.as_str().is_empty() {
            let ghost old_tokens = tokens@;
            tokens.push(current);
            assert(string_views(tokens@) =~= string_views(old_tokens).push(
                string_views(tokens@).last(),
            ));
        }
        (tokens, String::new())
    } else {
        (tokens, current)
    }
}


/// The result of parsing the command line against a spec.
#[derive(Debug, Clone)]
pub struct ParseContext {
    /// The chain of subcommands from root to current position.
    pub subcommand_path: Vec<String>,
    /// Indices into the subcommand lists leading to the current node.
    pub spec_path: Vec<usize>,
    /// Options already used in the current subcommand scope.
    pub used_options: Vec<String>,
    /// What the parser expects at the cursor position.
    pub expected: ExpectedCompletion,
    /// The partial token being typed.
    pub current_token: String,
    /// Filter strategy in effect at this position.
    pub filter_strategy: FilterStrategy,
}

/// What kind of completion the parser expects at the cursor position.
#[derive(Debug, Clone)]
pub enum ExpectedCompletion {
    /// A subcommand, option, or the positional argument at `arg_index`.
    SubcommandOrOptionOrArg { arg_index: usize },
    /// The value for an option (e.g. after "-m").
    OptionArg { option_name: String, arg_index: usize },
    /// Nothing (after the "--" separator).
    Nothing,
}

pub enum ExpectedView {
    SubcommandOrOptionOrArg { arg_index: usize },
    OptionArg { option_name: Seq<char>, arg_index: usize },
    Nothing,
}

impl View for ExpectedCompletion {
    type V = ExpectedView;

    open spec fn view(&self) -> ExpectedView {
        match self {
            ExpectedCompletion::SubcommandOrOptionOrArg { arg_index } => ExpectedView::SubcommandOrOptionOrArg {
                arg_index: *arg_index,
            },
            ExpectedCompletion::OptionArg { option_name, arg_index } => ExpectedView::OptionArg {
                option_name: option_name@,
                arg_index: *arg_index,
            },
            ExpectedCompletion::Nothing => ExpectedView::Nothing,
        }
    }
}

pub struct ParseView {
    pub subcommand_path: Seq<Seq<char>>,
    pub spec_path: Seq<usize>,
    pub used_options: Seq<Seq<char>>,
    pub expected: ExpectedView,
    pub current_token: Seq<char>,
    pub filter_strategy: FilterStrategy,
}

impl View for ParseContext {
    type V = ParseView;

    open spec fn view(&self) -> ParseView {
        ParseView {
            subcommand_path: string_views(self.subcommand_path@),
            spec_path: self.spec_path@,
            used_options: string_views(self.used_options@),
            expected: self.expected@,
            current_token: self.current_token@,
            filter_strategy: self.filter_strategy,
        }
    }
}

/// Index of the first subcommand at or after `from` that has `tok` among its names.
pub open spec fn find_subcommand(subs: Seq<Subcommand>, tok: Seq<char>, from: int) -> Option<int>
    decreases subs.len() - from,
{
    if from < 0 || from >= subs.len() {
        None
    } else if subs[from].name_views().contains(tok) {
        Some(from)
    } else {
        find_subcommand(subs, tok, from + 1)
    }
}

/// Index of the first option at or after `from` that has `tok` among its names.
pub open spec fn find_option(opts: Seq<Opt>, tok: Seq<char>, from: int) -> Option<int>
    decreases opts.len() - from,
{
    if from < 0 || from >= opts.len() {
        None
    } else if opts[from].name_views().contains(tok) {
        Some(from)
    } else {
        find_option(opts, tok, from + 1)
    }
}

/// Whether an option's first argument is mandatory.
pub open spec fn takes_required_arg(opt: Opt) -> bool {
    match opt.args {
        Some(args) => args.items().len() > 0 && !args.items()[0].is_optional,
        None => false,
    }
}

/// Parser state while walking the tokens after the command name.
pub struct ParseState {
    pub subcommand_path: Seq<Seq<char>>,
    pub spec_path: Seq<usize>,
    pub used_options: Seq<Seq<char>>,
    pub cmd: Subcommand,
    pub arg_index: nat,
    pub filter_strategy: FilterStrategy,
    pub hit_separator: bool,
    pub pending: Option<Seq<char>>,
}

/// The effect of one token: an option's value is consumed; `--` is the
/// separator; a subcommand name descends into it; a known option is
/// recorded; anything else is a positional argument.
pub open spec fn parse_step(st: ParseState, tok: Seq<char>) -> ParseState {
    if st.pending is Some {
        ParseState { pending: None, ..st }
    } else if tok == seq!['-', '-'] {
        ParseState { hit_separator: true, ..st }
    } else if st.cmd.subcommands is Some && find_subcommand(
        st.cmd.subcommands.unwrap()@,
        tok,
        0,
    ) is Some {
        let idx = find_subcommand(st.cmd.subcommands.unwrap()@, tok, 0).unwrap();
        let sub = st.cmd.subcommands.unwrap()@[idx];
        ParseState {
            subcommand_path: st.subcommand_path.push(tok),
            spec_path: st.spec_path.push(idx as usize),
            used_options: seq![],
            cmd: sub,
            arg_index: 0,
            filter_strategy: match sub.filter_strategy {
                Some(fs) => fs,
                None => st.filter_strategy,
            },
            ..st
        }
    } else if tok.len() > 0 && tok[0] == '-' && st.cmd.options is Some && find_option(
        st.cmd.options.unwrap()@,
        tok,
        0,
    ) is Some {
        let opt = st.cmd.options.unwrap()@[find_option(st.cmd.options.unwrap()@, tok, 0).unwrap()];
        ParseState {
            used_options: st.used_options.push(tok),
            pending: if takes_required_arg(opt) {
                Some(tok)
            } else {
                None
            },
            ..st
        }
    } else {
        ParseState { arg_index: st.arg_index + 1, ..st }
    }
}

pub open spec fn parse_run(st: ParseState, toks: Seq<Seq<char>>) -> ParseState
    decreases toks.len(),
{
    if toks.len() == 0 {
        st
    } else {
        parse_step(parse_run(st, toks.drop_last()), toks.last())
    }
}

/// The completion context of `buffer` at `cursor` under `spec`.
pub open spec fn parse_spec(spec: Spec, buffer: Seq<char>, cursor: usize) -> ParseView {
    let (tokens, partial) = tokenize_spec(buffer, cursor);
    let init = ParseState {
        subcommand_path: if tokens.len() > 0 {
            seq![tokens[0]]
        } else {
            seq![]
        },
        spec_path: seq![],
        used_options: seq![],
        cmd: spec,
        arg_index: 0,
        filter_strategy: FilterStrategy::Default,
        hit_separator: false,
        pending: None,
    };
    let st = parse_run(init, if tokens.len() > 0 { tokens.drop_first() } else { seq![] });
    ParseView {
        subcommand_path: st.subcommand_path,
        spec_path: st.spec_path,
        used_options: st.used_options,
        expected: if st.hit_separator {
            ExpectedView::Nothing
        } else if st.pending is Some {
            ExpectedView::OptionArg { option_name: st.pending.unwrap(), arg_index: 0 }
        } else {
            ExpectedView::SubcommandOrOptionOrArg { arg_index: st.arg_index as usize }
        },
        current_token: partial,
        filter_strategy: st.filter_strategy,
    }
}

/// Whether `tok` is one of the names.
pub fn names_contain(name: &SingleOrArray<String>, tok: &String) -> (r: bool)
    ensures
        r == string_views(name.items()).contains(tok@),
{
    match name {
        SingleOrArray::Single(n) => {
            let r = *n == *tok;
            proof {
                if r {
                    assert(string_views(name.items())[0] == tok@);
                }
            }
            r
        },
        SingleOrArray::Array(ns) => {
            let mut i: usize = 0;
            while i < ns.len()
                invariant
                    i <= ns@.len(),
                    name.items() == ns@,
                    forall|k: int| 0 <= k < i ==> ns@[k]@ != tok@,
                decreases ns.len() - i,
            {
                if ns[i] == *tok {
                    assert(string_views(ns@)[i as int] == tok@);
                    return true;
                }
                i += 1;
            }
            proof {
                if string_views(ns@).contains(tok@) {
                    let k = choose|k: int| 0 <= k < string_views(ns@).len() && string_views(ns@)[k] == tok@;
                    assert(ns@[k]@ == tok@);
                }
            }
            false
        },
    }
}

fn find_subcommand_index(subs: &Vec<Subcommand>, tok: &String) -> (r: Option<usize>)
    ensures
        match r {
            Some(i) => find_subcommand(subs@, tok@, 0) == Some(i as int) && i < subs@.len(),
            None => find_subcommand(subs@, tok@, 0) is None,
        },
{
    let mut i: usize = 0;
    while i < subs.len()
        invariant
            i <= subs@.len(),
            find_subcommand(subs@, tok@, 0) == find_subcommand(subs@, tok@, i as int),
        decreases subs.len() - i,
    {
        if names_contain(&subs[i].name, tok) {
            return Some(i);
        }
        i += 1;
    }
    None
}

pub fn find_option_index(opts: &Vec<Opt>, tok: &String) -> (r: Option<usize>)
    ensures
        match r {
            Some(i) => find_option(opts@, tok@, 0) == Some(i as int) && i < opts@.len(),
            None => find_option(opts@, tok@, 0) is None,
        },
{
    let mut i: usize = 0;
    while i < opts.len()
        invariant
            i <= opts@.len(),
            find_option(opts@, tok@, 0) == find_option(opts@, tok@, i as int),
        decreases opts.len() - i,
    {
        if names_contain(&opts[i].name, tok) {
            return Some(i);
        }
        i += 1;
    }
    None
}

/// Whether the first argument of the option is mandatory.
fn requires_arg(opt: &Opt) -> (r: bool)
    ensures
        r == takes_required_arg(*opt),
{
    match &opt.args {
        Some(args) => {
            let list = args.as_slice();
            list.len() > 0 && !list[0].is_optional
        },
        None => false,
    }
}

/// Whether the first character of a string is `-`.
fn starts_with_dash(s: &String) -> (r: bool)
    ensures
        r == (s@.len() > 0 && s@[0] == '-'),
{
    let cs = chars_of(s.as_str());
    cs.len() > 0 && cs[0] == '-'
}

/// Whether a string is exactly `--`.
fn is_separator(s: &String) -> (r: bool)
    ensures
        r == (s@ == seq!['-', '-']),
{
    let cs = chars_of(s.as_str());
    let r = cs.len() == 2 && cs[0] == '-' && cs[1] == '-';
    proof {
        if r {
            assert(cs@ =~= seq!['-', '-']);
        }
    }
    r
}

/// Parse the command line against a spec to determine completion context.
pub fn parse(spec: &Spec, buffer: &str, cursor: usize) -> (r: ParseContext)
    ensures
        r@ == parse_spec(*spec, buffer@, cursor),
{
    let (tokens, partial) = tokenize(buffer, cursor);

    let mut subcommand_path: Vec<String> = Vec::new();
    let mut spec_path: Vec<usize> = Vec::new();
    let mut used_options: Vec<String> = Vec::new();
    let mut current_cmd: &Subcommand = spec;
    let mut arg_index: usize = 0;
    let mut filter_strategy = FilterStrategy::Default;
    let mut hit_separator = false;
    let mut pending_option_arg: Option<String> = None;

    let ghost toks = string_views(tokens@);
    if tokens.len() > 0 {
        subcommand_path.push(tokens[0].clone());
    }
    let ghost init = ParseState {
        subcommand_path: string_views(subcommand_path@),
        spec_path: seq![],
        used_options: seq![],
        cmd: *spec,
        arg_index: 0,
        filter_strategy: FilterStrategy::Default,
        hit_separator: false,
        pending: None,
    };
    proof {
        if tokens@.len() > 0 {
            assert(string_views(subcommand_path@) =~= seq![toks[0]]);
        } else {
            assert(string_views(subcommand_path@) =~= Seq::<Seq<char>>::empty());
        }
    }
    let ghost rest = if toks.len() > 0 { toks.drop_first() } else { Seq::<Seq<char>>::empty() };

    let mut i: usize = if tokens.len() > 0 { 1 } else { 0 };
    assert(rest.take(0) =~= Seq::<Seq<char>>::empty());
    assert(spec_path@ =~= Seq::<usize>::empty());
    assert(string_views(used_options@) =~= Seq::<Seq<char>>::empty());
    assert(parse_run(init, rest.take(0)) == init);
    while i < tokens.len()
        invariant
            tokens@.len() > 0 ==> 1 <= i <= tokens@.len(),
            tokens@.len() == 0 ==> i == 0,
            toks == string_views(tokens@),
            rest == (if toks.len() > 0 { toks.drop_first() } else { Seq::<Seq<char>>::empty() }),
            arg_index <= i,
            parse_run(init, rest.take(if i > 0 { i - 1 } else { 0 })) == (ParseState {
                subcommand_path: string_views(subcommand_path@),
                spec_path: spec_path@,
                used_options: string_views(used_options@),
                cmd: *current_cmd,
                arg_index: arg_index as nat,
                filter_strategy,
                hit_separator,
                pending: match pending_option_arg {
                    Some(s) => Some(s@),
                    None => None,
                },
            }),
        decreases tokens.len() - i,
    {
        let token = &tokens[i];
        let ghost k = (i - 1) as int;
        assert(rest.take(k + 1).drop_last() =~= rest.take(k));
        assert(rest.take(k + 1).last() == token@);
        if pending_option_arg.is_some() {
            pending_option_arg = None;
            i += 1;
            continue;
        }
        if is_separator(token) {
            hit_separator = true;
            i += 1;
            continue;
        }
        let mut matched_sub = false;
        match &current_cmd.subcommands {
            Some(subcmds) => match find_subcommand_index(subcmds, token) {
                Some(idx) => {
                    let ghost old_path = subcommand_path@;
                    subcommand_path.push(token.clone());
                    assert(string_views(subcommand_path@) =~= string_views(old_path).push(token@));
                    spec_path.push(idx);
                    current_cmd = &subcmds[idx];
                    used_options = Vec::new();
                    assert(string_views(used_options@) =~= Seq::<Seq<char>>::empty());
                    arg_index = 0;
                    match &current_cmd.filter_strategy {
                        Some(fs) => {
                            filter_strategy = *fs;
                        },
                        None => {},
                    }
                    matched_sub = true;
                },
                None => {},
            },
            None => {},
        }
        if matched_sub {
            i += 1;
            continue;
        }
        if starts_with_dash(token) {
            let mut matched_opt = false;
            match &current_cmd.options {
                Some(opts) => match find_option_index(opts, token) {
                    Some(j) => {
                        let ghost old_used = used_options@;
                        used_options.push(token.clone());
                        assert(string_views(used_options@) =~= string_views(old_used).push(token@));
                        if requires_arg(&opts[j]) {
                            pending_option_arg = Some(token.clone());
                        }
                        matched_opt = true;
                    },
                    None => {},
                },
                None => {},
            }
            if matched_opt {
                i += 1;
                continue;
            }
        }
        arg_index += 1;
        i += 1;
    }
    proof {
        let n = if i > 0 { i - 1 } else { 0 };
        assert(rest.take(n as int) =~= rest);
    }

    let expected = if hit_separator {
        ExpectedCompletion::Nothing
    } else {
        match pending_option_arg {
            Some(opt_name) => ExpectedCompletion::OptionArg { option_name: opt_name, arg_index: 0 },
            None => ExpectedCompletion::SubcommandOrOptionOrArg { arg_index },
        }
    };

    ParseContext {
        subcommand_path,
        spec_path,
        used_options,
        expected,
        current_token: partial,
        filter_strategy,
    }
}

} // verus!

verus! {

/// Tokenizing looks only at the text before the cursor.
pub proof fn law_tokenize_before_cursor(buffer: Seq<char>, cursor: usize)
    ensures
        tokenize_spec(buffer, cursor) == tokenize_spec(before_cursor(buffer, cursor), cursor),
{
    if cursor <= buffer.len() {
        assert(buffer.take(cursor as int).take(cursor as int) =~= buffer.take(cursor as int));
    }
}

} // verus!

verus! {

/// The node reached from `root` by following subcommand indices, if every
/// index is in range.
pub open spec fn node_at(root: Subcommand, path: Seq<usize>) -> Option<Subcommand>
    decreases path.len(),
{
    if path.len() == 0 {
        Some(root)
    } else {
        match node_at(root, path.drop_last()) {
            Some(n) => if n.subcommands is Some && path.last() < n.subcommands.unwrap()@.len() {
                Some(n.subcommands.unwrap()@[path.last() as int])
            } else {
                None
            },
            None => None,
        }
    }
}

/// The walk recorded in a parser state is a real path through the spec: it
/// leads to the current command, and each recorded subcommand word names the
/// node reached at that step.
pub open spec fn walk_matches(root: Subcommand, st: ParseState) -> bool {
    &&& node_at(root, st.spec_path) == Some(st.cmd)
    &&& st.subcommand_path.len() == st.spec_path.len() + 1
    &&& forall|k: int|
        0 <= k < st.spec_path.len() ==> (#[trigger] node_at(root, st.spec_path.take(k + 1)) matches Some(
            n,
        ) && n.name_views().contains(st.subcommand_path[k + 1]))
}

proof fn lemma_find_subcommand(subs: Seq<Subcommand>, tok: Seq<char>, from: int)
    ensures
        find_subcommand(subs, tok, from) matches Some(i) ==> 0 <= from <= i < subs.len()
            && subs[i].name_views().contains(tok),
    decreases subs.len() - from,
{
    if 0 <= from < subs.len() && !subs[from].name_views().contains(tok) {
        lemma_find_subcommand(subs, tok, from + 1);
    }
}

proof fn lemma_step_structure(root: Subcommand, st: ParseState, tok: Seq<char>)
    requires
        walk_matches(root, st),
    ensures
        walk_matches(root, parse_step(st, tok)),
        parse_step(st, tok).subcommand_path[0] == st.subcommand_path[0],
        forall|j: int|
            0 <= j < parse_step(st, tok).used_options.len() ==> (st.used_options.contains(
                #[trigger] parse_step(st, tok).used_options[j],
            ) || parse_step(st, tok).used_options[j] == tok),
{
    let nx = parse_step(st, tok);
    if st.pending is None && tok != seq!['-', '-'] && st.cmd.subcommands is Some && find_subcommand(
        st.cmd.subcommands.unwrap()@,
        tok,
        0,
    ) is Some {
        let subs = st.cmd.subcommands.unwrap()@;
        let idx = find_subcommand(subs, tok, 0).unwrap();
        lemma_find_subcommand(subs, tok, 0);
        assert(nx.spec_path.drop_last() =~= st.spec_path);
        assert(subs.len() == st.cmd.subcommands.unwrap().len());
        assert(nx.spec_path.last() as int == idx);
        assert(node_at(root, nx.spec_path) == Some(nx.cmd));
        assert forall|k: int| 0 <= k < nx.spec_path.len() implies (#[trigger] node_at(
            root,
            nx.spec_path.take(k + 1),
        ) matches Some(n) && n.name_views().contains(nx.subcommand_path[k + 1])) by {
            if k < st.spec_path.len() {
                assert(nx.spec_path.take(k + 1) =~= st.spec_path.take(k + 1));
                assert(node_at(root, st.spec_path.take(k + 1)) is Some);
            } else {
                assert(nx.spec_path.take(k + 1) =~= nx.spec_path);
            }
        }
    } else {
        assert forall|j: int| 0 <= j < nx.used_options.len() implies (st.used_options.contains(
            #[trigger] nx.used_options[j],
        ) || nx.used_options[j] == tok) by {
            if j < st.used_options.len() {
                assert(st.used_options[j] == nx.used_options[j]);
            }
        }
    }
}

proof fn lemma_run_structure(root: Subcommand, st: ParseState, toks: Seq<Seq<char>>)
    requires
        walk_matches(root, st),
        st.used_options.len() == 0,
    ensures
        walk_matches(root, parse_run(st, toks)),
        parse_run(st, toks).subcommand_path[0] == st.subcommand_path[0],
        forall|j: int|
            0 <= j < parse_run(st, toks).used_options.len() ==> toks.contains(
                #[trigger] parse_run(st, toks).used_options[j],
            ),
    decreases toks.len(),
{
    if toks.len() > 0 {
        let prev = parse_run(st, toks.drop_last());
        lemma_run_structure(root, st, toks.drop_last());
        lemma_step_structure(root, prev, toks.last());
        let nx = parse_run(st, toks);
        assert forall|j: int| 0 <= j < nx.used_options.len() implies toks.contains(
            #[trigger] nx.used_options[j],
        ) by {
            if nx.used_options[j] == toks.last() {
                assert(toks[toks.len() - 1] == nx.used_options[j]);
            } else {
                assert(prev.used_options.contains(nx.used_options[j]));
                let i = choose|i: int| 0 <= i < prev.used_options.len() && prev.used_options[i] == nx.used_options[j];
                assert(toks.drop_last().contains(prev.used_options[i]));
                let w = choose|w: int| 0 <= w < toks.drop_last().len() && toks.drop_last()[w] == prev.used_options[i];
                assert(toks[w] == nx.used_options[j]);
            }
        }
    }
}

/// The structure of a parse: the typed token is the text after the last
/// break before the cursor; the first word heads the subcommand path, which
/// holds one more word than the index path when any word was typed; the
/// index path leads through the spec, and each later word of the subcommand
/// path names the node reached at that step; every used option is one of the
/// typed words.
pub proof fn law_parse_structure(spec: Spec, buffer: Seq<char>, cursor: usize)
    ensures
        ({
            let toks = tokenize_spec(buffer, cursor).0;
            let c = parse_spec(spec, buffer, cursor);
            &&& c.current_token == tokenize_spec(buffer, cursor).1
            &&& c.subcommand_path.len() == c.spec_path.len() + (if toks.len() > 0 {
                1int
            } else {
                0int
            })
            &&& toks.len() > 0 ==> c.subcommand_path[0] == toks[0]
            &&& node_at(spec, c.spec_path) is Some
            &&& toks.len() > 0 ==> forall|k: int|
                0 <= k < c.spec_path.len() ==> (#[trigger] node_at(spec, c.spec_path.take(k + 1)) matches Some(
                    n,
                ) && n.name_views().contains(c.subcommand_path[k + 1]))
            &&& forall|j: int| 0 <= j < c.used_options.len() ==> toks.contains(#[trigger] c.used_options[j])
        }),
{
    let toks = tokenize_spec(buffer, cursor).0;
    if toks.len() > 0 {
        let init = ParseState {
            subcommand_path: seq![toks[0]],
            spec_path: seq![],
            used_options: seq![],
            cmd: spec,
            arg_index: 0,
            filter_strategy: FilterStrategy::Default,
            hit_separator: false,
            pending: None,
        };
        let rest = toks.drop_first();
        lemma_run_structure(spec, init, rest);
        let st = parse_run(init, rest);
        assert forall|j: int| 0 <= j < st.used_options.len() implies toks.contains(
            #[trigger] st.used_options[j],
        ) by {
            assert(rest.contains(st.used_options[j]));
            let w = choose|w: int| 0 <= w < rest.len() && rest[w] == st.used_options[j];
            assert(toks[w + 1] == st.used_options[j]);
        }
    }
}

/// Whether the tokenizer stands between tokens: no quote open, no escape
/// pending, nothing of a token read yet.
pub open spec fn between_tokens(st: TokState) -> bool {
    st.current.len() == 0 && !st.in_single_quote && !st.in_double_quote && !st.escape_next
}

proof fn lemma_tok_run_push(s: Seq<char>, c: char)
    ensures
        tok_run(s.push(c)) == tok_step(tok_run(s), c),
{
    assert(s.push(c).drop_last() =~= s);
}

proof fn lemma_double_quoted_text(p: Seq<char>, t: Seq<char>, k: int)
    requires
        between_tokens(tok_run(p)),
        0 <= k <= t.len(),
        forall|i: int| 0 <= i < t.len() ==> #[trigger] t[i] != '"' && t[i] != '\\',
    ensures
        tok_run(p.push('"') + t.take(k)) == (TokState {
            tokens: tok_run(p).tokens,
            current: t.take(k),
            in_single_quote: false,
            in_double_quote: true,
            escape_next: false,
        }),
    decreases k,
{
    if k == 0 {
        assert(p.push('"') + t.take(0) =~= p.push('"'));
        lemma_tok_run_push(p, '"');
        assert(t.take(0) =~= Seq::<char>::empty());
        assert(tok_run(p).current =~= t.take(0));
    } else {
        lemma_double_quoted_text(p, t, k - 1);
        let c = t[k - 1];
        assert(c != '"' && c != '\\');
        assert(p.push('"') + t.take(k) =~= (p.push('"') + t.take(k - 1)).push(t[k - 1]));
        lemma_tok_run_push(p.push('"') + t.take(k - 1), t[k - 1]);
        assert(t.take(k - 1).push(t[k - 1]) =~= t.take(k));
    }
}

/// Text in double quotes is taken literally: typed between tokens, a
/// double-quoted text without `"` or `\` (single quotes, spaces and tabs
/// included) followed by a blank is one completed token equal to the
/// text, and nothing is left partial.
pub proof fn law_double_quoted_text_is_one_token(p: Seq<char>, t: Seq<char>, blank: char)
    requires
        between_tokens(tok_run(p)),
        t.len() > 0,
        forall|i: int| 0 <= i < t.len() ==> #[trigger] t[i] != '"' && t[i] != '\\',
        blank == ' ' || blank == '\t',
        p.len() + t.len() + 3 <= usize::MAX,
    ensures
        ({
            let buf = p.push('"') + t + seq!['"', blank];
            tokenize_spec(buf, buf.len() as usize) == (tok_run(p).tokens.push(t), Seq::<char>::empty())
        }),
{
    let q = p.push('"') + t;
    lemma_double_quoted_text(p, t, t.len() as int);
    assert(t.take(t.len() as int) =~= t);
    assert(p.push('"') + t.take(t.len() as int) =~= q);
    lemma_tok_run_push(q, '"');
    lemma_tok_run_push(q.push('"'), blank);
    let buf = q.push('"').push(blank);
    assert(buf =~= p.push('"') + t + seq!['"', blank]);
    assert(before_cursor(buf, buf.len() as usize) =~= buf);
    assert(buf.last() == blank);
}

proof fn lemma_run_scope(st: ParseState, toks: Seq<Seq<char>>) -> (q: int)
    requires
        st.used_options.len() == 0,
        st.subcommand_path.len() > 0,
    ensures
        -1 <= q < toks.len(),
        parse_run(st, toks).subcommand_path.len() > 0,
        q == -1 ==> parse_run(st, toks).subcommand_path.last() == st.subcommand_path.last(),
        q >= 0 ==> toks[q] == parse_run(st, toks).subcommand_path.last(),
        forall|j: int|
            0 <= j < parse_run(st, toks).used_options.len() ==> toks.subrange(q + 1, toks.len() as int).contains(
                #[trigger] parse_run(st, toks).used_options[j],
            ),
    decreases toks.len(),
{
    if toks.len() == 0 {
        -1
    } else {
        let prev_toks = toks.drop_last();
        let q0 = lemma_run_scope(st, prev_toks);
        let prev = parse_run(st, prev_toks);
        let tok = toks.last();
        let n = toks.len() as int;
        let nx = parse_run(st, toks);
        assert(nx == parse_step(prev, tok));
        let descends = prev.pending is None && tok != seq!['-', '-'] && prev.cmd.subcommands is Some
            && find_subcommand(prev.cmd.subcommands.unwrap()@, tok, 0) is Some;
        if descends {
            assert(nx.used_options.len() == 0);
            assert(nx.subcommand_path.last() == tok);
            n - 1
        } else {
            assert(nx.subcommand_path == prev.subcommand_path);
            assert forall|j: int| 0 <= j < nx.used_options.len() implies toks.subrange(q0 + 1, n).contains(
                #[trigger] nx.used_options[j],
            ) by {
                let u = nx.used_options[j];
                if j < prev.used_options.len() {
                    assert(prev.used_options[j] == u);
                    let ps = prev_toks.subrange(q0 + 1, n - 1);
                    assert(ps.contains(u));
                    let w = choose|w: int| 0 <= w < ps.len() && #[trigger] ps[w] == u;
                    assert(toks.subrange(q0 + 1, n)[w] == u);
                } else {
                    assert(u == tok);
                    assert(toks.subrange(q0 + 1, n)[n - 1 - (q0 + 1)] == u);
                }
            }
            q0
        }
    }
}

/// Used options belong to the current subcommand's scope: when anything
/// was typed, the last word of the subcommand path was typed at some
/// position, and every used option is a word typed after it (descending
/// into a subcommand starts its used options afresh).
pub proof fn law_used_options_after_last_subcommand(spec: Spec, buffer: Seq<char>, cursor: usize)
    ensures
        ({
            let toks = tokenize_spec(buffer, cursor).0;
            let c = parse_spec(spec, buffer, cursor);
            toks.len() > 0 ==> exists|q: int|
                0 <= q < toks.len() && toks[q] == c.subcommand_path.last() && forall|j: int|
                    0 <= j < c.used_options.len() ==> toks.subrange(q + 1, toks.len() as int).contains(
                        #[trigger] c.used_options[j],
                    )
        }),
{
    let toks = tokenize_spec(buffer, cursor).0;
    if toks.len() > 0 {
        let init = ParseState {
            subcommand_path: seq![toks[0]],
            spec_path: seq![],
            used_options: seq![],
            cmd: spec,
            arg_index: 0,
            filter_strategy: FilterStrategy::Default,
            hit_separator: false,
            pending: None,
        };
        let rest = toks.drop_first();
        let q0 = lemma_run_scope(init, rest);
        let st = parse_run(init, rest);
        let q = q0 + 1;
        assert(toks[q] == st.subcommand_path.last());
        assert(toks.subrange(q + 1, toks.len() as int) =~= rest.subrange(q0 + 1, rest.len() as int));
    }
}

proof fn lemma_single_quoted_text(p: Seq<char>, t: Seq<char>, k: int)
    requires
        between_tokens(tok_run(p)),
        0 <= k <= t.len(),
        forall|i: int| 0 <= i < t.len() ==> #[trigger] t[i] != '\'',
    ensures
        tok_run(p.push('\'') + t.take(k)) == (TokState {
            tokens: tok_run(p).tokens,
            current: t.take(k),
            in_single_quote: true,
            in_double_quote: false,
            escape_next: false,
        }),
    decreases k,
{
    if k == 0 {
        assert(p.push('\'') + t.take(0) =~= p.push('\''));
        lemma_tok_run_push(p, '\'');
        assert(t.take(0) =~= Seq::<char>::empty());
        assert(tok_run(p).current =~= t.take(0));
    } else {
        lemma_single_quoted_text(p, t, k - 1);
        let c = t[k - 1];
        assert(c != '\'');
        assert(p.push('\'') + t.take(k) =~= (p.push('\'') + t.take(k - 1)).push(c));
        lemma_tok_run_push(p.push('\'') + t.take(k - 1), c);
        assert(t.take(k - 1).push(c) =~= t.take(k));
    }
}

/// Text in single quotes is taken literally: typed between tokens, a
/// single-quoted text without `'` (double quotes, backslashes, spaces and
/// tabs included) followed by a blank is one completed token equal to the
/// text, and nothing is left partial.
pub proof fn law_single_quoted_text_is_one_token(p: Seq<char>, t: Seq<char>, blank: char)
    requires
        between_tokens(tok_run(p)),
        t.len() > 0,
        forall|i: int| 0 <= i < t.len() ==> #[trigger] t[i] != '\'',
        blank == ' ' || blank == '\t',
        p.len() + t.len() + 3 <= usize::MAX,
    ensures
        ({
            let buf = p.push('\'') + t + seq!['\'', blank];
            tokenize_spec(buf, buf.len() as usize) == (tok_run(p).tokens.push(t), Seq::<char>::empty())
        }),
{
    let q = p.push('\'') + t;
    lemma_single_quoted_text(p, t, t.len() as int);
    assert(t.take(t.len() as int) =~= t);
    assert(p.push('\'') + t.take(t.len() as int) =~= q);
    lemma_tok_run_push(q, '\'');
    lemma_tok_run_push(q.push('\''), blank);
    let buf = q.push('\'').push(blank);
    assert(buf =~= p.push('\'') + t + seq!['\'', blank]);
    assert(before_cursor(buf, buf.len() as usize) =~= buf);
    assert(buf.last() == blank);
}

/// The start of a buffer is between tokens, and so is the point after a
/// blank typed outside quotes with no escape pending.
pub proof fn law_between_tokens_after_blank(p: Seq<char>, blank: char)
    requires
        blank == ' ' || blank == '\t',
        !tok_run(p).in_single_quote,
        !tok_run(p).in_double_quote,
        !tok_run(p).escape_next,
    ensures
        between_tokens(tok_run(Seq::<char>::empty())),
        between_tokens(tok_run(p.push(blank))),
{
    lemma_tok_run_push(p, blank);
}

} // verus!
