//! Suggestion resolver: given a parse context, collects all candidate
//! suggestions from the spec tree.
//!
//! Subcommands, options (minus those already used or excluded), persistent
//! options of the root and parent subcommands, positional argument
//! suggestions, template expansion over a directory listing, and
//! additional suggestions.
use vstd::prelude::*;
use crate::engine::parser::{ExpectedCompletion, ExpectedView, ParseContext, ParseView, find_option, find_option_index};
use crate::spec::types::{
    Arg, Generator, Opt, SingleOrArray, Spec, Subcommand, Suggestion, SuggestionOrString,
    SuggestionType, TemplateString, first_long_name, first_or_empty, name_primary, string_views,
};
use crate::paths::{path_is_absolute, path_join, path_join_text, path_parent, path_parent_text};
use crate::engine::generator::{ScriptRun, script_run, script_run_spec, script_suggestions, script_suggestions_spec};
use crate::text::{str_eq, chars_of, empty_string, find_char, owned, push_char, push_str, string_or};

verus! {

/// A resolved suggestion ready for matching and display.
#[derive(Debug, Clone)]
pub struct ResolvedSuggestion {
    /// Text used for fuzzy/prefix matching.
    pub match_text: String,
    /// Text displayed in the popup.
    pub display_text: String,
    /// Text inserted into the terminal on accept.
    pub insert_text: String,
    /// Description/help text.
    pub description: String,
    /// Type of suggestion (for icon selection).
    pub kind: SuggestionType,
    /// Priority for ranking (0..100).
    pub priority: u8,
    /// Whether this is a dangerous action.
    pub is_dangerous: bool,
}

pub struct ResolvedView {
    pub match_text: Seq<char>,
    pub display_text: Seq<char>,
    pub insert_text: Seq<char>,
    pub description: Seq<char>,
    pub kind: SuggestionType,
    pub priority: u8,
    pub is_dangerous: bool,
}

impl View for ResolvedSuggestion {
    type V = ResolvedView;

    open spec fn view(&self) -> ResolvedView {
        ResolvedView {
            match_text: self.match_text@,
            display_text: self.display_text@,
            insert_text: self.insert_text@,
            description: self.description@,
            kind: self.kind,
            priority: self.priority,
            is_dangerous: self.is_dangerous,
        }
    }
}

pub open spec fn resolved_views(s: Seq<ResolvedSuggestion>) -> Seq<ResolvedView> {
    s.map_values(|r: ResolvedSuggestion| r@)
}

/// One entry of a directory listing used for template expansion.
#[derive(Debug, Clone)]
pub struct DirEntryInfo {
    pub name: String,
    pub is_dir: bool,
}

pub struct DirEntryView {
    pub name: Seq<char>,
    pub is_dir: bool,
}

impl View for DirEntryInfo {
    type V = DirEntryView;

    open spec fn view(&self) -> DirEntryView {
        DirEntryView { name: self.name@, is_dir: self.is_dir }
    }
}

pub open spec fn entry_views(s: Seq<DirEntryInfo>) -> Seq<DirEntryView> {
    s.map_values(|e: DirEntryInfo| e@)
}

proof fn lemma_push_views(old: Seq<ResolvedSuggestion>, r: ResolvedSuggestion)
    ensures
        resolved_views(old.push(r)) =~= resolved_views(old).push(r@),
{
}

// ---------------------------------------------------------------------
// Paths
// ---------------------------------------------------------------------

/// The directory listed for filesystem templates: the directory part of a
/// partial path token (resolved against `cwd` when relative), else `cwd`.
pub open spec fn template_dir_spec(cwd: Seq<char>, partial: Seq<char>) -> Seq<char> {
    if partial.contains('/') {
        let d = path_parent_text(partial);
        if d.len() > 0 && d[0] == '/' {
            d
        } else {
            path_join_text(cwd, d)
        }
    } else {
        cwd
    }
}

/// The text put before each listed name when it is inserted.
pub open spec fn template_prefix_spec(partial: Seq<char>) -> Seq<char> {
    if partial.contains('/') {
        let d = path_parent_text(partial);
        if partial[0] == '/' {
            d
        } else if d.len() == 0 {
            seq![]
        } else {
            d.push('/')
        }
    } else {
        seq![]
    }
}

fn contains_slash(cs: &Vec<char>) -> (r: bool)
    ensures
        r == cs@.contains('/'),
{
    let slash = find_char(cs.as_slice(), '/', 0);
    proof {
        crate::text::lemma_find_from_bounds(cs@, '/', 0);
        if cs@.contains('/') {
            let k = choose|k: int| 0 <= k < cs@.len() && cs@[k] == '/';
            lemma_find_from_le(cs@, '/', 0, k);
        }
    }
    slash < cs.len()
}

/// The text put before each listed name when a template suggestion is inserted.
pub fn template_prefix(partial_token: &str) -> (r: String)
    ensures
        r@ == template_prefix_spec(partial_token@),
{
    let cs = chars_of(partial_token);
    if contains_slash(&cs) {
        let dir = path_parent(partial_token);
        if cs[0] == '/' {
            dir
        } else if dir.as_str().is_empty() {
            empty_string()
        } else {
            let mut p = dir;
            push_char(&mut p, '/');
            p
        }
    } else {
        empty_string()
    }
}

/// The directory whose listing filesystem templates expand over.
pub fn template_dir(cwd: &str, partial_token: &str) -> (r: String)
    ensures
        r@ == template_dir_spec(cwd@, partial_token@),
{
    let cs = chars_of(partial_token);
    if contains_slash(&cs) {
        let dir = path_parent(partial_token);
        if path_is_absolute(dir.as_str()) {
            dir
        } else {
            path_join(cwd, dir.as_str())
        }
    } else {
        owned(cwd)
    }
}

proof fn lemma_find_from_le(s: Seq<char>, c: char, from: int, k: int)
    requires
        0 <= from <= k < s.len(),
        s[k] == c,
    ensures
        crate::text::find_from(s, c, from) <= k,
    decreases k - from,
{
    if s[from] != c {
        lemma_find_from_le(s, c, from + 1, k);
    }
}

// ---------------------------------------------------------------------
// Single suggestions
// ---------------------------------------------------------------------

pub open spec fn opt_text(o: Option<String>, d: Seq<char>) -> Seq<char> {
    match o {
        Some(s) => s@,
        None => d,
    }
}

/// The resolved form of a spec suggestion.
pub open spec fn suggestion_view(s: Suggestion, default_kind: SuggestionType) -> ResolvedView {
    let primary = match s.name {
        Some(n) => first_or_empty(string_views(n.items())),
        None => seq![],
    };
    ResolvedView {
        match_text: primary,
        display_text: opt_text(s.display_name, primary),
        insert_text: opt_text(s.insert_value, primary),
        description: opt_text(s.description, seq![]),
        kind: match s.suggestion_type {
            Some(k) => k,
            None => default_kind,
        },
        priority: match s.priority {
            Some(p) => p,
            None => 50,
        },
        is_dangerous: s.is_dangerous,
    }
}

/// Convert a Suggestion spec object into a ResolvedSuggestion.
fn push_suggestion(
    s: &Suggestion,
    default_kind: SuggestionType,
    suggestions: &mut Vec<ResolvedSuggestion>,
)
    ensures
        resolved_views(final(suggestions)@) == resolved_views(old(suggestions)@).push(
            suggestion_view(*s, default_kind),
        ),
{
    let primary: &str = match &s.name {
        Some(n) => name_primary(n),
        None => {
            proof {
                reveal_strlit("");
            }
            ""
        },
    };
    let r = ResolvedSuggestion {
        match_text: owned(primary),
        display_text: string_or(&s.display_name, primary),
        insert_text: string_or(&s.insert_value, primary),
        description: string_or(&s.description, ""),
        kind: match s.suggestion_type {
            Some(k) => k,
            None => default_kind,
        },
        priority: match s.priority {
            Some(p) => p,
            None => 50,
        },
        is_dangerous: s.is_dangerous,
    };
    proof {
        reveal_strlit("");
        lemma_push_views(suggestions@, r);
        assert(r@.match_text == suggestion_view(*s, default_kind).match_text);
        assert(r@.display_text == suggestion_view(*s, default_kind).display_text);
        assert(r@.description == suggestion_view(*s, default_kind).description);
        assert(r@ == suggestion_view(*s, default_kind));
    }
    suggestions.push(r);
}

/// The resolved form of an option: long name preferred.
pub open spec fn option_view(opt: Opt) -> ResolvedView {
    let primary = match first_long_name(opt.name_views()) {
        Some(l) => l,
        None => first_or_empty(opt.name_views()),
    };
    ResolvedView {
        match_text: primary,
        display_text: opt_text(opt.display_name, primary),
        insert_text: opt_text(opt.insert_value, primary),
        description: opt_text(opt.description, seq![]),
        kind: SuggestionType::Option,
        priority: match opt.priority {
            Some(p) => p,
            None => 50,
        },
        is_dangerous: opt.is_dangerous,
    }
}

/// Convert an Opt into a ResolvedSuggestion.
fn push_option(opt: &Opt, suggestions: &mut Vec<ResolvedSuggestion>)
    ensures
        resolved_views(final(suggestions)@) == resolved_views(old(suggestions)@).push(option_view(*opt)),
{
    let primary = match opt.long_name() {
        Some(l) => l,
        None => opt.primary_name(),
    };
    let r = ResolvedSuggestion {
        match_text: owned(primary),
        display_text: string_or(&opt.display_name, primary),
        insert_text: string_or(&opt.insert_value, primary),
        description: string_or(&opt.description, ""),
        kind: SuggestionType::Option,
        priority: match opt.priority {
            Some(p) => p,
            None => 50,
        },
        is_dangerous: opt.is_dangerous,
    };
    proof {
        reveal_strlit("");
        lemma_push_views(suggestions@, r);
        assert(r@.match_text == option_view(*opt).match_text);
        assert(r@.display_text == option_view(*opt).display_text);
        assert(r@.insert_text == option_view(*opt).insert_text);
        assert(r@.description == option_view(*opt).description);
        assert(r@ == option_view(*opt));
    }
    suggestions.push(r);
}

/// The resolved form of a (visible, named) subcommand.
pub open spec fn subcommand_view(sc: Subcommand) -> ResolvedView {
    let primary = sc.name_views()[0];
    ResolvedView {
        match_text: primary,
        display_text: opt_text(sc.display_name, primary),
        insert_text: opt_text(sc.insert_value, primary),
        description: opt_text(sc.description, seq![]),
        kind: SuggestionType::Subcommand,
        priority: match sc.priority {
            Some(p) => p,
            None => 50,
        },
        is_dangerous: sc.is_dangerous,
    }
}

/// Suggestions for the subcommands of a list: hidden or nameless ones are skipped.
pub open spec fn subcommand_suggestions(subs: Seq<Subcommand>) -> Seq<ResolvedView>
    decreases subs.len(),
{
    if subs.len() == 0 {
        seq![]
    } else {
        let rest = subcommand_suggestions(subs.drop_last());
        let sc = subs.last();
        if sc.hidden || sc.name_views().len() == 0 {
            rest
        } else {
            rest.push(subcommand_view(sc))
        }
    }
}

fn push_subcommands(subs: &Vec<Subcommand>, suggestions: &mut Vec<ResolvedSuggestion>)
    ensures
        resolved_views(final(suggestions)@) == resolved_views(old(suggestions)@) + subcommand_suggestions(subs@),
{
    let mut i: usize = 0;
    assert(subs@.take(0) =~= Seq::<Subcommand>::empty());
    assert(resolved_views(suggestions@) =~= resolved_views(old(suggestions)@) + subcommand_suggestions(subs@.take(0)));
    while i < subs.len()
        invariant
            i <= subs@.len(),
            resolved_views(suggestions@) == resolved_views(old(suggestions)@) + subcommand_suggestions(
                subs@.take(i as int),
            ),
        decreases subs.len() - i,
    {
        let sc = &subs[i];
        assert(subs@.take(i + 1).drop_last() =~= subs@.take(i as int));
        let names = sc.names();
        if !sc.hidden && names.len() > 0 {
            let primary = names[0];
            assert(primary@ == sc.name_views()[0]) by {
                assert(crate::spec::types::str_views(names@)[0] == primary@);
            }
            let r = ResolvedSuggestion {
                match_text: owned(primary),
                display_text: string_or(&sc.display_name, primary),
                insert_text: string_or(&sc.insert_value, primary),
                description: string_or(&sc.description, ""),
                kind: SuggestionType::Subcommand,
                priority: match sc.priority {
                    Some(p) => p,
                    None => 50,
                },
                is_dangerous: sc.is_dangerous,
            };
            proof {
                reveal_strlit("");
                lemma_push_views(suggestions@, r);
                assert(r@.match_text == subcommand_view(*sc).match_text);
                assert(r@.display_text == subcommand_view(*sc).display_text);
                assert(r@.insert_text == subcommand_view(*sc).insert_text);
                assert(r@.description == subcommand_view(*sc).description);
                assert(r@ == subcommand_view(*sc));
                assert(crate::spec::types::str_views(names@).len() == names@.len());
            }
            suggestions.push(r);
        } else {
            assert(crate::spec::types::str_views(names@).len() == names@.len());
        }
        i += 1;
    }
    assert(subs@.take(subs@.len() as int) =~= subs@);
}

// ---------------------------------------------------------------------
// Options
// ---------------------------------------------------------------------

/// Whether any of `names` occurs in `used`.
pub open spec fn any_used(names: Seq<Seq<char>>, used: Seq<Seq<char>>) -> bool
    decreases names.len(),
{
    names.len() > 0 && (used.contains(names.last()) || any_used(names.drop_last(), used))
}

/// Whether an option is excluded by an already used one.
pub open spec fn excluded_by(opt: Opt, used: Seq<Seq<char>>) -> bool {
    match opt.exclusive_on {
        Some(ex) => any_used(string_views(ex@), used),
        None => false,
    }
}

/// Suggestions for the options of a subcommand: those not used yet, not
/// excluded by a used one, and not hidden.
pub open spec fn option_suggestions(opts: Seq<Opt>, used: Seq<Seq<char>>) -> Seq<ResolvedView>
    decreases opts.len(),
{
    if opts.len() == 0 {
        seq![]
    } else {
        let rest = option_suggestions(opts.drop_last(), used);
        let opt = opts.last();
        if any_used(opt.name_views(), used) || excluded_by(opt, used) || opt.hidden {
            rest
        } else {
            rest.push(option_view(opt))
        }
    }
}

/// Suggestions for the persistent options of a list that are not used yet.
pub open spec fn persistent_suggestions(opts: Seq<Opt>, used: Seq<Seq<char>>) -> Seq<ResolvedView>
    decreases opts.len(),
{
    if opts.len() == 0 {
        seq![]
    } else {
        let rest = persistent_suggestions(opts.drop_last(), used);
        let opt = opts.last();
        if opt.is_persistent && !any_used(opt.name_views(), used) {
            rest.push(option_view(opt))
        } else {
            rest
        }
    }
}

fn contains_string(list: &Vec<String>, s: &str) -> (r: bool)
    ensures
        r == string_views(list@).contains(s@),
{
    let mut i: usize = 0;
    while i < list.len()
        invariant
            i <= list@.len(),
            forall|k: int| 0 <= k < i ==> list@[k]@ != s@,
        decreases list.len() - i,
    {
        if str_eq(list[i].as_str(), s) {
            assert(string_views(list@)[i as int] == s@);
            return true;
        }
        i += 1;
    }
    proof {
        if string_views(list@).contains(s@) {
            let k = choose|k: int| 0 <= k < string_views(list@).len() && string_views(list@)[k] == s@;
            assert(list@[k]@ == s@);
        }
    }
    false
}


fn any_used_exec(names: &Vec<&str>, used: &Vec<String>) -> (r: bool)
    ensures
        r == any_used(crate::spec::types::str_views(names@), string_views(used@)),
{
    let mut i: usize = 0;
    let ghost nv = crate::spec::types::str_views(names@);
    assert(nv.take(0) =~= Seq::<Seq<char>>::empty());
    while i < names.len()
        invariant
            i <= names@.len(),
            nv == crate::spec::types::str_views(names@),
            !any_used(nv.take(i as int), string_views(used@)),
        decreases names.len() - i,
    {
        assert(nv.take(i + 1).drop_last() =~= nv.take(i as int));
        if contains_string(used, names[i]) {
            proof {
                assert(any_used(nv.take(i + 1), string_views(used@)));
                lemma_any_used_prefix(nv, string_views(used@), i + 1);
            }
            return true;
        }
        i += 1;
    }
    assert(nv.take(names@.len() as int) =~= nv);
    false
}

proof fn lemma_any_used_prefix(names: Seq<Seq<char>>, used: Seq<Seq<char>>, n: int)
    requires
        0 <= n <= names.len(),
        any_used(names.take(n), used),
    ensures
        any_used(names, used),
    decreases names.len() - n,
{
    if n < names.len() {
        assert(names.take(n + 1).drop_last() =~= names.take(n));
        lemma_any_used_prefix(names, used, n + 1);
    } else {
        assert(names.take(n) =~= names);
    }
}

fn any_string_used(names: &Vec<String>, used: &Vec<String>) -> (r: bool)
    ensures
        r == any_used(string_views(names@), string_views(used@)),
{
    let mut i: usize = 0;
    let ghost nv = string_views(names@);
    assert(nv.take(0) =~= Seq::<Seq<char>>::empty());
    while i < names.len()
        invariant
            i <= names@.len(),
            nv == string_views(names@),
            !any_used(nv.take(i as int), string_views(used@)),
        decreases names.len() - i,
    {
        assert(nv.take(i + 1).drop_last() =~= nv.take(i as int));
        if contains_string(used, names[i].as_str()) {
            proof {
                assert(any_used(nv.take(i + 1), string_views(used@)));
                lemma_any_used_prefix(nv, string_views(used@), i + 1);
            }
            return true;
        }
        i += 1;
    }
    assert(nv.take(names@.len() as int) =~= nv);
    false
}

/// Collect option suggestions, excluding already-used ones.
fn collect_options(cmd: &Subcommand, used: &Vec<String>, suggestions: &mut Vec<ResolvedSuggestion>)
    ensures
        resolved_views(final(suggestions)@) == resolved_views(old(suggestions)@) + match cmd.options {
            Some(opts) => option_suggestions(opts@, string_views(used@)),
            None => seq![],
        },
{
    match &cmd.options {
        Some(opts) => {
            let mut i: usize = 0;
            assert(opts@.take(0) =~= Seq::<Opt>::empty());
            assert(resolved_views(suggestions@) =~= resolved_views(old(suggestions)@)
                + option_suggestions(opts@.take(0), string_views(used@)));
            while i < opts.len()
                invariant
                    i <= opts@.len(),
                    resolved_views(suggestions@) == resolved_views(old(suggestions)@)
                        + option_suggestions(opts@.take(i as int), string_views(used@)),
                decreases opts.len() - i,
            {
                let opt = &opts[i];
                assert(opts@.take(i + 1).drop_last() =~= opts@.take(i as int));
                let names = opt.names();
                let already_used = any_used_exec(&names, used);
                let excluded = match &opt.exclusive_on {
                    Some(ex) => any_string_used(ex, used),
                    None => false,
                };
                if !already_used && !excluded && !opt.hidden {
                    push_option(opt, suggestions);
                }
                i += 1;
            }
            assert(opts@.take(opts@.len() as int) =~= opts@);
        },
        None => {
            assert(resolved_views(suggestions@) =~= resolved_views(old(suggestions)@) + Seq::<
                ResolvedView,
            >::empty());
        },
    }
}

fn collect_persistent(opts: &Vec<Opt>, used: &Vec<String>, suggestions: &mut Vec<ResolvedSuggestion>)
    ensures
        resolved_views(final(suggestions)@) == resolved_views(old(suggestions)@)
            + persistent_suggestions(opts@, string_views(used@)),
{
    let mut i: usize = 0;
    assert(opts@.take(0) =~= Seq::<Opt>::empty());
    assert(resolved_views(suggestions@) =~= resolved_views(old(suggestions)@)
        + persistent_suggestions(opts@.take(0), string_views(used@)));
    while i < opts.len()
        invariant
            i <= opts@.len(),
            resolved_views(suggestions@) == resolved_views(old(suggestions)@)
                + persistent_suggestions(opts@.take(i as int), string_views(used@)),
        decreases opts.len() - i,
    {
        let opt = &opts[i];
        assert(opts@.take(i + 1).drop_last() =~= opts@.take(i as int));
        if opt.is_persistent {
            let names = opt.names();
            if !any_used_exec(&names, used) {
                push_option(opt, suggestions);
            }
        }
        i += 1;
    }
    assert(opts@.take(opts@.len() as int) =~= opts@);
}


// ---------------------------------------------------------------------
// Arguments and templates
// ---------------------------------------------------------------------

/// Suggestions a template gives for one listed entry.
pub open spec fn entry_suggestions(t: TemplateString, e: DirEntryView, prefix: Seq<char>) -> Seq<ResolvedView> {
    match t {
        TemplateString::Folders => if e.is_dir {
            seq![ResolvedView {
                match_text: e.name,
                display_text: e.name.push('/'),
                insert_text: prefix + e.name.push('/'),
                description: seq![],
                kind: SuggestionType::Folder,
                priority: 50,
                is_dangerous: false,
            }]
        } else {
            seq![]
        },
        TemplateString::Filepaths => seq![ResolvedView {
            match_text: e.name,
            display_text: if e.is_dir { e.name.push('/') } else { e.name },
            insert_text: if e.is_dir { prefix + e.name.push('/') } else { prefix + e.name },
            description: seq![],
            kind: if e.is_dir { SuggestionType::Folder } else { SuggestionType::File },
            priority: 50,
            is_dangerous: false,
        }],
        _ => seq![],
    }
}

/// Suggestions a template gives over a listing.
pub open spec fn template_suggestions(t: TemplateString, entries: Seq<DirEntryView>, prefix: Seq<char>) -> Seq<ResolvedView>
    decreases entries.len(),
{
    if entries.len() == 0 {
        seq![]
    } else {
        template_suggestions(t, entries.drop_last(), prefix) + entry_suggestions(t, entries.last(), prefix)
    }
}

/// Suggestions of a template over a listing that may be unavailable.
pub open spec fn expand_spec(t: TemplateString, listing: Option<Seq<DirEntryView>>, prefix: Seq<char>) -> Seq<ResolvedView> {
    match listing {
        Some(es) => template_suggestions(t, es, prefix),
        None => seq![],
    }
}

/// Suggestions of a list of templates, in order.
pub open spec fn templates_spec(ts: Seq<TemplateString>, listing: Option<Seq<DirEntryView>>, prefix: Seq<char>) -> Seq<ResolvedView>
    decreases ts.len(),
{
    if ts.len() == 0 {
        seq![]
    } else {
        templates_spec(ts.drop_last(), listing, prefix) + expand_spec(ts.last(), listing, prefix)
    }
}

/// The output of the script of generator `k`, when it ran.
pub open spec fn output_at(outs: Seq<Option<Seq<char>>>, k: int) -> Option<Seq<char>> {
    if 0 <= k < outs.len() {
        outs[k]
    } else {
        None
    }
}

/// Suggestions of one generator: its templates over the listing, then the
/// suggestions of its script's output when it has a runnable script that
/// ran.
pub open spec fn generator_spec(
    g: Generator,
    listing: Option<Seq<DirEntryView>>,
    prefix: Seq<char>,
    out: Option<Seq<char>>,
) -> Seq<ResolvedView> {
    (match g.template {
        Some(t) => templates_spec(t.items(), listing, prefix),
        None => seq![],
    }) + match out {
        Some(o) => if script_run_spec(g) is Some {
            script_suggestions_spec(o, g)
        } else {
            seq![]
        },
        None => seq![],
    }
}

/// Suggestions of a list of generators, in order; `outs[k]` is the output
/// of the script of generator `k`.
pub open spec fn generators_spec(
    gs: Seq<Generator>,
    listing: Option<Seq<DirEntryView>>,
    prefix: Seq<char>,
    outs: Seq<Option<Seq<char>>>,
) -> Seq<ResolvedView>
    decreases gs.len(),
{
    if gs.len() == 0 {
        seq![]
    } else {
        generators_spec(gs.drop_last(), listing, prefix, outs) + generator_spec(
            gs.last(),
            listing,
            prefix,
            output_at(outs, gs.len() - 1),
        )
    }
}

/// Suggestions of a list of static suggestions with a default kind.
pub open spec fn statics_spec(ss: Seq<SuggestionOrString>, kind: SuggestionType) -> Seq<ResolvedView>
    decreases ss.len(),
{
    if ss.len() == 0 {
        seq![]
    } else {
        statics_spec(ss.drop_last(), kind).push(suggestion_view(ss.last().as_suggestion(), kind))
    }
}

/// All suggestions for a positional argument: its static suggestions,
/// then its templates, then those of its generators (`outs[k]` the output
/// of the script of generator `k`).
pub open spec fn arg_suggestions(
    arg: Arg,
    listing: Option<Seq<DirEntryView>>,
    prefix: Seq<char>,
    outs: Seq<Option<Seq<char>>>,
) -> Seq<ResolvedView> {
    (match arg.suggestions {
        Some(v) => statics_spec(v@, SuggestionType::Arg),
        None => seq![],
    }) + (match arg.template {
        Some(t) => templates_spec(t.items(), listing, prefix),
        None => seq![],
    }) + (match arg.generators {
        Some(g) => generators_spec(g.items(), listing, prefix, outs),
        None => seq![],
    })
}

/// The full suggestion for a static suggestion entry.
fn to_suggestion(s: &SuggestionOrString) -> (r: Suggestion)
    ensures
        forall|k: SuggestionType| #[trigger] suggestion_view(r, k) == suggestion_view(s.as_suggestion(), k),
{
    match s {
        SuggestionOrString::String(n) => Suggestion {
            name: Some(SingleOrArray::Single(n.clone())),
            display_name: None,
            insert_value: None,
            description: None,
            icon: None,
            priority: None,
            suggestion_type: None,
            hidden: false,
            is_dangerous: false,
        },
        SuggestionOrString::Suggestion(sg) => Suggestion {
            name: match &sg.name {
                Some(n) => Some(clone_names(n)),
                None => None,
            },
            display_name: sg.display_name.clone(),
            insert_value: sg.insert_value.clone(),
            description: sg.description.clone(),
            icon: sg.icon.clone(),
            priority: sg.priority,
            suggestion_type: sg.suggestion_type,
            hidden: sg.hidden,
            is_dangerous: sg.is_dangerous,
        },
    }
}

fn clone_string_vec(v: &Vec<String>) -> (r: Vec<String>)
    ensures
        r@ == v@,
{
    let mut r: Vec<String> = Vec::new();
    let mut i: usize = 0;
    while i < v.len()
        invariant
            i <= v@.len(),
            r@ == v@.take(i as int),
        decreases v.len() - i,
    {
        r.push(v[i].clone());
        assert(v@.take(i + 1) =~= v@.take(i as int).push(v@[i as int]));
        i += 1;
    }
    assert(v@.take(v@.len() as int) =~= v@);
    r
}

fn clone_names(n: &SingleOrArray<String>) -> (r: SingleOrArray<String>)
    ensures
        r.items() == n.items(),
{
    match n {
        SingleOrArray::Single(s) => {
            let c = s.clone();
            SingleOrArray::Single(c)
        },
        SingleOrArray::Array(v) => SingleOrArray::Array(clone_string_vec(v)),
    }
}

fn push_entry(t: TemplateString, e: &DirEntryInfo, prefix: &String, suggestions: &mut Vec<ResolvedSuggestion>)
    ensures
        resolved_views(final(suggestions)@) == resolved_views(old(suggestions)@) + entry_suggestions(
            t,
            e@,
            prefix@,
        ),
{
    let file_name = &e.name;
    let is_dir = e.is_dir;
    match t {
        TemplateString::Folders => {
            if is_dir {
                let mut display = file_name.clone();
                push_char(&mut display, '/');
                let mut insert = prefix.clone();
                push_str(&mut insert, file_name.as_str());
                push_char(&mut insert, '/');
                let r = ResolvedSuggestion {
                    match_text: file_name.clone(),
                    display_text: display,
                    insert_text: insert,
                    description: empty_string(),
                    kind: SuggestionType::Folder,
                    priority: 50,
                    is_dangerous: false,
                };
                proof {
                    lemma_push_views(suggestions@, r);
                    assert(r@.insert_text =~= prefix@ + e@.name.push('/'));
                }
                suggestions.push(r);
                assert(resolved_views(suggestions@) =~= resolved_views(old(suggestions)@) + seq![r@]);
            } else {
                assert(resolved_views(suggestions@) =~= resolved_views(old(suggestions)@) + Seq::<ResolvedView>::empty());
            }
        },
        TemplateString::Filepaths => {
            let kind = if is_dir {
                SuggestionType::Folder
            } else {
                SuggestionType::File
            };
            let mut display = file_name.clone();
            let mut insert = prefix.clone();
            push_str(&mut insert, file_name.as_str());
            if is_dir {
                push_char(&mut display, '/');
                push_char(&mut insert, '/');
            }
            let r = ResolvedSuggestion {
                match_text: file_name.clone(),
                display_text: display,
                insert_text: insert,
                description: empty_string(),
                kind,
                priority: 50,
                is_dangerous: false,
            };
            proof {
                lemma_push_views(suggestions@, r);
                if is_dir {
                    assert(r@.insert_text =~= prefix@ + e@.name.push('/'));
                }
            }
            suggestions.push(r);
            assert(resolved_views(suggestions@) =~= resolved_views(old(suggestions)@) + seq![r@]);
        },
        _ => {
            assert(resolved_views(suggestions@) =~= resolved_views(old(suggestions)@) + Seq::<ResolvedView>::empty());
        },
    }
}

/// Expand a template into filesystem suggestions over the listing.
fn expand_template(
    template: TemplateString,
    listing: &Option<Vec<DirEntryInfo>>,
    prefix: &String,
    suggestions: &mut Vec<ResolvedSuggestion>,
)
    ensures
        resolved_views(final(suggestions)@) == resolved_views(old(suggestions)@) + expand_spec(
            template,
            listing_view(*listing),
            prefix@,
        ),
{
    match listing {
        Some(entries) => {
            let mut i: usize = 0;
            let ghost ev = entry_views(entries@);
            assert(ev.take(0) =~= Seq::<DirEntryView>::empty());
            assert(resolved_views(suggestions@) =~= resolved_views(old(suggestions)@) + template_suggestions(template, ev.take(0), prefix@));
            while i < entries.len()
                invariant
                    i <= entries@.len(),
                    ev == entry_views(entries@),
                    resolved_views(suggestions@) == resolved_views(old(suggestions)@)
                        + template_suggestions(template, ev.take(i as int), prefix@),
                decreases entries.len() - i,
            {
                assert(ev.take(i + 1).drop_last() =~= ev.take(i as int));
                assert(ev.take(i + 1).last() == entries@[i as int]@);
                push_entry(template, &entries[i], prefix, suggestions);
                i += 1;
            }
            assert(ev.take(entries@.len() as int) =~= ev);
        },
        None => {
            assert(resolved_views(suggestions@) =~= resolved_views(old(suggestions)@) + Seq::<ResolvedView>::empty());
        },
    }
}

/// The model of an optional listing.
pub open spec fn listing_view(l: Option<Vec<DirEntryInfo>>) -> Option<Seq<DirEntryView>> {
    match l {
        Some(v) => Some(entry_views(v@)),
        None => None,
    }
}

fn expand_templates(
    ts: &SingleOrArray<TemplateString>,
    listing: &Option<Vec<DirEntryInfo>>,
    prefix: &String,
    suggestions: &mut Vec<ResolvedSuggestion>,
)
    ensures
        resolved_views(final(suggestions)@) == resolved_views(old(suggestions)@) + templates_spec(
            ts.items(),
            listing_view(*listing),
            prefix@,
        ),
{
    let list = ts.as_slice();
    let mut i: usize = 0;
    assert(list@.take(0) =~= Seq::<TemplateString>::empty());
    assert(resolved_views(suggestions@) =~= resolved_views(old(suggestions)@) + templates_spec(list@.take(0), listing_view(*listing), prefix@));
    while i < list.len()
        invariant
            i <= list@.len(),
            resolved_views(suggestions@) == resolved_views(old(suggestions)@) + templates_spec(
                list@.take(i as int),
                listing_view(*listing),
                prefix@,
            ),
        decreases list.len() - i,
    {
        assert(list@.take(i + 1).drop_last() =~= list@.take(i as int));
        expand_template(list[i], listing, prefix, suggestions);
        assert(resolved_views(suggestions@) =~= resolved_views(old(suggestions)@) + templates_spec(
            list@.take(i + 1),
            listing_view(*listing),
            prefix@,
        ));
        i += 1;
    }
    assert(list@.take(list@.len() as int) =~= list@);
}

/// The model of the outputs of the scripts of a list of generators.
pub open spec fn outputs_view(outs: Vec<Option<String>>) -> Seq<Option<Seq<char>>> {
    outs@.map_values(|o: Option<String>| match o {
        Some(s) => Some(s@),
        None => None,
    })
}

/// Appends suggestions in order.
fn append_suggestions(suggestions: &mut Vec<ResolvedSuggestion>, more: Vec<ResolvedSuggestion>)
    ensures
        resolved_views(final(suggestions)@) == resolved_views(old(suggestions)@) + resolved_views(more@),
{
    let ghost start = resolved_views(suggestions@);
    let mut rest = more;
    let ghost all = resolved_views(rest@);
    let n = rest.len();
    let mut i: usize = 0;
    assert(start + all.take(0) =~= start);
    assert(all.skip(0) =~= all);
    while rest.len() > 0
        invariant
            i + rest@.len() == n,
            n == all.len(),
            resolved_views(rest@) == all.skip(i as int),
            resolved_views(suggestions@) == start + all.take(i as int),
        decreases rest.len(),
    {
        let ghost r0 = rest@;
        let x = rest.remove(0);
        proof {
            assert(x == r0[0]);
            assert(resolved_views(r0)[0] == r0[0]@);
            assert(all.skip(i as int)[0] == all[i as int]);
            assert(x@ == all[i as int]);
            assert(rest@ =~= r0.drop_first());
            assert(resolved_views(rest@) =~= resolved_views(r0).drop_first());
            assert(resolved_views(rest@) =~= all.skip(i + 1));
        }
        let ghost before = suggestions@;
        suggestions.push(x);
        assert(resolved_views(suggestions@) =~= resolved_views(before).push(x@));
        assert(all.take(i + 1) =~= all.take(i as int).push(all[i as int]));
        i += 1;
    }
    assert(all.take(n as int) =~= all);
}

/// Collect suggestions for a positional argument.
fn collect_arg_suggestions(
    arg: &Arg,
    listing: &Option<Vec<DirEntryInfo>>,
    prefix: &String,
    outputs: &Vec<Option<String>>,
    suggestions: &mut Vec<ResolvedSuggestion>,
)
    ensures
        resolved_views(final(suggestions)@) == resolved_views(old(suggestions)@) + arg_suggestions(
            *arg,
            listing_view(*listing),
            prefix@,
            outputs_view(*outputs),
        ),
{
    let ghost s0 = resolved_views(suggestions@);
    match &arg.suggestions {
        Some(statics) => {
            let mut i: usize = 0;
            assert(statics@.take(0) =~= Seq::<SuggestionOrString>::empty());
            assert(resolved_views(suggestions@) =~= s0 + statics_spec(statics@.take(0), SuggestionType::Arg));
            while i < statics.len()
                invariant
                    i <= statics@.len(),
                    resolved_views(suggestions@) == s0 + statics_spec(statics@.take(i as int), SuggestionType::Arg),
                decreases statics.len() - i,
            {
                assert(statics@.take(i + 1).drop_last() =~= statics@.take(i as int));
                let suggestion = to_suggestion(&statics[i]);
                push_suggestion(&suggestion, SuggestionType::Arg, suggestions);
                assert(resolved_views(suggestions@) =~= s0 + statics_spec(statics@.take(i + 1), SuggestionType::Arg));
                i += 1;
            }
            assert(statics@.take(statics@.len() as int) =~= statics@);
        },
        None => {},
    }
    let ghost s1 = resolved_views(suggestions@);
    match &arg.template {
        Some(template) => {
            expand_templates(template, listing, prefix, suggestions);
        },
        None => {},
    }
    let ghost s2 = resolved_views(suggestions@);
    match &arg.generators {
        Some(generators) => {
            let gens = generators.as_slice();
            let ghost outs = outputs_view(*outputs);
            let mut i: usize = 0;
            assert(gens@.take(0) =~= Seq::<Generator>::empty());
            assert(resolved_views(suggestions@) =~= s2 + generators_spec(gens@.take(0), listing_view(*listing), prefix@, outs));
            while i < gens.len()
                invariant
                    i <= gens@.len(),
                    outs == outputs_view(*outputs),
                    resolved_views(suggestions@) == s2 + generators_spec(gens@.take(i as int), listing_view(*listing), prefix@, outs),
                decreases gens.len() - i,
            {
                assert(gens@.take(i + 1).drop_last() =~= gens@.take(i as int));
                let ghost before = resolved_views(suggestions@);
                let g = &gens[i];
                match &g.template {
                    Some(template) => {
                        expand_templates(template, listing, prefix, suggestions);
                    },
                    None => {},
                }
                let ghost mid = resolved_views(suggestions@);
                let out: Option<&String> = if i < outputs.len() {
                    match &outputs[i] {
                        Some(o) => Some(o),
                        None => None,
                    }
                } else {
                    None
                };
                let runnable = script_run(g).is_some();
                match out {
                    Some(o) => {
                        if runnable {
                            let more = script_suggestions(o.as_str(), g);
                            append_suggestions(suggestions, more);
                        } else {
                            assert(resolved_views(suggestions@) =~= mid + Seq::<ResolvedView>::empty());
                        }
                    },
                    None => {
                        assert(resolved_views(suggestions@) =~= mid + Seq::<ResolvedView>::empty());
                    },
                }
                proof {
                    assert(output_at(outs, i as int) == match out {
                        Some(o) => Some(o@),
                        None => None::<Seq<char>>,
                    });
                    assert(gens@.take(i + 1).last() == *g);
                }
                assert(resolved_views(suggestions@) =~= s2 + generators_spec(gens@.take(i + 1), listing_view(*listing), prefix@, outs));
                i += 1;
            }
            assert(gens@.take(gens@.len() as int) =~= gens@);
        },
        None => {},
    }
    assert(resolved_views(suggestions@) =~= s0 + arg_suggestions(*arg, listing_view(*listing), prefix@, outputs_view(*outputs)));
}


// ---------------------------------------------------------------------
// Walking the spec tree
// ---------------------------------------------------------------------

/// The child subcommand at `idx`, if there is one.
pub open spec fn child_at(node: Subcommand, idx: usize) -> Option<Subcommand> {
    match node.subcommands {
        Some(v) => if idx < v@.len() {
            Some(v@[idx as int])
        } else {
            None
        },
        None => None,
    }
}

/// The deepest subcommand reachable from `node` along `path`; a stale
/// index stops the walk.
pub open spec fn walk(node: Subcommand, path: Seq<usize>) -> Subcommand
    decreases path.len(),
{
    if path.len() == 0 {
        node
    } else {
        match child_at(node, path[0]) {
            Some(c) => walk(c, path.drop_first()),
            None => node,
        }
    }
}

fn child(node: &Subcommand, idx: usize) -> (r: Option<&Subcommand>)
    ensures
        match r {
            Some(c) => child_at(*node, idx) == Some(*c),
            None => child_at(*node, idx) is None,
        },
{
    match &node.subcommands {
        Some(v) => if idx < v.len() {
            Some(&v[idx])
        } else {
            None
        },
        None => None,
    }
}

/// Walk the spec tree using the spec_path indices.
/// Returns the deepest reachable subcommand (safe against stale indices).
fn walk_spec<'a>(spec: &'a Spec, path: &Vec<usize>) -> (r: &'a Subcommand)
    ensures
        *r == walk(*spec, path@),
{
    let mut current = spec;
    let mut i: usize = 0;
    assert(path@.skip(0) =~= path@);
    while i < path.len()
        invariant
            i <= path@.len(),
            walk(*spec, path@) == walk(*current, path@.skip(i as int)),
        decreases path.len() - i,
    {
        assert(path@.skip(i as int).drop_first() =~= path@.skip(i + 1));
        match child(current, path[i]) {
            Some(c) => {
                current = c;
            },
            None => {
                return current;
            },
        }
        i += 1;
    }
    current
}

/// Whether the walk stops at `c` with `rest` of the path left.
pub open spec fn walk_ends_at(c: Subcommand, rest: Seq<usize>) -> bool {
    rest.len() == 0 || child_at(c, rest[0]) is None
}

pub open spec fn persistent_of(c: Subcommand, used: Seq<Seq<char>>) -> Seq<ResolvedView> {
    match c.options {
        Some(o) => persistent_suggestions(o@, used),
        None => seq![],
    }
}

/// Persistent options of the intermediate subcommands on the path: every
/// reachable node below `node` except the deepest one.
pub open spec fn ancestor_persistent(node: Subcommand, path: Seq<usize>, used: Seq<Seq<char>>) -> Seq<ResolvedView>
    decreases path.len(),
{
    if path.len() == 0 {
        seq![]
    } else {
        match child_at(node, path[0]) {
            None => seq![],
            Some(c) => if walk_ends_at(c, path.drop_first()) {
                seq![]
            } else {
                persistent_of(c, used) + ancestor_persistent(c, path.drop_first(), used)
            },
        }
    }
}

/// The positional argument at `i`, or the last one when it is variadic.
pub open spec fn positional_arg(args: Seq<Arg>, i: usize) -> Option<Arg> {
    if i < args.len() {
        Some(args[i as int])
    } else if args.len() > 0 && args.last().is_variadic {
        Some(args.last())
    } else {
        None
    }
}

/// All candidate suggestions for a parse context. `listing` is the
/// directory listing used by filesystem templates (`None` when it could
/// not be read).
pub open spec fn resolve_spec(
    spec: Spec,
    ctx: ParseView,
    listing: Option<Seq<DirEntryView>>,
    outs: Seq<Option<Seq<char>>>,
) -> Seq<ResolvedView> {
    let cmd = walk(spec, ctx.spec_path);
    let prefix = template_prefix_spec(ctx.current_token);
    let used = ctx.used_options;
    match ctx.expected {
        ExpectedView::SubcommandOrOptionOrArg { arg_index } => general_spec(spec, ctx, arg_index, listing, outs),
        ExpectedView::OptionArg { option_name, arg_index } => match cmd.options {
            Some(o) => match find_option(o@, option_name, 0) {
                Some(j) => match o@[j].args {
                    Some(a) => if arg_index < a.items().len() {
                        arg_suggestions(a.items()[arg_index as int], listing, prefix, outs)
                    } else {
                        seq![]
                    },
                    None => seq![],
                },
                None => seq![],
            },
            None => seq![],
        },
        ExpectedView::Nothing => match cmd.args {
            Some(a) => if a.items().len() > 0 {
                arg_suggestions(a.items().last(), listing, prefix, outs)
            } else {
                seq![]
            },
            None => seq![],
        },
    }
}

fn collect_ancestors(spec: &Spec, path: &Vec<usize>, used: &Vec<String>, suggestions: &mut Vec<ResolvedSuggestion>)
    ensures
        resolved_views(final(suggestions)@) == resolved_views(old(suggestions)@) + ancestor_persistent(
            *spec,
            path@,
            string_views(used@),
        ),
{
    let ghost u = string_views(used@);
    let ghost s0 = resolved_views(suggestions@);
    let mut parent = spec;
    let mut j: usize = 0;
    assert(path@.skip(0) =~= path@);
    assert(resolved_views(suggestions@) =~= s0 + Seq::<ResolvedView>::empty());
    while j < path.len()
        invariant
            j <= path@.len(),
            u == string_views(used@),
            s0 == resolved_views(old(suggestions)@),
            s0 + ancestor_persistent(*spec, path@, u) == resolved_views(suggestions@)
                + ancestor_persistent(*parent, path@.skip(j as int), u),
        decreases path.len() - j,
    {
        let ghost rest = path@.skip(j as int);
        let ghost old_parent = *parent;
        assert(rest.drop_first() =~= path@.skip(j + 1));
        assert(rest[0] == path@[j as int]);
        match child(parent, path[j]) {
            Some(c) => {
                parent = c;
            },
            None => {
                assert(ancestor_persistent(old_parent, rest, u) =~= Seq::<ResolvedView>::empty());
                assert(resolved_views(suggestions@) + ancestor_persistent(old_parent, rest, u) =~= resolved_views(suggestions@));
                return;
            },
        }
        let ends = j + 1 == path.len() || child(parent, path[j + 1]).is_none();
        proof {
            if j + 1 < path@.len() {
                assert(path@.skip(j + 1)[0] == path@[j + 1]);
            }
            assert(ends == walk_ends_at(*parent, rest.drop_first()));
        }
        if ends {
            assert(ancestor_persistent(old_parent, rest, u) =~= Seq::<ResolvedView>::empty());
            assert(resolved_views(suggestions@) + ancestor_persistent(old_parent, rest, u) =~= resolved_views(suggestions@));
            return;
        }
        assert(ancestor_persistent(old_parent, rest, u) == persistent_of(*parent, u) + ancestor_persistent(*parent, path@.skip(j + 1), u));
        let ghost before = resolved_views(suggestions@);
        match &parent.options {
            Some(opts) => {
                collect_persistent(opts, used, suggestions);
            },
            None => {},
        }
        assert(before + (persistent_of(*parent, u) + ancestor_persistent(*parent, path@.skip(j + 1), u))
            =~= resolved_views(suggestions@) + ancestor_persistent(*parent, path@.skip(j + 1), u));
        j += 1;
    }
    assert(resolved_views(suggestions@) + ancestor_persistent(*parent, path@.skip(j as int), u) =~= resolved_views(suggestions@));
}

/// Suggestions where a subcommand, option or positional argument may come.
pub open spec fn general_spec(
    spec: Spec,
    ctx: ParseView,
    arg_index: usize,
    listing: Option<Seq<DirEntryView>>,
    outs: Seq<Option<Seq<char>>>,
) -> Seq<ResolvedView> {
    let cmd = walk(spec, ctx.spec_path);
    let prefix = template_prefix_spec(ctx.current_token);
    let used = ctx.used_options;
    (match cmd.subcommands {
        Some(s) => subcommand_suggestions(s@),
        None => seq![],
    }) + (match cmd.options {
        Some(o) => option_suggestions(o@, used),
        None => seq![],
    }) + (if ctx.spec_path.len() > 0 {
        persistent_of(spec, used) + ancestor_persistent(spec, ctx.spec_path, used)
    } else {
        seq![]
    }) + (match cmd.args {
        Some(a) => match positional_arg(a.items(), arg_index) {
            Some(arg) => arg_suggestions(arg, listing, prefix, outs),
            None => seq![],
        },
        None => seq![],
    }) + (match cmd.additional_suggestions {
        Some(v) => statics_spec(v@, SuggestionType::Special),
        None => seq![],
    })
}

#[verifier::rlimit(40)]
fn resolve_general(
    spec: &Spec,
    ctx: &ParseContext,
    arg_index: usize,
    listing: &Option<Vec<DirEntryInfo>>,
    outputs: &Vec<Option<String>>,
    prefix: &String,
) -> (r: Vec<ResolvedSuggestion>)
    requires
        prefix@ == template_prefix_spec(ctx.current_token@),
    ensures
        resolved_views(r@) == general_spec(*spec, ctx@, arg_index, listing_view(*listing), outputs_view(*outputs)),
{
    let current_cmd = walk_spec(spec, &ctx.spec_path);
    let mut suggestions: Vec<ResolvedSuggestion> = Vec::new();
    assert(resolved_views(suggestions@) =~= Seq::<ResolvedView>::empty());
    match &current_cmd.subcommands {
        Some(subcmds) => push_subcommands(subcmds, &mut suggestions),
        None => {},
    }
    let ghost a1 = resolved_views(suggestions@);
    collect_options(current_cmd, &ctx.used_options, &mut suggestions);
    let ghost a2 = resolved_views(suggestions@);
    if ctx.spec_path.len() > 0 {
        match &spec.options {
            Some(opts) => collect_persistent(opts, &ctx.used_options, &mut suggestions),
            None => {},
        }
        collect_ancestors(spec, &ctx.spec_path, &ctx.used_options, &mut suggestions);
    }
    let ghost a3 = resolved_views(suggestions@);
    match &current_cmd.args {
        Some(args) => {
            let arg_list = args.as_slice();
            if arg_index < arg_list.len() {
                collect_arg_suggestions(&arg_list[arg_index], listing, prefix, outputs, &mut suggestions);
            } else if arg_list.len() > 0 && arg_list[arg_list.len() - 1].is_variadic {
                collect_arg_suggestions(&arg_list[arg_list.len() - 1], listing, prefix, outputs, &mut suggestions);
            }
        },
        None => {},
    }
    let ghost a4 = resolved_views(suggestions@);
    match &current_cmd.additional_suggestions {
        Some(additional) => {
            let mut i: usize = 0;
            assert(additional@.take(0) =~= Seq::<SuggestionOrString>::empty());
            assert(resolved_views(suggestions@) =~= a4 + statics_spec(additional@.take(0), SuggestionType::Special));
            while i < additional.len()
                invariant
                    i <= additional@.len(),
                    resolved_views(suggestions@) == a4 + statics_spec(additional@.take(i as int), SuggestionType::Special),
                decreases additional.len() - i,
            {
                assert(additional@.take(i + 1).drop_last() =~= additional@.take(i as int));
                let suggestion = to_suggestion(&additional[i]);
                push_suggestion(&suggestion, SuggestionType::Special, &mut suggestions);
                assert(resolved_views(suggestions@) =~= a4 + statics_spec(additional@.take(i + 1), SuggestionType::Special));
                i += 1;
            }
            assert(additional@.take(additional@.len() as int) =~= additional@);
        },
        None => {},
    }
    assert(resolved_views(suggestions@) =~= general_spec(*spec, ctx@, arg_index, listing_view(*listing), outputs_view(*outputs)));
    suggestions
}

/// Resolve all candidate suggestions for a given parse context.
///
/// `listing` holds the entries of the directory named by
/// [`template_dir`] for the context's current token (`None` when it
/// cannot be read); filesystem templates expand over it.
pub fn resolve(
    spec: &Spec,
    ctx: &ParseContext,
    listing: &Option<Vec<DirEntryInfo>>,
    outputs: &Vec<Option<String>>,
) -> (r: Vec<ResolvedSuggestion>)
    ensures
        resolved_views(r@) == resolve_spec(*spec, ctx@, listing_view(*listing), outputs_view(*outputs)),
{
    let prefix = template_prefix(ctx.current_token.as_str());
    match &ctx.expected {
        ExpectedCompletion::SubcommandOrOptionOrArg { arg_index } => {
            resolve_general(spec, ctx, *arg_index, listing, outputs, &prefix)
        },
        ExpectedCompletion::OptionArg { option_name, arg_index } => {
            let current_cmd = walk_spec(spec, &ctx.spec_path);
            let mut suggestions: Vec<ResolvedSuggestion> = Vec::new();
            assert(resolved_views(suggestions@) =~= Seq::<ResolvedView>::empty());
            match &current_cmd.options {
                Some(opts) => match find_option_index(opts, option_name) {
                    Some(j) => match &opts[j].args {
                        Some(args) => {
                            let arg_list = args.as_slice();
                            if *arg_index < arg_list.len() {
                                collect_arg_suggestions(&arg_list[*arg_index], listing, &prefix, outputs, &mut suggestions);
                            }
                        },
                        None => {},
                    },
                    None => {},
                },
                None => {},
            }
            assert(resolved_views(suggestions@) =~= resolve_spec(*spec, ctx@, listing_view(*listing), outputs_view(*outputs)));
            suggestions
        },
        ExpectedCompletion::Nothing => {
            let current_cmd = walk_spec(spec, &ctx.spec_path);
            let mut suggestions: Vec<ResolvedSuggestion> = Vec::new();
            assert(resolved_views(suggestions@) =~= Seq::<ResolvedView>::empty());
            match &current_cmd.args {
                Some(args) => {
                    let arg_list = args.as_slice();
                    if arg_list.len() > 0 {
                        collect_arg_suggestions(&arg_list[arg_list.len() - 1], listing, &prefix, outputs, &mut suggestions);
                    }
                },
                None => {},
            }
            assert(resolved_views(suggestions@) =~= resolve_spec(*spec, ctx@, listing_view(*listing), outputs_view(*outputs)));
            suggestions
        },
    }
}

} // verus!

verus! {

/// Whether `part` stands, in order and uninterrupted, inside `whole`.
pub open spec fn contains_run(whole: Seq<ResolvedView>, part: Seq<ResolvedView>) -> bool {
    exists|k: int| 0 <= k && k + part.len() <= whole.len() && #[trigger] whole.subrange(k, k + part.len()) == part
}

/// Where a positional argument is expected, the suggestions of that
/// argument are offered, in order: the declared argument at the index, or,
/// once the index is past the declared arguments, the last one when it is
/// variadic (it takes every further position).
pub proof fn law_positional_argument_offered(
    spec: Spec,
    ctx: ParseView,
    listing: Option<Seq<DirEntryView>>,
    outs: Seq<Option<Seq<char>>>,
)
    ensures
        ({
            let cmd = walk(spec, ctx.spec_path);
            let prefix = template_prefix_spec(ctx.current_token);
            let r = resolve_spec(spec, ctx, listing, outs);
            ctx.expected matches ExpectedView::SubcommandOrOptionOrArg { arg_index } ==> (cmd.args matches Some(
                a,
            ) ==> {
                &&& arg_index < a.items().len() ==> contains_run(
                    r,
                    arg_suggestions(a.items()[arg_index as int], listing, prefix, outs),
                )
                &&& arg_index >= a.items().len() && a.items().len() > 0 && a.items().last().is_variadic
                    ==> contains_run(r, arg_suggestions(a.items().last(), listing, prefix, outs))
            })
        }),
{
    let cmd = walk(spec, ctx.spec_path);
    let prefix = template_prefix_spec(ctx.current_token);
    let used = ctx.used_options;
    if let ExpectedView::SubcommandOrOptionOrArg { arg_index } = ctx.expected {
        if let Some(a) = cmd.args {
            let r = resolve_spec(spec, ctx, listing, outs);
            let head = (match cmd.subcommands {
                Some(s) => subcommand_suggestions(s@),
                None => seq![],
            }) + (match cmd.options {
                Some(o) => option_suggestions(o@, used),
                None => seq![],
            }) + (if ctx.spec_path.len() > 0 {
                persistent_of(spec, used) + ancestor_persistent(spec, ctx.spec_path, used)
            } else {
                seq![]
            });
            let tail = match cmd.additional_suggestions {
                Some(v) => statics_spec(v@, SuggestionType::Special),
                None => seq![],
            };
            if let Some(arg) = positional_arg(a.items(), arg_index) {
                let mid = arg_suggestions(arg, listing, prefix, outs);
                assert(r == head + mid + tail);
                let k = head.len() as int;
                assert(r.subrange(k, k + mid.len()) =~= mid);
            }
        }
    }
}

/// Whether `s` is the suggestion of an option of the list that is not
/// hidden, none of whose names was used, and that no used option excludes.
pub open spec fn offered_option(opts: Seq<Opt>, used: Seq<Seq<char>>, s: ResolvedView) -> bool {
    exists|j: int|
        #![trigger opts[j]]
        0 <= j < opts.len() && !any_used(opts[j].name_views(), used) && !excluded_by(opts[j], used) && !opts[j].hidden
            && s == option_view(opts[j])
}

/// Every option suggested comes from an option of the list that is not
/// hidden, none of whose names was used already, and that no used option
/// excludes: hidden, used and excluded options are never suggested.
pub proof fn law_used_options_not_suggested(opts: Seq<Opt>, used: Seq<Seq<char>>)
    ensures
        forall|k: int|
            0 <= k < option_suggestions(opts, used).len() ==> offered_option(
                opts,
                used,
                #[trigger] option_suggestions(opts, used)[k],
            ),
    decreases opts.len(),
{
    if opts.len() > 0 {
        let t = opts.drop_last();
        law_used_options_not_suggested(t, used);
        let rest = option_suggestions(t, used);
        assert forall|k: int| 0 <= k < option_suggestions(opts, used).len() implies offered_option(
            opts,
            used,
            #[trigger] option_suggestions(opts, used)[k],
        ) by {
            if k < rest.len() {
                assert(offered_option(t, used, rest[k]));
                let j = choose|j: int|
                    #![trigger t[j]]
                    0 <= j < t.len() && !any_used(t[j].name_views(), used) && !excluded_by(t[j], used) && !t[j].hidden
                        && rest[k] == option_view(t[j]);
                assert(opts[j] == t[j]);
                assert(option_suggestions(opts, used)[k] == rest[k]);
            } else {
                assert(opts[opts.len() - 1] == opts.last());
            }
        }
    }
}

} // verus!

verus! {

/// The argument whose suggestions a context asks for: the positional
/// argument at the cursor, the argument of the option being given a value,
/// or, after `--`, the last argument.
pub open spec fn target_arg(spec: Spec, ctx: ParseView) -> Option<Arg> {
    let cmd = walk(spec, ctx.spec_path);
    match ctx.expected {
        ExpectedView::SubcommandOrOptionOrArg { arg_index } => match cmd.args {
            Some(a) => positional_arg(a.items(), arg_index),
            None => None,
        },
        ExpectedView::OptionArg { option_name, arg_index } => match cmd.options {
            Some(o) => match find_option(o@, option_name, 0) {
                Some(j) => match o@[j].args {
                    Some(a) => if arg_index < a.items().len() {
                        Some(a.items()[arg_index as int])
                    } else {
                        None
                    },
                    None => None,
                },
                None => None,
            },
            None => None,
        },
        ExpectedView::Nothing => match cmd.args {
            Some(a) => if a.items().len() > 0 {
                Some(a.items().last())
            } else {
                None
            },
            None => None,
        },
    }
}

/// The generators of the argument a context asks for.
pub open spec fn target_generators(spec: Spec, ctx: ParseView) -> Seq<Generator> {
    match target_arg(spec, ctx) {
        Some(arg) => match arg.generators {
            Some(g) => g.items(),
            None => seq![],
        },
        None => seq![],
    }
}

fn runs_of(gens: &[Generator]) -> (r: Vec<Option<ScriptRun>>)
    ensures
        r@.len() == gens@.len(),
        forall|k: int| 0 <= k < gens@.len() ==> #[trigger] script_run_spec(gens@[k]) == match r@[k] {
            Some(x) => Some(x@),
            None => None,
        },
{
    let mut r: Vec<Option<ScriptRun>> = Vec::new();
    let mut i: usize = 0;
    while i < gens.len()
        invariant
            i <= gens@.len(),
            r@.len() == i,
            forall|k: int| 0 <= k < i ==> #[trigger] script_run_spec(gens@[k]) == match r@[k] {
                Some(x) => Some(x@),
                None => None,
            },
        decreases gens.len() - i,
    {
        r.push(script_run(&gens[i]));
        i += 1;
    }
    r
}

/// The commands to run for the generators of the argument a context asks
/// for, one per generator in order (`None` where a generator has no
/// runnable script). Their outputs, in the same order, are what
/// [`resolve`] takes.
pub fn generator_runs(spec: &Spec, ctx: &ParseContext) -> (r: Vec<Option<ScriptRun>>)
    ensures
        r@.len() == target_generators(*spec, ctx@).len(),
        forall|k: int|
            0 <= k < r@.len() ==> #[trigger] script_run_spec(target_generators(*spec, ctx@)[k]) == match r@[k] {
                Some(x) => Some(x@),
                None => None,
            },
{
    let current_cmd = walk_spec(spec, &ctx.spec_path);
    let arg: Option<&Arg> = match &ctx.expected {
        ExpectedCompletion::SubcommandOrOptionOrArg { arg_index } => match &current_cmd.args {
            Some(args) => {
                let arg_list = args.as_slice();
                if *arg_index < arg_list.len() {
                    Some(&arg_list[*arg_index])
                } else if arg_list.len() > 0 && arg_list[arg_list.len() - 1].is_variadic {
                    Some(&arg_list[arg_list.len() - 1])
                } else {
                    None
                }
            },
            None => None,
        },
        ExpectedCompletion::OptionArg { option_name, arg_index } => match &current_cmd.options {
            Some(opts) => match find_option_index(opts, option_name) {
                Some(j) => match &opts[j].args {
                    Some(args) => {
                        let arg_list = args.as_slice();
                        if *arg_index < arg_list.len() {
                            Some(&arg_list[*arg_index])
                        } else {
                            None
                        }
                    },
                    None => None,
                },
                None => None,
            },
            None => None,
        },
        ExpectedCompletion::Nothing => match &current_cmd.args {
            Some(args) => {
                let arg_list = args.as_slice();
                if arg_list.len() > 0 {
                    Some(&arg_list[arg_list.len() - 1])
                } else {
                    None
                }
            },
            None => None,
        },
    };
    assert(match arg {
        Some(a) => target_arg(*spec, ctx@) == Some(*a),
        None => target_arg(*spec, ctx@) is None,
    });
    match arg {
        Some(a) => match &a.generators {
            Some(g) => runs_of(g.as_slice()),
            None => Vec::new(),
        },
        None => Vec::new(),
    }
}

} // verus!
