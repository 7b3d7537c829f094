//! How the daemon answers a request.
//!
//! The socket, the connections and the shutdown signal are handled around
//! this library; a request read from a connection is answered here.
use vstd::prelude::*;
use crate::engine::matcher::{ScoredSuggestion, ScoredView, match_spec, match_suggestions, scored_views};
use crate::engine::parser::{parse, parse_spec, tokenize, tokenize_spec};
use crate::engine::resolver::{
    DirEntryInfo, DirEntryView, ResolvedSuggestion, ResolvedView, generator_runs, listing_view, outputs_view, resolve,
    resolve_spec, resolved_views, target_generators, template_dir, template_dir_spec,
};
use crate::ipc::protocol::{CompletionItem, ItemView, Request, Response, item_views};
use crate::render::overlay::{PaletteView, cols_fit, fits_terminal, opt_text_view, palette_of, popup_spec, render_popup};
use crate::engine::generator::{ScriptRun, ScriptRunView, script_run_spec};
use crate::render::theme::{Theme, default_theme};
use crate::spec::loader::SpecIndex;
use crate::spec::types::{Generator, Spec};

verus! {

/// Most items sent to the shell hook (the popup shows fewer).
pub const MAX_ITEMS: usize = 50;

/// The item shown for a ranked suggestion.
pub open spec fn item_of(s: ScoredView) -> ItemView {
    ItemView {
        display: s.suggestion.display_text,
        insert: s.suggestion.insert_text,
        description: s.suggestion.description,
        kind: s.suggestion.kind,
        match_indices: s.match_indices,
        is_dangerous: s.suggestion.is_dangerous,
    }
}

/// The items of the best ranked suggestions, at most [`MAX_ITEMS`].
pub open spec fn top_items(scored: Seq<ScoredView>) -> Seq<ItemView> {
    let n = if scored.len() < MAX_ITEMS { scored.len() as int } else { MAX_ITEMS as int };
    scored.take(n).map_values(|s: ScoredView| item_of(s))
}

/// Whether every candidate's match text is within what the matcher takes
/// (`u32::MAX` characters).
pub open spec fn texts_fit(cands: Seq<ResolvedView>) -> bool {
    forall|k: int| 0 <= k < cands.len() ==> #[trigger] cands[k].match_text.len() <= u32::MAX
}

/// The directory whose listing filesystem suggestions draw on, for a
/// command line typed in `cwd`.
pub open spec fn completion_dir_spec(buffer: Seq<char>, cursor: usize, cwd: Seq<char>) -> Seq<char> {
    template_dir_spec(cwd, tokenize_spec(buffer, cursor).1)
}

/// What a completion request comes to: `None` when there is nothing to
/// show (no command, no spec for it, no candidates, or none matching),
/// else the items to show and the query they were filtered on. `outs`
/// are the outputs of the generator scripts of [`completion_runs`].
pub open spec fn complete_spec(
    specs: Map<Seq<char>, Spec>,
    buffer: Seq<char>,
    cursor: usize,
    listing: Option<Seq<DirEntryView>>,
    outs: Seq<Option<Seq<char>>>,
) -> Option<(Seq<ItemView>, Seq<char>)> {
    let toks = tokenize_spec(buffer, cursor).0;
    if toks.len() == 0 || !specs.contains_key(toks[0]) {
        None
    } else {
        let spec = specs[toks[0]];
        let ctx = parse_spec(spec, buffer, cursor);
        let cands = resolve_spec(spec, ctx, listing, outs);
        if cands.len() == 0 || (ctx.current_token.len() > 0 && !texts_fit(cands)) {
            None
        } else {
            let scored = match_spec(ctx.current_token, cands, ctx.filter_strategy);
            if scored.len() == 0 {
                None
            } else {
                Some((top_items(scored), ctx.current_token))
            }
        }
    }
}

/// Whether `r` answers a completion request as `outcome` says, with the
/// popup drawn by some palette of the default theme.
pub open spec fn completion_response(r: Response, outcome: Option<(Seq<ItemView>, Seq<char>)>, cols: Option<u16>) -> bool {
    match outcome {
        None => r is Empty,
        Some((items, query)) => r matches Response::Completions { items: it, selected, query: q, rendered_popup }
            && item_views(it@) == items && selected == 0 && q@ == query && exists|p: PaletteView|
            palette_of(p, default_theme()) && opt_text_view(rendered_popup) == popup_spec(p, items, 0, cols),
    }
}

/// The directory to list for filesystem suggestions of a command line
/// typed in `cwd` (its listing is handed to [`handle_complete`]).
pub fn completion_dir(buffer: &str, cursor: usize, cwd: &str) -> (r: String)
    ensures
        r@ == completion_dir_spec(buffer@, cursor, cwd@),
{
    let (_tokens, partial) = tokenize(buffer, cursor);
    template_dir(cwd, partial.as_str())
}

fn copy_string(s: &String) -> (r: String)
    ensures
        r@ == s@,
{
    s.clone()
}

/// The item shown for a ranked suggestion.
fn to_item(s: &ScoredSuggestion) -> (r: CompletionItem)
    ensures
        r@ == item_of(s@),
{
    CompletionItem {
        display: copy_string(&s.suggestion.display_text),
        insert: copy_string(&s.suggestion.insert_text),
        description: copy_string(&s.suggestion.description),
        kind: s.suggestion.kind,
        match_indices: s.match_indices.clone(),
        is_dangerous: s.suggestion.is_dangerous,
    }
}

/// Whether every suggestion's match text fits the matcher.
fn all_texts_fit(cands: &Vec<ResolvedSuggestion>) -> (r: bool)
    ensures
        r == texts_fit(resolved_views(cands@)),
{
    let mut i: usize = 0;
    while i < cands.len()
        invariant
            i <= cands@.len(),
            forall|k: int| 0 <= k < i ==> #[trigger] cands@[k].match_text@.len() <= u32::MAX,
        decreases cands.len() - i,
    {
        let n = crate::text::chars_of(cands[i].match_text.as_str()).len();
        if n > 4294967295usize {
            assert(resolved_views(cands@)[i as int].match_text.len() > u32::MAX);
            return false;
        }
        i += 1;
    }
    proof {
        assert forall|k: int| 0 <= k < cands@.len() implies #[trigger] resolved_views(cands@)[k].match_text.len() <= u32::MAX by {
            assert(resolved_views(cands@)[k] == cands@[k]@);
        }
    }
    true
}

/// The commands of the generator scripts a completion request needs, in
/// order: those of the generators of the argument at the cursor (`None`
/// where a generator has no runnable script). Their outputs are handed to
/// [`complete_items`] in the same order.
pub open spec fn completion_runs_spec(specs: Map<Seq<char>, Spec>, buffer: Seq<char>, cursor: usize) -> Seq<
    Option<ScriptRunView>,
> {
    let toks = tokenize_spec(buffer, cursor).0;
    if toks.len() == 0 || !specs.contains_key(toks[0]) {
        seq![]
    } else {
        let spec = specs[toks[0]];
        target_generators(spec, parse_spec(spec, buffer, cursor)).map_values(|g: Generator| script_run_spec(g))
    }
}

/// The commands to run for a completion request; see [`completion_runs_spec`].
pub fn completion_runs(index: &SpecIndex, buffer: &str, cursor: usize) -> (r: Vec<Option<ScriptRun>>)
    requires
        index.wf(),
    ensures
        r@.map_values(|x: Option<ScriptRun>| match x {
            Some(v) => Some(v@),
            None => None,
        }) == completion_runs_spec(index.specs_map(), buffer@, cursor),
{
    let (tokens, _partial) = tokenize(buffer, cursor);
    if tokens.len() == 0 {
        let r: Vec<Option<ScriptRun>> = Vec::new();
        assert(r@.map_values(|x: Option<ScriptRun>| match x {
            Some(v) => Some(v@),
            None => None,
        }) =~= Seq::<Option<ScriptRunView>>::empty());
        return r;
    }
    match index.get(tokens[0].as_str()) {
        Some(spec) => {
            let ctx = parse(spec, buffer, cursor);
            let r = generator_runs(spec, &ctx);
            assert(r@.map_values(|x: Option<ScriptRun>| match x {
                Some(v) => Some(v@),
                None => None,
            }) =~= completion_runs_spec(index.specs_map(), buffer@, cursor));
            r
        },
        None => {
            let r: Vec<Option<ScriptRun>> = Vec::new();
            assert(r@.map_values(|x: Option<ScriptRun>| match x {
                Some(v) => Some(v@),
                None => None,
            }) =~= Seq::<Option<ScriptRunView>>::empty());
            r
        },
    }
}

/// The items of a completion request and the query they were filtered on:
/// tokenize, look up the command's spec, parse, resolve candidates
/// (filesystem ones from `listing`, the entries of [`completion_dir`],
/// `None` when it could not be read; script ones from `outputs`), match
/// and rank, and keep the best [`MAX_ITEMS`].
pub fn complete_items(
    index: &SpecIndex,
    buffer: &str,
    cursor: usize,
    listing: &Option<Vec<DirEntryInfo>>,
    outputs: &Vec<Option<String>>,
) -> (r: Option<(Vec<CompletionItem>, String)>)
    requires
        index.wf(),
    ensures
        match r {
            Some((items, query)) => complete_spec(
                index.specs_map(),
                buffer@,
                cursor,
                listing_view(*listing),
                outputs_view(*outputs),
            ) == Some((item_views(items@), query@)),
            None => complete_spec(index.specs_map(), buffer@, cursor, listing_view(*listing), outputs_view(*outputs))
                is None,
        },
{
    let (tokens, _partial) = tokenize(buffer, cursor);
    if tokens.len() == 0 {
        return None;
    }
    let spec = match index.get(tokens[0].as_str()) {
        Some(s) => s,
        None => return None,
    };
    let ctx = parse(spec, buffer, cursor);
    let candidates = resolve(spec, &ctx, listing, outputs);
    if candidates.len() == 0 {
        return None;
    }
    if !ctx.current_token.as_str().is_empty() && !all_texts_fit(&candidates) {
        return None;
    }
    proof {
        if ctx.current_token@.len() > 0 {
            assert forall|k: int| 0 <= k < candidates@.len() implies #[trigger] candidates@[k].match_text@.len() <= u32::MAX by {
                assert(resolved_views(candidates@)[k] == candidates@[k]@);
                assert(resolved_views(candidates@)[k].match_text.len() <= u32::MAX);
            }
        }
    }
    let scored = match_suggestions(ctx.current_token.as_str(), candidates.as_slice(), ctx.filter_strategy);
    if scored.len() == 0 {
        return None;
    }
    let n = if scored.len() < MAX_ITEMS { scored.len() } else { MAX_ITEMS };
    let mut items: Vec<CompletionItem> = Vec::new();
    let mut i: usize = 0;
    let ghost sv = scored_views(scored@);
    while i < n
        invariant
            n <= scored@.len(),
            i <= n,
            sv == scored_views(scored@),
            item_views(items@) == sv.take(i as int).map_values(|s: ScoredView| item_of(s)),
        decreases n - i,
    {
        let it = to_item(&scored[i]);
        let ghost before = items@;
        items.push(it);
        proof {
            assert(sv[i as int] == scored@[i as int]@);
            assert(item_views(items@) =~= item_views(before).push(it@));
            assert(sv.take(i + 1) =~= sv.take(i as int).push(sv[i as int]));
            assert(item_views(items@) =~= sv.take(i + 1).map_values(|s: ScoredView| item_of(s)));
        }
        i += 1;
    }
    Some((items, ctx.current_token))
}

/// Answer a completion request: the items of [`complete_items`] with the
/// popup pre-rendered, or `Empty` when there are none. The popup must fit
/// the terminal when there are items.
pub fn handle_complete(
    index: &SpecIndex,
    buffer: &str,
    cursor: usize,
    listing: &Option<Vec<DirEntryInfo>>,
    outputs: &Vec<Option<String>>,
    terminal_cols: Option<u16>,
) -> (r: Response)
    requires
        index.wf(),
        complete_spec(index.specs_map(), buffer@, cursor, listing_view(*listing), outputs_view(*outputs)) is Some
            ==> cols_fit(terminal_cols),
    ensures
        completion_response(
            r,
            complete_spec(index.specs_map(), buffer@, cursor, listing_view(*listing), outputs_view(*outputs)),
            terminal_cols,
        ),
{
    match complete_items(index, buffer, cursor, listing, outputs) {
        None => Response::Empty,
        Some((items, query)) => {
            let theme = Theme::default();
            let rendered_popup = render_popup(items.as_slice(), 0, query.as_str(), &theme, terminal_cols);
            Response::Completions { items, selected: 0, query, rendered_popup }
        },
    }
}

/// Answer a completion request where the terminal allows it: `None`
/// exactly when there are items to show and the terminal is narrower than
/// the popup's minimum width, else the answer of [`handle_complete`].
pub fn answer_complete(
    index: &SpecIndex,
    buffer: &str,
    cursor: usize,
    listing: &Option<Vec<DirEntryInfo>>,
    outputs: &Vec<Option<String>>,
    terminal_cols: Option<u16>,
) -> (r: Option<Response>)
    requires
        index.wf(),
    ensures
        match r {
            Some(resp) => completion_response(
                resp,
                complete_spec(index.specs_map(), buffer@, cursor, listing_view(*listing), outputs_view(*outputs)),
                terminal_cols,
            ),
            None => complete_spec(index.specs_map(), buffer@, cursor, listing_view(*listing), outputs_view(*outputs))
                is Some && !cols_fit(terminal_cols),
        },
{
    let found = complete_items(index, buffer, cursor, listing, outputs).is_some();
    if found && !fits_terminal(terminal_cols) {
        None
    } else {
        Some(handle_complete(index, buffer, cursor, listing, outputs, terminal_cols))
    }
}

/// What the daemon answers a request other than a completion request,
/// given the number of loaded specs, its uptime and its process id.
pub open spec fn answer_spec(request: Request, specs_loaded: nat, uptime_secs: u64, pid: u32) -> Option<Response> {
    match request {
        Request::Complete { .. } => None,
        Request::Accept { .. } => Some(Response::Ack),
        Request::Dismiss => Some(Response::Ack),
        Request::Status => Some(Response::StatusInfo { specs_loaded: specs_loaded as usize, uptime_secs, pid }),
        Request::Stop => Some(Response::Goodbye),
    }
}

/// Answer a request. A completion request is answered by
/// [`answer_complete`] with `listing` and the script `outputs` (`None` when
/// the terminal is too narrow for the popup); accepting and dismissing are
/// acknowledged (the shell hook does the insertion); a health check gets
/// the status; a stop request gets a goodbye. The second result tells
/// whether the daemon should shut down after answering.
pub fn handle_request(
    index: &SpecIndex,
    request: Request,
    listing: &Option<Vec<DirEntryInfo>>,
    outputs: &Vec<Option<String>>,
    uptime_secs: u64,
    pid: u32,
) -> (r: (Option<Response>, bool))
    requires
        index.wf(),
    ensures
        r.1 == (request is Stop),
        match request {
            Request::Complete { buffer, cursor, terminal_cols, .. } => match r.0 {
                Some(resp) => completion_response(
                    resp,
                    complete_spec(index.specs_map(), buffer@, cursor, listing_view(*listing), outputs_view(*outputs)),
                    terminal_cols,
                ),
                None => complete_spec(
                    index.specs_map(),
                    buffer@,
                    cursor,
                    listing_view(*listing),
                    outputs_view(*outputs),
                ) is Some && !cols_fit(terminal_cols),
            },
            _ => r.0 == answer_spec(request, index.specs_map().dom().len(), uptime_secs, pid),
        },
{
    let is_stop = match &request {
        Request::Stop => true,
        _ => false,
    };
    let response = match request {
        Request::Complete { buffer, cursor, cwd: _, terminal_cols } => answer_complete(
            index,
            buffer.as_str(),
            cursor,
            listing,
            outputs,
            terminal_cols,
        ),
        Request::Accept { text: _ } => Some(Response::Ack),
        Request::Dismiss => Some(Response::Ack),
        Request::Status => Some(Response::StatusInfo { specs_loaded: index.len(), uptime_secs, pid }),
        Request::Stop => Some(Response::Goodbye),
    };
    (response, is_stop)
}

} // verus!

verus! {

/// A completion answer holds between one and [`MAX_ITEMS`] items, and its
/// query is the token under the cursor; a command without a spec gets no
/// completions.
pub proof fn law_completion_bounds(
    specs: Map<Seq<char>, Spec>,
    buffer: Seq<char>,
    cursor: usize,
    listing: Option<Seq<DirEntryView>>,
    outs: Seq<Option<Seq<char>>>,
)
    ensures
        complete_spec(specs, buffer, cursor, listing, outs) matches Some((items, query)) ==> 0 < items.len()
            <= MAX_ITEMS && query == tokenize_spec(buffer, cursor).1,
        tokenize_spec(buffer, cursor).0.len() > 0 && !specs.contains_key(tokenize_spec(buffer, cursor).0[0])
            ==> complete_spec(specs, buffer, cursor, listing, outs) is None,
{
}

} // verus!
