//! Fuzzy matching and ranking of resolved suggestions, backed by nucleo.
use vstd::prelude::*;
use crate::engine::resolver::{ResolvedSuggestion, ResolvedView, resolved_views};
use crate::spec::types::FilterStrategy;
use crate::text::chars_of;
use nucleo::pattern::{Atom, AtomKind, CaseMatching, Normalization};

verus! {

/// nucleo's match of `needle` against `haystack` with smart case and
/// smart normalization, as a prefix match when `prefix` is set and a fuzzy
/// match otherwise: its score and the matched character indices, or `None`
/// when it does not match.
pub uninterp spec fn nucleo_match(needle: Seq<char>, prefix: bool, haystack: Seq<char>) -> Option<(u16, Seq<u32>)>;

/// `nucleo::pattern::Atom::indices` for a one-atom pattern built with
/// `Atom::new(needle, CaseMatching::Smart, Normalization::Smart, kind, false)`
/// against `haystack`, with a default `Matcher`.
/// Trusted: the score and indices are the named match of the arguments.
/// nucleo asserts that a haystack holds at most `u32::MAX` characters.
#[verifier::external_body]
fn atom_indices(needle: &str, prefix: bool, haystack: &str) -> (r: Option<(u16, Vec<u32>)>)
    requires
        haystack@.len() <= u32::MAX,
    ensures
        match r {
            Some((s, v)) => nucleo_match(needle@, prefix, haystack@) == Some((s, v@)),
            None => nucleo_match(needle@, prefix, haystack@) is None,
        },
{
    let kind = if prefix { AtomKind::Prefix } else { AtomKind::Fuzzy };
    let atom = Atom::new(needle, CaseMatching::Smart, Normalization::Smart, kind, false);
    let mut matcher = nucleo::Matcher::default();
    let mut buf = Vec::new();
    let mut indices = Vec::new();
    let score = atom.indices(nucleo::Utf32Str::new(haystack, &mut buf), &mut matcher, &mut indices);
    score.map(|s| (s, indices))
}

/// A scored suggestion after matching.
#[derive(Debug, Clone)]
pub struct ScoredSuggestion {
    pub suggestion: ResolvedSuggestion,
    /// Match score (higher is better); `None` when no query was given.
    pub score: Option<u32>,
    /// Indices of the matched characters in `match_text`.
    pub match_indices: Vec<u32>,
}

pub struct ScoredView {
    pub suggestion: ResolvedView,
    pub score: Option<u32>,
    pub match_indices: Seq<u32>,
}

impl View for ScoredSuggestion {
    type V = ScoredView;

    open spec fn view(&self) -> ScoredView {
        ScoredView { suggestion: self.suggestion@, score: self.score, match_indices: self.match_indices@ }
    }
}

pub open spec fn scored_views(s: Seq<ScoredSuggestion>) -> Seq<ScoredView> {
    s.map_values(|x: ScoredSuggestion| x@)
}

/// Lexicographic comparison of character sequences: -1, 0 or 1.
pub open spec fn lex_order(a: Seq<char>, b: Seq<char>) -> int
    decreases a.len(),
{
    if a.len() == 0 && b.len() == 0 {
        0
    } else if a.len() == 0 {
        -1
    } else if b.len() == 0 {
        1
    } else if (a[0] as u32) < (b[0] as u32) {
        -1
    } else if (a[0] as u32) > (b[0] as u32) {
        1
    } else {
        lex_order(a.drop_first(), b.drop_first())
    }
}

/// Score as a number where `None` ranks below every score.
pub open spec fn score_rank(s: Option<u32>) -> int {
    match s {
        Some(v) => v as int,
        None => -1,
    }
}

/// Ranking order: higher score first, then higher priority, then
/// alphabetical by match text. Negative when `a` goes first.
pub open spec fn rank_order(a: ScoredView, b: ScoredView) -> int {
    if score_rank(a.score) != score_rank(b.score) {
        if score_rank(a.score) > score_rank(b.score) { -1 } else { 1 }
    } else if a.suggestion.priority != b.suggestion.priority {
        if a.suggestion.priority > b.suggestion.priority { -1 } else { 1 }
    } else {
        lex_order(a.suggestion.match_text, b.suggestion.match_text)
    }
}

/// Where `x` goes in the ranked `s`: before the first element ranked after it.
pub open spec fn insert_pos(s: Seq<ScoredView>, x: ScoredView, from: int) -> int
    decreases s.len() - from,
{
    if from >= s.len() {
        s.len() as int
    } else if rank_order(s[from], x) > 0 {
        from
    } else {
        insert_pos(s, x, from + 1)
    }
}

/// The stable ranking of a sequence.
pub open spec fn rank_sort(s: Seq<ScoredView>) -> Seq<ScoredView>
    decreases s.len(),
{
    if s.len() == 0 {
        seq![]
    } else {
        let r = rank_sort(s.drop_last());
        r.insert(insert_pos(r, s.last(), 0), s.last())
    }
}

/// Candidates before ranking: every suggestion unscored for an empty
/// query, else the suggestions nucleo matches, with score and indices.
pub open spec fn candidates(query: Seq<char>, prefix: bool, ss: Seq<ResolvedView>) -> Seq<ScoredView>
    decreases ss.len(),
{
    if ss.len() == 0 {
        seq![]
    } else {
        let rest = candidates(query, prefix, ss.drop_last());
        let s = ss.last();
        if query.len() == 0 {
            rest.push(ScoredView { suggestion: s, score: None, match_indices: seq![] })
        } else {
            match nucleo_match(query, prefix, s.match_text) {
                Some((sc, idx)) => rest.push(ScoredView { suggestion: s, score: Some(sc as u32), match_indices: idx }),
                None => rest,
            }
        }
    }
}

pub open spec fn is_prefix_strategy(strategy: FilterStrategy) -> bool {
    strategy == FilterStrategy::Prefix
}

/// The ranked matches of a query among suggestions.
pub open spec fn match_spec(query: Seq<char>, ss: Seq<ResolvedView>, strategy: FilterStrategy) -> Seq<ScoredView> {
    rank_sort(candidates(query, is_prefix_strategy(strategy), ss))
}

fn lex_compare(a: &Vec<char>, b: &Vec<char>) -> (r: i8)
    ensures
        r as int == lex_order(a@, b@),
{
    let mut i: usize = 0;
    assert(a@.skip(0) =~= a@);
    assert(b@.skip(0) =~= b@);
    while i < a.len() && i < b.len() && a[i] == b[i]
        invariant
            i <= a@.len(),
            i <= b@.len(),
            lex_order(a@, b@) == lex_order(a@.skip(i as int), b@.skip(i as int)),
        decreases a.len() - i,
    {
        assert(a@.skip(i as int).drop_first() =~= a@.skip(i + 1));
        assert(b@.skip(i as int).drop_first() =~= b@.skip(i + 1));
        i += 1;
    }
    proof {
        let sa = a@.skip(i as int);
        let sb = b@.skip(i as int);
        if i < a.len() {
            assert(sa[0] == a@[i as int]);
        }
        if i < a.len() && i < b.len() {
            let ca = a@[i as int];
            let cb = b@[i as int];
            assert(ca != cb);
            vstd::utf8::char_u32_cast(ca, ca as u32);
            vstd::utf8::char_u32_cast(cb, cb as u32);
            assert(ca as u32 != cb as u32);
        }
        if i < b.len() {
            assert(sb[0] == b@[i as int]);
        }
    }
    if i == a.len() && i == b.len() {
        0
    } else if i == a.len() {
        -1
    } else if i == b.len() {
        1
    } else if (a[i] as u32) < (b[i] as u32) {
        -1
    } else {
        1
    }
}

fn score_value(s: Option<u32>) -> (r: i64)
    ensures
        r as int == score_rank(s),
{
    match s {
        Some(v) => v as i64,
        None => -1,
    }
}

/// Ranking comparison of two scored suggestions.
fn rank_compare(a: &ScoredSuggestion, b: &ScoredSuggestion, a_text: &Vec<char>, b_text: &Vec<char>) -> (r: i8)
    requires
        a_text@ == a.suggestion.match_text@,
        b_text@ == b.suggestion.match_text@,
    ensures
        r as int == rank_order(a@, b@),
{
    let sa = score_value(a.score);
    let sb = score_value(b.score);
    if sa != sb {
        if sa > sb { -1 } else { 1 }
    } else if a.suggestion.priority != b.suggestion.priority {
        if a.suggestion.priority > b.suggestion.priority { -1 } else { 1 }
    } else {
        lex_compare(a_text, b_text)
    }
}

/// A copy of a resolved suggestion.
pub fn copy_resolved(s: &ResolvedSuggestion) -> (r: ResolvedSuggestion)
    ensures
        r@ == s@,
{
    ResolvedSuggestion {
        match_text: s.match_text.clone(),
        display_text: s.display_text.clone(),
        insert_text: s.insert_text.clone(),
        description: s.description.clone(),
        kind: s.kind,
        priority: s.priority,
        is_dangerous: s.is_dangerous,
    }
}

/// Inserts `x` at its rank among the ranked `out`.
fn insert_ranked(out: &mut Vec<ScoredSuggestion>, texts: &mut Vec<Vec<char>>, x: ScoredSuggestion)
    requires
        old(texts)@.len() == old(out)@.len(),
        forall|k: int| 0 <= k < old(out)@.len() ==> #[trigger] old(texts)@[k]@ == old(out)@[k].suggestion.match_text@,
    ensures
        final(texts)@.len() == final(out)@.len(),
        forall|k: int| 0 <= k < final(out)@.len() ==> #[trigger] final(texts)@[k]@ == final(out)@[k].suggestion.match_text@,
        scored_views(final(out)@) == scored_views(old(out)@).insert(
            insert_pos(scored_views(old(out)@), x@, 0),
            x@,
        ),
{
    let xt = chars_of(x.suggestion.match_text.as_str());
    let ghost sv = scored_views(out@);
    let mut k: usize = 0;
    let mut found = false;
    while !found && k < out.len()
        invariant
            k <= out@.len(),
            found ==> k < out@.len() && rank_order(sv[k as int], x@) > 0,
            texts@.len() == out@.len(),
            sv == scored_views(out@),
            forall|j: int| 0 <= j < out@.len() ==> #[trigger] texts@[j]@ == out@[j].suggestion.match_text@,
            xt@ == x.suggestion.match_text@,
            insert_pos(sv, x@, 0) == insert_pos(sv, x@, k as int),
        decreases out.len() - k + (if found { 0int } else { 1int }),
    {
        if rank_compare(&out[k], &x, &texts[k], &xt) > 0 {
            found = true;
        } else {
            k += 1;
        }
    }
    assert(insert_pos(sv, x@, 0) == k);
    let ghost old_out = out@;
    let ghost old_texts = texts@;
    out.insert(k, x);
    texts.insert(k, xt);
    proof {
        assert(scored_views(out@) =~= sv.insert(k as int, x@));
        assert forall|j: int| 0 <= j < out@.len() implies #[trigger] texts@[j]@ == out@[j].suggestion.match_text@ by {
            if j < k {
                assert(texts@[j] == old_texts[j]);
                assert(out@[j] == old_out[j]);
            } else if j > k {
                assert(texts@[j] == old_texts[j - 1]);
                assert(out@[j] == old_out[j - 1]);
            }
        }
    }
}

/// Match and rank suggestions against the query token.
///
/// Returns suggestions sorted by score (desc), then priority (desc), then
/// alphabetically. Non-matching suggestions are dropped unless `query` is
/// empty, in which case all suggestions are returned unscored.
pub fn match_suggestions(
    query: &str,
    suggestions: &[ResolvedSuggestion],
    strategy: FilterStrategy,
) -> (r: Vec<ScoredSuggestion>)
    requires
        query@.len() > 0 ==> forall|k: int|
            0 <= k < suggestions@.len() ==> #[trigger] suggestions@[k].match_text@.len() <= u32::MAX,
    ensures
        scored_views(r@) == match_spec(query@, resolved_views(suggestions@), strategy),
{
    let prefix = match strategy {
        FilterStrategy::Prefix => true,
        _ => false,
    };
    let query_empty = query.is_empty();
    let ghost ss = resolved_views(suggestions@);
    let ghost cands = candidates(query@, prefix, ss);
    let mut out: Vec<ScoredSuggestion> = Vec::new();
    let mut texts: Vec<Vec<char>> = Vec::new();
    let ghost seen: Seq<ScoredView> = seq![];
    let mut i: usize = 0;
    assert(ss.take(0) =~= Seq::<ResolvedView>::empty());
    assert(scored_views(out@) =~= Seq::<ScoredView>::empty());
    while i < suggestions.len()
        invariant
            i <= suggestions@.len(),
            ss == resolved_views(suggestions@),
            query_empty == (query@.len() == 0),
            prefix == is_prefix_strategy(strategy),
            query@.len() > 0 ==> forall|k: int|
                0 <= k < suggestions@.len() ==> #[trigger] suggestions@[k].match_text@.len() <= u32::MAX,
            texts@.len() == out@.len(),
            forall|k: int| 0 <= k < out@.len() ==> #[trigger] texts@[k]@ == out@[k].suggestion.match_text@,
            scored_views(out@) == rank_sort(candidates(query@, prefix, ss.take(i as int))),
        decreases suggestions.len() - i,
    {
        let s = &suggestions[i];
        let ghost before = candidates(query@, prefix, ss.take(i as int));
        proof {
            assert(ss.take(i + 1).drop_last() =~= ss.take(i as int));
            assert(ss.take(i + 1).last() == s@);
        }
        if query_empty {
            let x = ScoredSuggestion { suggestion: copy_resolved(s), score: None, match_indices: Vec::new() };
            assert(x@ == ScoredView { suggestion: s@, score: None, match_indices: seq![] });
            insert_ranked(&mut out, &mut texts, x);
            proof {
                let c1 = candidates(query@, prefix, ss.take(i + 1));
                assert(c1 == before.push(x@));
                assert(c1.drop_last() =~= before);
            }
        } else {
            match atom_indices(query, prefix, s.match_text.as_str()) {
                Some((sc, indices)) => {
                    let x = ScoredSuggestion { suggestion: copy_resolved(s), score: Some(sc as u32), match_indices: indices };
                    insert_ranked(&mut out, &mut texts, x);
                    proof {
                        let c1 = candidates(query@, prefix, ss.take(i + 1));
                        assert(c1 == before.push(x@));
                        assert(c1.drop_last() =~= before);
                    }
                },
                None => {},
            }
        }
        i += 1;
    }
    assert(ss.take(suggestions@.len() as int) =~= ss);
    out
}

} // verus!

verus! {

/// Whether a sequence is in ranking order: nothing is ranked after a
/// later element.
pub open spec fn ranked(s: Seq<ScoredView>) -> bool {
    forall|i: int, j: int| 0 <= i < j < s.len() ==> rank_order(#[trigger] s[i], #[trigger] s[j]) <= 0
}

proof fn lemma_lex_antisym(a: Seq<char>, b: Seq<char>)
    ensures
        lex_order(a, b) == -lex_order(b, a),
    decreases a.len(),
{
    if a.len() > 0 && b.len() > 0 && a[0] as u32 == b[0] as u32 {
        lemma_lex_antisym(a.drop_first(), b.drop_first());
    }
}

proof fn lemma_lex_trans(a: Seq<char>, b: Seq<char>, c: Seq<char>)
    requires
        lex_order(a, b) <= 0,
        lex_order(b, c) <= 0,
    ensures
        lex_order(a, c) <= 0,
    decreases a.len(),
{
    if a.len() > 0 && b.len() > 0 && c.len() > 0 && a[0] as u32 == b[0] as u32 && b[0] as u32 == c[0] as u32 {
        lemma_lex_trans(a.drop_first(), b.drop_first(), c.drop_first());
    }
}

proof fn lemma_rank_antisym(a: ScoredView, b: ScoredView)
    ensures
        rank_order(a, b) == -rank_order(b, a),
{
    lemma_lex_antisym(a.suggestion.match_text, b.suggestion.match_text);
}

proof fn lemma_rank_trans(a: ScoredView, b: ScoredView, c: ScoredView)
    requires
        rank_order(a, b) <= 0,
        rank_order(b, c) <= 0,
    ensures
        rank_order(a, c) <= 0,
{
    if score_rank(a.score) == score_rank(b.score) && score_rank(b.score) == score_rank(c.score)
        && a.suggestion.priority == b.suggestion.priority && b.suggestion.priority == c.suggestion.priority {
        lemma_lex_trans(a.suggestion.match_text, b.suggestion.match_text, c.suggestion.match_text);
    }
}

proof fn lemma_insert_pos(s: Seq<ScoredView>, x: ScoredView, from: int)
    requires
        0 <= from <= s.len(),
    ensures
        from <= insert_pos(s, x, from) <= s.len(),
        forall|k: int| from <= k < insert_pos(s, x, from) ==> rank_order(#[trigger] s[k], x) <= 0,
        insert_pos(s, x, from) < s.len() ==> rank_order(s[insert_pos(s, x, from)], x) > 0,
    decreases s.len() - from,
{
    if from < s.len() && rank_order(s[from], x) <= 0 {
        lemma_insert_pos(s, x, from + 1);
    }
}

/// Inserting at the ranked position keeps a ranked sequence ranked and
/// adds exactly the inserted element.
proof fn lemma_insert_ranked(r: Seq<ScoredView>, x: ScoredView)
    requires
        ranked(r),
    ensures
        ranked(r.insert(insert_pos(r, x, 0), x)),
        r.insert(insert_pos(r, x, 0), x).to_multiset() == r.to_multiset().insert(x),
{
    let p = insert_pos(r, x, 0);
    lemma_insert_pos(r, x, 0);
    let t = r.insert(p, x);
    assert forall|i: int, j: int| 0 <= i < j < t.len() implies rank_order(#[trigger] t[i], #[trigger] t[j]) <= 0 by {
        if i < p && j < p {
            assert(t[i] == r[i] && t[j] == r[j]);
        } else if i < p && j == p {
            assert(t[i] == r[i]);
        } else if i < p {
            assert(t[i] == r[i] && t[j] == r[j - 1]);
        } else if i == p {
            assert(t[j] == r[j - 1]);
            assert(rank_order(r[p], x) > 0);
            lemma_rank_antisym(r[p], x);
            if j - 1 > p {
                lemma_rank_trans(x, r[p], r[j - 1]);
            }
        } else {
            assert(t[i] == r[i - 1] && t[j] == r[j - 1]);
        }
    }
    broadcast use vstd::seq_lib::group_to_multiset_ensures;
    assert(t.remove(p) =~= r);
    assert(t[p] == x);
    assert(r.to_multiset() =~= t.to_multiset().remove(x));
    assert(t.to_multiset().count(x) > 0) by {
        assert(t.contains(x));
    }
    assert(t.to_multiset() =~= r.to_multiset().insert(x));
}

/// The ranking of a sequence is ranked and holds the same elements.
pub proof fn lemma_rank_sort(s: Seq<ScoredView>)
    ensures
        ranked(rank_sort(s)),
        rank_sort(s).to_multiset() == s.to_multiset(),
    decreases s.len(),
{
    broadcast use vstd::seq_lib::group_to_multiset_ensures;
    if s.len() == 0 {
        assert(rank_sort(s) =~= Seq::<ScoredView>::empty());
        assert(s.to_multiset() =~= vstd::multiset::Multiset::<ScoredView>::empty());
        assert(rank_sort(s).to_multiset() =~= vstd::multiset::Multiset::<ScoredView>::empty());
    } else {
        lemma_rank_sort(s.drop_last());
        lemma_insert_ranked(rank_sort(s.drop_last()), s.last());
        assert(s.drop_last().push(s.last()) =~= s);
    }
}

/// Matching returns its results best first: by score, then priority, then
/// alphabetically; and it returns exactly the suggestions that match (all
/// of them, unscored, for an empty query), each once.
pub proof fn law_match_results_ranked(query: Seq<char>, suggestions: Seq<ResolvedView>, strategy: FilterStrategy)
    ensures
        ranked(match_spec(query, suggestions, strategy)),
        match_spec(query, suggestions, strategy).to_multiset() == candidates(
            query,
            is_prefix_strategy(strategy),
            suggestions,
        ).to_multiset(),
{
    lemma_rank_sort(candidates(query, is_prefix_strategy(strategy), suggestions));
}

proof fn lemma_empty_query_candidates(prefix: bool, ss: Seq<ResolvedView>)
    ensures
        candidates(Seq::empty(), prefix, ss) == ss.map_values(
            |s: ResolvedView| ScoredView { suggestion: s, score: None, match_indices: seq![] },
        ),
    decreases ss.len(),
{
    if ss.len() > 0 {
        lemma_empty_query_candidates(prefix, ss.drop_last());
        assert(ss.map_values(|s: ResolvedView| ScoredView { suggestion: s, score: None, match_indices: seq![] })
            =~= ss.drop_last().map_values(
            |s: ResolvedView| ScoredView { suggestion: s, score: None, match_indices: seq![] },
        ).push(ScoredView { suggestion: ss.last(), score: None, match_indices: seq![] }));
    } else {
        assert(candidates(Seq::empty(), prefix, ss) =~= ss.map_values(
            |s: ResolvedView| ScoredView { suggestion: s, score: None, match_indices: seq![] },
        ));
    }
}

/// With an empty query nothing is filtered out: every suggestion comes
/// back once, unscored and without highlighted characters.
pub proof fn law_empty_query_keeps_all(suggestions: Seq<ResolvedView>, strategy: FilterStrategy)
    ensures
        match_spec(Seq::empty(), suggestions, strategy).to_multiset() == suggestions.map_values(
            |s: ResolvedView| ScoredView { suggestion: s, score: None, match_indices: seq![] },
        ).to_multiset(),
        match_spec(Seq::empty(), suggestions, strategy).len() == suggestions.len(),
{
    broadcast use vstd::seq_lib::group_to_multiset_ensures;
    lemma_empty_query_candidates(is_prefix_strategy(strategy), suggestions);
    law_match_results_ranked(Seq::empty(), suggestions, strategy);
    let c = candidates(Seq::empty(), is_prefix_strategy(strategy), suggestions);
    assert(match_spec(Seq::empty(), suggestions, strategy).to_multiset().len() == c.to_multiset().len());
}

/// Whether `a` may come before `b` in a best-first list: a scored match
/// before an unscored one, a higher score first; on equal scores the
/// higher priority first; on equal scores and priorities the match text
/// that comes first alphabetically.
pub open spec fn goes_before(a: ScoredView, b: ScoredView) -> bool {
    match (a.score, b.score) {
        (None, Some(_)) => false,
        (Some(x), Some(y)) if x != y => x > y,
        (Some(_), None) => true,
        _ => if a.suggestion.priority != b.suggestion.priority {
            a.suggestion.priority > b.suggestion.priority
        } else {
            lex_order(a.suggestion.match_text, b.suggestion.match_text) <= 0
        },
    }
}

/// The results of matching come best first: for every two results, the
/// earlier one has the higher score (a match with a score before one
/// without), then the higher priority, then the alphabetically first text.
pub proof fn law_best_match_first(query: Seq<char>, suggestions: Seq<ResolvedView>, strategy: FilterStrategy)
    ensures
        forall|i: int, j: int|
            0 <= i < j < match_spec(query, suggestions, strategy).len() ==> goes_before(
                #[trigger] match_spec(query, suggestions, strategy)[i],
                #[trigger] match_spec(query, suggestions, strategy)[j],
            ),
{
    let r = match_spec(query, suggestions, strategy);
    law_match_results_ranked(query, suggestions, strategy);
    assert forall|i: int, j: int| 0 <= i < j < r.len() implies goes_before(#[trigger] r[i], #[trigger] r[j]) by {
        assert(rank_order(r[i], r[j]) <= 0);
    }
}

} // verus!
