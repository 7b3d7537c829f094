use tabra::engine::matcher::match_suggestions;
use tabra::engine::resolver::ResolvedSuggestion;
use tabra::spec::types::{FilterStrategy, SuggestionType};

fn make_suggestion(name: &str, priority: u8) -> ResolvedSuggestion {
    ResolvedSuggestion {
        match_text: name.to_string(),
        display_text: name.to_string(),
        insert_text: name.to_string(),
        description: String::new(),
        kind: SuggestionType::Subcommand,
        priority,
        is_dangerous: false,
    }
}

#[test]
fn test_empty_query_returns_all() {
    let suggestions = vec![
        make_suggestion("commit", 50),
        make_suggestion("checkout", 50),
        make_suggestion("clone", 50),
    ];
    let results = match_suggestions("", &suggestions, FilterStrategy::Default);
    assert_eq!(results.len(), 3);
}

#[test]
fn test_fuzzy_match() {
    let suggestions = vec![
        make_suggestion("commit", 50),
        make_suggestion("checkout", 50),
        make_suggestion("push", 50),
    ];
    let results = match_suggestions("co", &suggestions, FilterStrategy::Default);
    assert!(results.len() >= 2);
    assert!(results.iter().all(|r| r.suggestion.match_text != "push"));
}

#[test]
fn empty_query_sorts_by_priority_then_name() {
    let suggestions = vec![
        make_suggestion("commit", 50),
        make_suggestion("add", 40),
        make_suggestion("checkout", 50),
        make_suggestion("zap", 90),
    ];
    let results = match_suggestions("", &suggestions, FilterStrategy::Default);
    let names: Vec<&str> = results.iter().map(|r| r.suggestion.match_text.as_str()).collect();
    assert_eq!(names, vec!["zap", "checkout", "commit", "add"]);
    assert!(results.iter().all(|r| r.score.is_none() && r.match_indices.is_empty()));
}

#[test]
fn prefix_strategy_rejects_inner_matches() {
    let suggestions = vec![make_suggestion("checkout", 50), make_suggestion("recheck", 50)];
    let fuzzy = match_suggestions("che", &suggestions, FilterStrategy::Fuzzy);
    assert_eq!(fuzzy.len(), 2);
    let prefix = match_suggestions("che", &suggestions, FilterStrategy::Prefix);
    assert_eq!(prefix.len(), 1);
    assert_eq!(prefix[0].suggestion.match_text, "checkout");
    assert_eq!(prefix[0].match_indices, vec![0, 1, 2]);
}

#[test]
fn results_are_ranked() {
    let suggestions = vec![
        make_suggestion("status", 50),
        make_suggestion("stash", 50),
        make_suggestion("show", 50),
        make_suggestion("st", 20),
    ];
    let results = match_suggestions("st", &suggestions, FilterStrategy::Default);
    for w in results.windows(2) {
        let (a, b) = (&w[0], &w[1]);
        assert!(
            a.score > b.score
                || (a.score == b.score && a.suggestion.priority > b.suggestion.priority)
                || (a.score == b.score
                    && a.suggestion.priority == b.suggestion.priority
                    && a.suggestion.match_text <= b.suggestion.match_text)
        );
    }
    assert!(results.iter().all(|r| r.score.is_some()));
}
