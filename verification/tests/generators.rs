use tabra::engine::generator::{script_run, script_suggestions, DEFAULT_SCRIPT_TIMEOUT_MS};
use tabra::engine::matcher::match_suggestions;
use tabra::engine::resolver::ResolvedSuggestion;
use tabra::ipc::protocol::Response;
use tabra::ipc::server::{answer_complete, completion_runs, handle_complete};
use tabra::render::overlay::{fits_terminal, render_popup};
use tabra::render::theme::Theme;
use tabra::spec::loader::SpecIndex;
use tabra::spec::types::{
    Arg, FilterStrategy, Generator, GeneratorScript, Opt, ParserDirectives, SingleOrArray, Subcommand, Suggestion,
    SuggestionType,
};

fn strings(v: &[&str]) -> Vec<String> {
    v.iter().map(|s| s.to_string()).collect()
}

fn command_generator(parts: &[&str]) -> Generator {
    Generator { script: Some(GeneratorScript::Command(strings(parts))), ..Generator::default() }
}

fn texts(v: &[ResolvedSuggestion]) -> Vec<String> {
    v.iter().map(|s| s.match_text.clone()).collect()
}

fn sub(name: &str, subs: Vec<Subcommand>, args: Option<Arg>) -> Subcommand {
    Subcommand {
        name: SingleOrArray::Single(name.to_string()),
        display_name: None,
        insert_value: None,
        description: None,
        icon: None,
        priority: None,
        subcommands: if subs.is_empty() { None } else { Some(subs) },
        requires_subcommand: false,
        options: None,
        args: args.map(SingleOrArray::Single),
        filter_strategy: None,
        additional_suggestions: None,
        load_spec: None,
        generate_spec: None,
        parser_directives: None,
        cache: None,
        hidden: false,
        is_dangerous: false,
        deprecated: None,
    }
}

fn branch_index() -> SpecIndex {
    let branches = command_generator(&["git", "branch", "--format", "%(refname:short)"]);
    let arg = Arg { generators: Some(SingleOrArray::Single(branches)), ..Arg::default() };
    let git = sub("git", vec![sub("checkout", vec![], Some(arg)), sub("push", vec![], None)], None);
    let mut index = SpecIndex::new("/specs".to_string());
    index.insert("git".to_string(), git);
    index
}

fn displays(r: &Response) -> Vec<String> {
    match r {
        Response::Completions { items, .. } => items.iter().map(|i| i.display.clone()).collect(),
        _ => vec![],
    }
}

#[test]
fn command_script_runs_its_first_word() {
    let run = script_run(&command_generator(&["git", "branch", "--format", "%(refname:short)"])).unwrap();
    assert_eq!(run.program, "git");
    assert_eq!(run.args, strings(&["branch", "--format", "%(refname:short)"]));
    assert_eq!(run.timeout_ms, DEFAULT_SCRIPT_TIMEOUT_MS);
    assert_eq!(run.timeout_ms, 5000);
}

#[test]
fn shell_script_runs_under_sh() {
    let g = Generator {
        script: Some(GeneratorScript::Shell("git branch | cat".to_string())),
        script_timeout: Some(250),
        ..Generator::default()
    };
    let run = script_run(&g).unwrap();
    assert_eq!(run.program, "sh");
    assert_eq!(run.args, strings(&["-c", "git branch | cat"]));
    assert_eq!(run.timeout_ms, 250);
}

#[test]
fn functions_and_empty_commands_do_not_run() {
    let f = Generator {
        script: Some(GeneratorScript::Function(Box::new(serde_json::Value::Bool(true)))),
        ..Generator::default()
    };
    assert!(script_run(&f).is_none());
    assert!(script_run(&command_generator(&[])).is_none());
    assert!(script_run(&Generator::default()).is_none());
}

#[test]
fn output_lines_become_special_suggestions() {
    let g = command_generator(&["git", "branch"]);
    let s = script_suggestions("main\n  feature-foo \n\n\tfeature-bar\r\n", &g);
    assert_eq!(texts(&s), strings(&["main", "feature-foo", "feature-bar"]));
    for x in &s {
        assert_eq!(x.display_text, x.match_text);
        assert_eq!(x.insert_text, x.match_text);
        assert_eq!(x.description, "");
        assert_eq!(x.kind, SuggestionType::Special);
        assert_eq!(x.priority, 50);
        assert!(!x.is_dangerous);
    }
}

#[test]
fn output_splits_on_the_given_separator() {
    let g = Generator { split_on: Some(",".to_string()), ..command_generator(&["list"]) };
    let s = script_suggestions(" a , b,,c \n", &g);
    assert_eq!(texts(&s), strings(&["a", "b", "c"]));
}

#[test]
fn empty_separator_splits_into_characters() {
    let g = Generator { split_on: Some(String::new()), ..command_generator(&["list"]) };
    let s = script_suggestions("ab c", &g);
    assert_eq!(texts(&s), strings(&["a", "b", "c"]));
}

#[test]
fn blank_output_gives_nothing() {
    let g = command_generator(&["list"]);
    assert!(script_suggestions("", &g).is_empty());
    assert!(script_suggestions(" \n\n \t\n", &g).is_empty());
}

#[test]
fn checkout_runs_the_branch_script() {
    let index = branch_index();
    let runs = completion_runs(&index, "git checkout ", 13);
    assert_eq!(runs.len(), 1);
    let run = runs[0].as_ref().unwrap();
    assert_eq!(run.program, "git");
    assert_eq!(run.args, strings(&["branch", "--format", "%(refname:short)"]));
    assert!(completion_runs(&index, "git push ", 9).is_empty());
    assert!(completion_runs(&index, "", 0).is_empty());
}

#[test]
fn checkout_offers_the_branch_names() {
    let index = branch_index();
    let outputs = vec![Some("main\nfeature-foo\nfeature-bar\n".to_string())];
    let r = handle_complete(&index, "git checkout ", 13, &None, &outputs, Some(80));
    assert_eq!(displays(&r), strings(&["feature-bar", "feature-foo", "main"]));
    let r = handle_complete(&index, "git checkout fe", 15, &None, &outputs, Some(80));
    let d = displays(&r);
    assert!(d.contains(&"feature-foo".to_string()));
    assert!(d.contains(&"feature-bar".to_string()));
    assert!(!d.contains(&"main".to_string()));
}

#[test]
fn failed_script_offers_nothing() {
    let index = branch_index();
    let r = handle_complete(&index, "git checkout ", 13, &None, &vec![None], Some(80));
    assert!(matches!(r, Response::Empty));
}

#[test]
fn narrow_terminal_is_refused_only_with_items() {
    let index = branch_index();
    let outputs = vec![Some("main\n".to_string())];
    assert!(answer_complete(&index, "git checkout ", 13, &None, &outputs, Some(10)).is_none());
    let r = answer_complete(&index, "git zzzz", 8, &None, &vec![], Some(10));
    assert!(matches!(r, Some(Response::Empty)));
    assert!(!fits_terminal(Some(10)));
    assert!(fits_terminal(Some(80)));
    assert!(fits_terminal(None));
}

#[test]
fn empty_popup_at_any_width() {
    let theme = Theme::default();
    assert!(render_popup(&[], 0, "", &theme, Some(5)).is_none());
    assert!(render_popup(&[], 0, "", &theme, Some(80)).is_none());
}

#[test]
fn empty_query_keeps_everything_unscored() {
    let mk = |name: &str, priority: u8| ResolvedSuggestion {
        match_text: name.to_string(),
        display_text: name.to_string(),
        insert_text: name.to_string(),
        description: String::new(),
        kind: SuggestionType::Arg,
        priority,
        is_dangerous: false,
    };
    let s = vec![mk("b", 10), mk("a", 10), mk("z", 90)];
    let r = match_suggestions("", &s, FilterStrategy::Default);
    let names: Vec<String> = r.iter().map(|x| x.suggestion.match_text.clone()).collect();
    assert_eq!(names, strings(&["z", "a", "b"]));
    assert!(r.iter().all(|x| x.score.is_none() && x.match_indices.is_empty()));
}

fn opt_named(names: &[&str]) -> Opt {
    Opt {
        name: if names.len() == 1 {
            SingleOrArray::Single(names[0].to_string())
        } else {
            SingleOrArray::Array(strings(names))
        },
        display_name: None,
        insert_value: None,
        description: None,
        icon: None,
        priority: None,
        args: None,
        is_persistent: false,
        is_required: false,
        requires_equals: false,
        requires_separator: None,
        is_repeatable: None,
        exclusive_on: None,
        depends_on: None,
        hidden: false,
        is_dangerous: false,
        deprecated: None,
    }
}

#[test]
fn long_name_falls_back_to_the_primary_name() {
    assert_eq!(opt_named(&["-m", "--message"]).long_name(), Some("--message"));
    assert_eq!(opt_named(&["-m"]).long_name(), Some("-m"));
    assert_eq!(opt_named(&["-v", "-V"]).long_name(), Some("-v"));
}

#[test]
fn defaults_leave_every_field_unset() {
    assert_eq!(FilterStrategy::default(), FilterStrategy::Default);
    let s = Suggestion::default();
    assert!(s.name.is_none() && s.priority.is_none() && !s.hidden && !s.is_dangerous);
    let g = Generator::default();
    assert!(g.template.is_none() && g.script.is_none() && g.split_on.is_none());
    let a = Arg::default();
    assert!(a.name.is_none() && a.generators.is_none() && !a.is_optional && !a.is_variadic);
    let p = ParserDirectives::default();
    assert!(!p.flags_are_posix_noncompliant && !p.options_must_precede_arguments);
    assert!(p.option_arg_separators.is_none());
}

#[test]
fn list_conversions_agree() {
    let one = SingleOrArray::Single("x".to_string());
    assert_eq!(one.to_vec(), strings(&["x"]));
    assert_eq!(one.as_slice().to_vec(), one.to_vec());
    assert_eq!(one.clone().into_vec(), one.to_vec());
    let many = SingleOrArray::Array(strings(&["a", "b"]));
    assert_eq!(many.to_vec(), strings(&["a", "b"]));
    assert_eq!(many.as_slice().to_vec(), many.to_vec());
    assert_eq!(many.clone().into_vec(), many.to_vec());
}
