use tabra::engine::parser::{parse, ExpectedCompletion};
use tabra::engine::resolver::resolve;
use tabra::spec::types::{Arg, FilterStrategy, Opt, SingleOrArray, Subcommand, SuggestionOrString};

fn arg(optional: bool, suggestions: &[&str]) -> Arg {
    Arg {
        name: None,
        description: None,
        suggestions: if suggestions.is_empty() {
            None
        } else {
            Some(suggestions.iter().map(|s| SuggestionOrString::String(s.to_string())).collect())
        },
        template: None,
        generators: None,
        filter_strategy: None,
        is_optional: optional,
        is_variadic: false,
        is_command: false,
        is_dangerous: false,
        default: None,
        debounce: false,
        options_can_break_variadic_arg: None,
        suggest_current_token: false,
        load_spec: None,
    }
}

fn opt(names: &[&str], a: Option<Arg>) -> Opt {
    Opt {
        name: SingleOrArray::Array(names.iter().map(|s| s.to_string()).collect()),
        display_name: None,
        insert_value: None,
        description: None,
        icon: None,
        priority: None,
        args: a.map(SingleOrArray::Single),
        is_persistent: false,
        is_required: false,
        requires_equals: false,
        requires_separator: None,
        is_repeatable: None,
        exclusive_on: None,
        depends_on: None,
        hidden: false,
        is_dangerous: false,
        deprecated: None,
    }
}

fn sub(name: &str, subs: Vec<Subcommand>, opts: Vec<Opt>, args: Vec<Arg>, fs: Option<FilterStrategy>) -> Subcommand {
    Subcommand {
        name: SingleOrArray::Single(name.to_string()),
        display_name: None,
        insert_value: None,
        description: None,
        icon: None,
        priority: None,
        subcommands: if subs.is_empty() { None } else { Some(subs) },
        requires_subcommand: false,
        options: if opts.is_empty() { None } else { Some(opts) },
        args: if args.is_empty() { None } else { Some(SingleOrArray::Array(args)) },
        filter_strategy: fs,
        additional_suggestions: None,
        load_spec: None,
        generate_spec: None,
        parser_directives: None,
        cache: None,
        hidden: false,
        is_dangerous: false,
        deprecated: None,
    }
}

fn git() -> Subcommand {
    sub(
        "git",
        vec![
            sub(
                "commit",
                vec![],
                vec![opt(&["-m", "--message"], Some(arg(false, &["fix", "feat"]))), opt(&["-v"], Some(arg(true, &[])))],
                vec![],
                None,
            ),
            sub("checkout", vec![], vec![], vec![arg(false, &["main", "dev"]), arg(false, &["file"])], Some(FilterStrategy::Prefix)),
        ],
        vec![],
        vec![],
        None,
    )
}

#[test]
fn option_with_argument_expects_its_value() {
    let spec = git();
    let ctx = parse(&spec, "git commit -m ", 14);
    assert_eq!(ctx.subcommand_path, vec!["git", "commit"]);
    assert_eq!(ctx.spec_path, vec![0]);
    assert_eq!(ctx.used_options, vec!["-m"]);
    match &ctx.expected {
        ExpectedCompletion::OptionArg { option_name, arg_index } => {
            assert_eq!(option_name, "-m");
            assert_eq!(*arg_index, 0);
        }
        _ => panic!("expected an option argument"),
    }
    let names: Vec<String> = resolve(&spec, &ctx, &None, &vec![]).into_iter().map(|s| s.match_text).collect();
    assert_eq!(names, vec!["fix", "feat"]);
}

#[test]
fn option_value_is_consumed() {
    let spec = git();
    let ctx = parse(&spec, "git commit -m msg ", 18);
    match ctx.expected {
        ExpectedCompletion::SubcommandOrOptionOrArg { arg_index } => assert_eq!(arg_index, 0),
        _ => panic!("expected general completion"),
    }
}

#[test]
fn optional_option_argument_is_not_awaited() {
    let spec = git();
    let ctx = parse(&spec, "git commit -v ", 14);
    assert!(matches!(ctx.expected, ExpectedCompletion::SubcommandOrOptionOrArg { arg_index: 0 }));
}

#[test]
fn separator_ends_completion() {
    let spec = git();
    let ctx = parse(&spec, "git checkout -- ", 16);
    assert!(matches!(ctx.expected, ExpectedCompletion::Nothing));
}

#[test]
fn positional_arguments_are_counted() {
    let spec = git();
    let ctx = parse(&spec, "git checkout main ", 18);
    assert!(matches!(ctx.expected, ExpectedCompletion::SubcommandOrOptionOrArg { arg_index: 1 }));
    assert_eq!(ctx.filter_strategy, FilterStrategy::Prefix);
    let names: Vec<String> = resolve(&spec, &ctx, &None, &vec![]).into_iter().map(|s| s.match_text).collect();
    assert_eq!(names, vec!["file"]);
    let ctx = parse(&spec, "git checkout ma", 15);
    assert_eq!(ctx.current_token, "ma");
    let names: Vec<String> = resolve(&spec, &ctx, &None, &vec![]).into_iter().map(|s| s.match_text).collect();
    assert_eq!(names, vec!["main", "dev"]);
}

#[test]
fn subcommands_and_options_offered_at_root() {
    let spec = git();
    let ctx = parse(&spec, "git ", 4);
    assert!(ctx.spec_path.is_empty());
    let names: Vec<String> = resolve(&spec, &ctx, &None, &vec![]).into_iter().map(|s| s.match_text).collect();
    assert_eq!(names, vec!["commit", "checkout"]);
}

#[test]
fn parse_walk_follows_the_spec() {
    let spec = git();
    let ctx = parse(&spec, "git commit -v -m msg ", 21);
    assert_eq!(ctx.subcommand_path, vec!["git", "commit"]);
    assert_eq!(ctx.spec_path, vec![0]);
    assert_eq!(ctx.subcommand_path.len(), ctx.spec_path.len() + 1);
    let node = &spec.subcommands.as_ref().unwrap()[ctx.spec_path[0]];
    assert_eq!(node.primary_name(), ctx.subcommand_path[1]);
    assert_eq!(ctx.used_options, vec!["-v", "-m"]);
    assert_eq!(ctx.current_token, "");
    let empty = parse(&spec, "", 0);
    assert!(empty.subcommand_path.is_empty() && empty.spec_path.is_empty());
}
