use tabra::engine::resolver::DirEntryInfo;
use tabra::ipc::client::{request_complete, shell_output, status_report, stop_report};
use tabra::ipc::protocol::{socket_path, CompletionItem, Request, Response};
use tabra::ipc::server::{completion_dir, handle_complete, handle_request, MAX_ITEMS};
use tabra::spec::loader::{is_spec_path, spec_name, specs_dir_under, SpecIndex};
use tabra::spec::types::{
    Arg, Opt, SingleOrArray, Subcommand, SuggestionType, TemplateString,
};

fn opt(names: &[&str]) -> Opt {
    Opt {
        name: if names.len() == 1 {
            SingleOrArray::Single(names[0].to_string())
        } else {
            SingleOrArray::Array(names.iter().map(|s| s.to_string()).collect())
        },
        display_name: None,
        insert_value: None,
        description: None,
        icon: None,
        priority: None,
        args: None,
        is_persistent: false,
        is_required: false,
        requires_equals: false,
        requires_separator: None,
        is_repeatable: None,
        exclusive_on: None,
        depends_on: None,
        hidden: false,
        is_dangerous: false,
        deprecated: None,
    }
}

fn arg_with_template(t: TemplateString) -> Arg {
    Arg {
        name: None,
        description: None,
        suggestions: None,
        template: Some(SingleOrArray::Single(t)),
        generators: None,
        filter_strategy: None,
        is_optional: false,
        is_variadic: false,
        is_command: false,
        is_dangerous: false,
        default: None,
        debounce: false,
        options_can_break_variadic_arg: None,
        suggest_current_token: false,
        load_spec: None,
    }
}

fn sub(name: &str, subs: Vec<Subcommand>, opts: Vec<Opt>, args: Option<Arg>) -> Subcommand {
    Subcommand {
        name: SingleOrArray::Single(name.to_string()),
        display_name: None,
        insert_value: None,
        description: Some(format!("{name} command")),
        icon: None,
        priority: None,
        subcommands: if subs.is_empty() { None } else { Some(subs) },
        requires_subcommand: false,
        options: if opts.is_empty() { None } else { Some(opts) },
        args: args.map(SingleOrArray::Single),
        filter_strategy: None,
        additional_suggestions: None,
        load_spec: None,
        generate_spec: None,
        parser_directives: None,
        cache: None,
        hidden: false,
        is_dangerous: false,
        deprecated: None,
    }
}

fn git_spec() -> Subcommand {
    sub(
        "git",
        vec![
            sub("commit", vec![], vec![opt(&["-m", "--message"]), opt(&["--amend"])], None),
            sub("checkout", vec![], vec![], None),
            sub("push", vec![], vec![], None),
            sub("add", vec![], vec![], Some(arg_with_template(TemplateString::Filepaths))),
        ],
        vec![opt(&["--version"])],
        None,
    )
}

fn index_with(specs: Vec<(&str, Subcommand)>) -> SpecIndex {
    let mut index = SpecIndex::new("/specs".to_string());
    for (name, spec) in specs {
        index.insert(name.to_string(), spec);
    }
    index
}

fn displays(r: &Response) -> Vec<String> {
    match r {
        Response::Completions { items, .. } => items.iter().map(|i| i.display.clone()).collect(),
        _ => vec![],
    }
}

#[test]
fn complete_git_subcommands() {
    let index = index_with(vec![("git", git_spec())]);
    let r = handle_complete(&index, "git ", 4, &None, &vec![], Some(80));
    let names = displays(&r);
    assert!(names.contains(&"commit".to_string()));
    assert!(names.contains(&"checkout".to_string()));
    assert!(names.contains(&"push".to_string()));
    match r {
        Response::Completions { selected, query, rendered_popup, .. } => {
            assert_eq!(selected, 0);
            assert_eq!(query, "");
            assert!(rendered_popup.unwrap().contains("commit"));
        }
        _ => panic!("expected completions"),
    }
}

#[test]
fn complete_git_partial_match() {
    let index = index_with(vec![("git", git_spec())]);
    let r = handle_complete(&index, "git ch", 6, &None, &vec![], Some(80));
    let names = displays(&r);
    assert!(names.contains(&"checkout".to_string()));
    assert!(!names.contains(&"push".to_string()));
    match r {
        Response::Completions { query, .. } => assert_eq!(query, "ch"),
        _ => panic!("expected completions"),
    }
}

#[test]
fn complete_unknown_command_is_empty() {
    let index = index_with(vec![("git", git_spec())]);
    assert!(matches!(handle_complete(&index, "nonexistent ", 12, &None, &vec![], Some(80)), Response::Empty));
    assert!(matches!(handle_complete(&index, "", 0, &None, &vec![], Some(80)), Response::Empty));
    assert!(matches!(handle_complete(&index, "git zzzz", 8, &None, &vec![], Some(80)), Response::Empty));
}

#[test]
fn complete_git_long_options() {
    let index = index_with(vec![("git", git_spec())]);
    let r = handle_complete(&index, "git commit --", 13, &None, &vec![], Some(80));
    let names = displays(&r);
    assert!(names.iter().any(|n| n.starts_with("--")), "got {names:?}");
}

#[test]
fn complete_files_from_listing() {
    let index = index_with(vec![("git", git_spec())]);
    let listing = Some(vec![
        DirEntryInfo { name: "src".to_string(), is_dir: true },
        DirEntryInfo { name: "README.md".to_string(), is_dir: false },
    ]);
    let r = handle_complete(&index, "git add ", 8, &listing, &vec![], Some(80));
    let names = displays(&r);
    assert!(names.contains(&"src/".to_string()), "got {names:?}");
    assert!(names.contains(&"README.md".to_string()), "got {names:?}");
    assert_eq!(completion_dir("git add sr", 10, "/home/u"), "/home/u");
    assert_eq!(completion_dir("git add src/ma", 14, "/home/u"), "/home/u/src");
}

#[test]
fn completions_are_capped() {
    let subs: Vec<Subcommand> = (0..70).map(|i| sub(&format!("cmd{i:02}"), vec![], vec![], None)).collect();
    let index = index_with(vec![("tool", sub("tool", subs, vec![], None))]);
    let r = handle_complete(&index, "tool ", 5, &None, &vec![], Some(80));
    assert_eq!(displays(&r).len(), MAX_ITEMS);
}

#[test]
fn requests_are_answered() {
    let index = index_with(vec![("git", git_spec()), ("docker", sub("docker", vec![], vec![], None))]);
    let (r, stop) = handle_request(&index, Request::Status, &None, &vec![], 12, 345);
    let r = r.unwrap();
    assert!(!stop);
    match r {
        Response::StatusInfo { specs_loaded, uptime_secs, pid } => {
            assert_eq!(specs_loaded, 2);
            assert_eq!(uptime_secs, 12);
            assert_eq!(pid, 345);
        }
        _ => panic!("expected status"),
    }
    let (r, stop) = handle_request(&index, Request::Stop, &None, &vec![], 0, 0);
    let r = r.unwrap();
    assert!(stop);
    assert!(matches!(r, Response::Goodbye));
    let (r, _) = handle_request(&index, Request::Dismiss, &None, &vec![], 0, 0);
    let r = r.unwrap();
    assert!(matches!(r, Response::Ack));
    let (r, _) = handle_request(&index, Request::Accept { text: "x".to_string() }, &None, &vec![], 0, 0);
    let r = r.unwrap();
    assert!(matches!(r, Response::Ack));
    let (r, stop) = handle_request(&index, request_complete("git pu", 6, "/tmp", Some(80)), &None, &vec![], 0, 0);
    let r = r.unwrap();
    assert!(!stop);
    assert_eq!(displays(&r), vec!["push".to_string()]);
}

#[test]
fn index_insert_replace_and_remove() {
    let mut index = SpecIndex::new("/data/tabra/specs".to_string());
    assert!(index.is_empty());
    assert_eq!(index.specs_dir(), "/data/tabra/specs");
    index.reload_file("/data/tabra/specs/git.json", Some(git_spec()));
    index.reload_file("/data/tabra/specs/notes.txt", Some(sub("notes", vec![], vec![], None)));
    index.reload_file("/data/tabra/specs/broken.json", None);
    assert_eq!(index.len(), 1);
    assert!(index.get("git").is_some());
    assert!(index.get("notes").is_none());
    index.reload_file("/data/tabra/specs/git.json", Some(sub("git", vec![], vec![], None)));
    assert_eq!(index.len(), 1);
    assert!(index.get("git").unwrap().subcommands.is_none());
    index.remove_file("/data/tabra/specs/git.json");
    assert!(index.get("git").is_none());
    assert_eq!(index.len(), 0);
}

#[test]
fn index_load_keeps_json_files_only() {
    let files = vec![
        ("/s/git.json".to_string(), Some(git_spec())),
        ("/s/docker.json".to_string(), Some(sub("docker", vec![], vec![], None))),
        ("/s/readme.md".to_string(), Some(sub("readme", vec![], vec![], None))),
        ("/s/bad.json".to_string(), None),
    ];
    let index = SpecIndex::load("/s".to_string(), files);
    assert_eq!(index.len(), 2);
    assert!(index.get("git").is_some());
    assert!(index.get("docker").is_some());
    assert!(index.get("bad").is_none());
}

#[test]
fn spec_file_names() {
    assert!(is_spec_path("/a/git.json"));
    assert!(!is_spec_path("/a/git.json.bak"));
    assert!(!is_spec_path("/a/json"));
    assert_eq!(spec_name("/a/git.json"), "git");
    assert_eq!(spec_name("/a/kubectl.v2.json"), "kubectl.v2");
    assert_eq!(specs_dir_under(&Some("/home/u/.local/share".to_string())), "/home/u/.local/share/tabra/specs");
    assert_eq!(specs_dir_under(&None), "~/.local/share/tabra/specs");
}

#[test]
fn socket_path_choices() {
    assert_eq!(socket_path(Some("/run/user/1000"), 1000), "/run/user/1000/tabra.sock");
    assert_eq!(socket_path(None, 1000), "/tmp/tabra-1000.sock");
}

#[test]
fn shell_output_format() {
    let items = vec![
        CompletionItem {
            display: "commit".to_string(),
            insert: "commit".to_string(),
            description: "Record\tchanges\nnow".to_string(),
            kind: SuggestionType::Subcommand,
            match_indices: vec![],
            is_dangerous: false,
        },
        CompletionItem {
            display: "push".to_string(),
            insert: "push ".to_string(),
            description: String::new(),
            kind: SuggestionType::Subcommand,
            match_indices: vec![],
            is_dangerous: false,
        },
    ];
    let r = Response::Completions { items, selected: 0, query: String::new(), rendered_popup: None };
    assert_eq!(shell_output(&r), "2\ncommit\tcommit\tRecord changes now\npush\tpush \t\n");
    assert_eq!(shell_output(&Response::Empty), "");
}

#[test]
fn status_and_stop_reports() {
    let r = Response::StatusInfo { specs_loaded: 3, uptime_secs: 42, pid: 7 };
    assert_eq!(
        status_report(&r),
        Ok("tabra daemon is running\n  PID: 7\n  uptime: 42s\n  specs loaded: 3\n".to_string())
    );
    assert_eq!(
        status_report(&Response::Error { message: "boom".to_string() }),
        Err("daemon error: boom".to_string())
    );
    assert_eq!(status_report(&Response::Ack), Err("unexpected response from daemon".to_string()));
    assert_eq!(stop_report(Ok(Response::Goodbye)), Ok("tabra daemon stopped".to_string()));
    assert_eq!(stop_report(Ok(Response::Ack)), Ok("tabra daemon acknowledged stop".to_string()));
    assert_eq!(
        stop_report(Err("read response: Connection reset by peer".to_string())),
        Ok("tabra daemon stopped".to_string())
    );
    assert_eq!(stop_report(Err("refused".to_string())), Err("refused".to_string()));
}

#[test]
fn used_options_are_not_suggested_again() {
    let index = index_with(vec![("git", git_spec())]);
    let r = handle_complete(&index, "git commit --amend -", 20, &None, &vec![], Some(80));
    let names = displays(&r);
    assert!(!names.contains(&"--amend".to_string()), "got {names:?}");
    assert!(names.contains(&"--message".to_string()), "got {names:?}");
}

#[test]
fn completion_dir_for_absolute_paths() {
    assert_eq!(completion_dir("ls /etc/pa", 10, "/home/u"), "/etc");
    assert_eq!(completion_dir("ls ../x", 7, "/home/u"), "/home/u/..");
}
