use tabra::ipc::client::{request_accept, request_dismiss};
use tabra::ipc::protocol::Request;
use tabra::session::integration::{bash_integration, fish_integration, zsh_integration};
use tabra::shell::{shell_args, shell_program, ShellType};
use tabra::spec::types::{SingleOrArray, Suggestion, SuggestionOrString};

#[test]
fn shell_program_choice() {
    assert_eq!(shell_program(Some(ShellType::Zsh), &Some("/bin/fish".to_string())), "zsh");
    assert_eq!(shell_program(None, &Some("/bin/fish".to_string())), "/bin/fish");
    assert_eq!(shell_program(None, &None), "bash");
}

#[test]
fn shell_args_per_shell() {
    assert_eq!(shell_args("/bin/bash", "/tmp/i.sh"), vec!["--rcfile", "/tmp/i.sh"]);
    assert_eq!(shell_args("fish", "/tmp/i.fish"), vec!["-C", "source /tmp/i.fish"]);
    assert!(shell_args("/usr/bin/zsh", "/tmp/i.zsh").is_empty());
}

#[test]
fn accept_and_dismiss_requests() {
    match request_accept("commit") {
        Request::Accept { text } => assert_eq!(text, "commit"),
        _ => panic!("expected Accept"),
    }
    assert!(matches!(request_dismiss(), Request::Dismiss));
}

#[test]
fn integration_scripts_are_nonempty() {
    assert!(bash_integration().contains("6973"));
    assert!(zsh_integration().contains("6973"));
    assert!(fish_integration().contains("6973"));
}

#[test]
fn single_or_array_views() {
    let s: SingleOrArray<u8> = SingleOrArray::Single(3);
    assert_eq!(s.as_slice(), &[3]);
    assert_eq!(s.to_vec(), vec![3]);
    assert_eq!(s.into_vec(), vec![3]);
    let a: SingleOrArray<u8> = SingleOrArray::Array(vec![1, 2]);
    assert_eq!(a.as_slice(), &[1, 2]);
    assert_eq!(a.to_vec(), vec![1, 2]);
    assert_eq!(a.into_vec(), vec![1, 2]);
}

#[test]
fn string_suggestion_normalizes() {
    let s = SuggestionOrString::String("main".to_string()).into_suggestion();
    assert_eq!(s.name, Some(SingleOrArray::Single("main".to_string())));
    assert_eq!(s.priority, None);
    assert!(!s.hidden);
    let full = Suggestion {
        name: None,
        display_name: Some("x".to_string()),
        insert_value: None,
        description: None,
        icon: None,
        priority: Some(80),
        suggestion_type: None,
        hidden: true,
        is_dangerous: false,
    };
    assert_eq!(SuggestionOrString::Suggestion(full.clone()).into_suggestion(), full);
}
