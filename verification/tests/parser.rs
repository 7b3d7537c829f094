use tabra::engine::parser::tokenize;

#[test]
fn test_tokenize_simple() {
    let (tokens, partial) = tokenize("git commit -m ", 14);
    assert_eq!(tokens, vec!["git", "commit", "-m"]);
    assert_eq!(partial, "");
}

#[test]
fn test_tokenize_partial() {
    let (tokens, partial) = tokenize("git comm", 8);
    assert_eq!(tokens, vec!["git"]);
    assert_eq!(partial, "comm");
}

#[test]
fn test_tokenize_quoted() {
    let (tokens, partial) = tokenize("git commit -m 'hello world' ", 28);
    assert_eq!(tokens, vec!["git", "commit", "-m", "hello world"]);
    assert_eq!(partial, "");
}

#[test]
fn tokenize_cursor_cuts_the_buffer() {
    let (tokens, partial) = tokenize("git commit", 6);
    assert_eq!(tokens, vec!["git"]);
    assert_eq!(partial, "co");
}

#[test]
fn tokenize_cursor_past_end_takes_whole_buffer() {
    let (tokens, partial) = tokenize("ls -la", 100);
    assert_eq!(tokens, vec!["ls"]);
    assert_eq!(partial, "-la");
}

#[test]
fn tokenize_escaped_space_and_double_quotes() {
    let (tokens, partial) = tokenize("cd my\\ dir \"a b\" ", 17);
    assert_eq!(tokens, vec!["cd", "my dir", "a b"]);
    assert_eq!(partial, "");
}

#[test]
fn tokenize_empty_buffer() {
    let (tokens, partial) = tokenize("", 0);
    assert!(tokens.is_empty());
    assert_eq!(partial, "");
}

#[test]
fn tokenize_trailing_space_inside_open_quote_stays_partial() {
    let (tokens, partial) = tokenize("echo 'a ", 8);
    assert_eq!(tokens, vec!["echo"]);
    assert_eq!(partial, "a ");
    let (tokens, partial) = tokenize("git commit -m \"fix the\t", 23);
    assert_eq!(tokens, vec!["git", "commit", "-m"]);
    assert_eq!(partial, "fix the\t");
    let (tokens, partial) = tokenize("echo 'a b' ", 11);
    assert_eq!(tokens, vec!["echo", "a b"]);
    assert_eq!(partial, "");
}
