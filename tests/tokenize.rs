use cmd_utils::tokenize::parse_command;

#[test]
fn command_without_quotes() {
    let result = parse_command("ls -l -a");
    assert_eq!(result, Vec::from(["ls", "-l", "-a"]));
}

#[test]
fn command_with_single_quotes() {
    let result = parse_command("grep 'search term' file.txt");
    assert_eq!(result, Vec::from(["grep", "search term", "file.txt"]));
}

#[test]
fn command_with_double_quotes() {
    let result = parse_command("grep \"search term\" file.txt");
    assert_eq!(result, Vec::from(["grep", "search term", "file.txt"]));
}

#[test]
fn empty_command_has_no_tokens() {
    assert!(parse_command("").is_empty());
    assert!(parse_command("   ").is_empty());
}

#[test]
fn repeated_spaces_make_no_empty_tokens() {
    assert_eq!(parse_command("  a   b  "), Vec::from(["a", "b"]));
}

#[test]
fn quote_inside_token_joins_parts() {
    assert_eq!(parse_command("ab'c d'e f"), Vec::from(["abc de", "f"]));
    assert_eq!(parse_command("--player='spotify'"), Vec::from(["--player=spotify"]));
}

#[test]
fn mixed_quotes_toggle_each_other() {
    assert_eq!(parse_command("a \"b 'c\" d"), Vec::from(["a", "b c d"]));
}

#[test]
fn unbalanced_quote_flushes_rest() {
    assert_eq!(parse_command("echo 'a b"), Vec::from(["echo", "a b"]));
}

#[test]
fn backslash_is_kept() {
    assert_eq!(parse_command("a\\ b"), Vec::from(["a\\", "b"]));
}

#[test]
fn empty_quotes_add_nothing() {
    assert_eq!(parse_command("a '' b"), Vec::from(["a", "b"]));
}
