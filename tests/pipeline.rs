use cmd_utils::pipeline::{parse_pipeline, split_stages, ParseError};

#[test]
fn split_single_stage() {
    assert_eq!(split_stages("echo hello"), Vec::from(["echo hello"]));
}

#[test]
fn split_three_stages() {
    assert_eq!(
        split_stages("printf 'b\\na' | sort | head -n 2"),
        Vec::from(["printf 'b\\na'", "sort", "head -n 2"])
    );
}

#[test]
fn split_needs_spaces_around_pipe() {
    assert_eq!(split_stages("a|b | c"), Vec::from(["a|b", "c"]));
    assert_eq!(split_stages(""), Vec::from([""]));
    assert_eq!(split_stages(" | "), Vec::from(["", ""]));
}

#[test]
fn parse_stages_into_tokens() {
    let stages = parse_pipeline("playerctl --list-all | grep -w 'a b'").unwrap();
    assert_eq!(stages.len(), 2);
    assert_eq!(stages[0], Vec::from(["playerctl", "--list-all"]));
    assert_eq!(stages[1], Vec::from(["grep", "-w", "a b"]));
}

#[test]
fn parse_prefix_matches_shorter_pipeline() {
    let long = parse_pipeline("sort | uniq | head -n 2").unwrap();
    let short = parse_pipeline("sort | uniq").unwrap();
    assert_eq!(&long[..2], &short[..]);
    assert_eq!(long[2], Vec::from(["head", "-n", "2"]));
}

#[test]
fn parse_empty_line_fails() {
    assert_eq!(parse_pipeline(""), Err(ParseError::NoCommand));
    assert_eq!(parse_pipeline("   "), Err(ParseError::NoCommand));
}

#[test]
fn parse_empty_stage_fails() {
    assert_eq!(parse_pipeline("ls |  | wc"), Err(ParseError::EmptyStage { index: 1 }));
    assert_eq!(parse_pipeline("ls | "), Err(ParseError::EmptyStage { index: 1 }));
    assert_eq!(parse_pipeline(" | ls | "), Err(ParseError::EmptyStage { index: 0 }));
}

#[test]
fn echo_lines_plan_one_stage() {
    for line in ["echo hello", "echo 'hello'", "echo \"hello\""] {
        let stages = parse_pipeline(line).unwrap();
        assert_eq!(stages, vec![Vec::from(["echo", "hello"])]);
    }
}
