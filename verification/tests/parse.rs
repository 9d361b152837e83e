use plumber::PipelineCommand;
use plumber::PipelineError;

#[test]
fn parse_raw_pipeline() {
    let pipeline = "cat file -a -v | pv --force |   oops_two_spaces  |      grep 'a' ";
    let res = vec![
        PipelineCommand {
            name: "cat".to_string(),
            args: vec!["file".to_string(), "-a".to_string(), "-v".to_string()],
        },
        PipelineCommand {
            name: "pv".to_string(),
            args: vec!["--force".to_string()],
        },
        PipelineCommand {
            name: "oops_two_spaces".to_string(),
            args: vec![],
        },
        PipelineCommand {
            name: "grep".to_string(),
            args: vec!["a".to_string()],
        },
    ];

    assert_eq!(res, plumber::tokenizer::parse_raw_pipeline(pipeline).unwrap());
}

#[test]
fn parse_three_stages_with_quotes() {
    let got = plumber::tokenizer::parse_raw_pipeline("cat file -a -v | pv --force | grep 'a'").unwrap();
    let expected = vec![
        PipelineCommand {
            name: "cat".to_string(),
            args: vec!["file".to_string(), "-a".to_string(), "-v".to_string()],
        },
        PipelineCommand {
            name: "pv".to_string(),
            args: vec!["--force".to_string()],
        },
        PipelineCommand {
            name: "grep".to_string(),
            args: vec!["a".to_string()],
        },
    ];
    assert_eq!(expected, got);
}

#[test]
fn parse_is_whitespace_insensitive() {
    let narrow = plumber::tokenizer::parse_raw_pipeline("a | b").unwrap();
    let wide = plumber::tokenizer::parse_raw_pipeline("a    |    b").unwrap();
    assert_eq!(narrow, wide);
    assert_eq!(narrow.len(), 2);
    assert_eq!(narrow[0].name, "a");
    assert_eq!(narrow[1].name, "b");
}

#[test]
fn parse_rejects_empty_stage() {
    let r = plumber::tokenizer::parse_raw_pipeline("a |   | b");
    assert!(matches!(r, Err(PipelineError::ParseError)));
}

#[test]
fn parse_rejects_empty_expression() {
    assert!(matches!(plumber::tokenizer::parse_raw_pipeline(""), Err(PipelineError::ParseError)));
    assert!(matches!(plumber::tokenizer::parse_raw_pipeline("   "), Err(PipelineError::ParseError)));
}

#[test]
fn parse_rejects_trailing_pipe() {
    assert!(matches!(plumber::tokenizer::parse_raw_pipeline("a | b |"), Err(PipelineError::ParseError)));
}

#[test]
fn parse_rejects_unbalanced_quote_stage() {
    let r = plumber::tokenizer::parse_raw_pipeline("cat | grep 'a");
    assert!(matches!(r, Err(PipelineError::ParseError)));
}
