use pipebench::stage::{PipelineSpec, Stage, TokenizeError};
use pipebench::tokenizer::{
    is_space_char, split, split_words, tokenize, tokenize_chain, tokenize_stage,
};

fn strings(items: &[&str]) -> Vec<String> {
    items.iter().map(|s| s.to_string()).collect()
}

fn stages_of(spec: &PipelineSpec) -> Vec<Vec<String>> {
    let mut all = Vec::new();
    for i in 0..spec.len() {
        all.push(spec.stage(i).unwrap().tokens().clone());
    }
    all
}

#[test]
fn whitespace_is_the_five_ascii_separators() {
    for c in [' ', '\t', '\n', '\u{c}', '\r'] {
        assert!(is_space_char(c));
    }
    for c in ['a', '|', '"', '\u{b}', '\u{a0}', '\u{2003}', '0'] {
        assert!(!is_space_char(c));
    }
}

#[test]
fn words_are_cut_at_whitespace() {
    assert_eq!(split_words("echo hi"), strings(&["echo", "hi"]));
    assert_eq!(split_words("  tr \t a-z\nA-Z  "), strings(&["tr", "a-z", "A-Z"]));
    assert_eq!(split_words("one"), strings(&["one"]));
    assert_eq!(split_words("a\r\nb\u{c}c"), strings(&["a", "b", "c"]));
}

#[test]
fn words_of_blank_text_are_none() {
    assert_eq!(split_words(""), Vec::<String>::new());
    assert_eq!(split_words(" \t\r\n\u{c}"), Vec::<String>::new());
}

#[test]
fn words_keep_quotes_and_wide_characters() {
    assert_eq!(split_words("echo \"a b\""), strings(&["echo", "\"a", "b\""]));
    assert_eq!(split_words("größe µ\u{a0}x 日本 語"), strings(&["größe", "µ\u{a0}x", "日本", "語"]));
}

#[test]
fn pieces_keep_empty_parts() {
    assert_eq!(split("a|b", '|'), strings(&["a", "b"]));
    assert_eq!(split("a||b|", '|'), strings(&["a", "", "b", ""]));
    assert_eq!(split("|", '|'), strings(&["", ""]));
    assert_eq!(split("", '|'), strings(&[""]));
    assert_eq!(split("no delimiter", '|'), strings(&["no delimiter"]));
}

#[test]
fn pieces_count_is_delimiters_plus_one() {
    for text in ["", "|", "a|b|c", "||||", "x | y", "é|ü|日本"] {
        let pipes = text.chars().filter(|c| *c == '|').count();
        let parts = split(text, '|');
        assert_eq!(parts.len(), pipes + 1);
        assert_eq!(parts.join("|"), text);
        assert!(parts.iter().all(|p| !p.contains('|')));
    }
}

#[test]
fn pieces_by_line_feed() {
    assert_eq!(split("a | b\nc\n", '\n'), strings(&["a | b", "c", ""]));
}

#[test]
fn stage_needs_a_program() {
    assert_eq!(Stage::new(Vec::new()), Err(TokenizeError::EmptyStage));
    let stage = Stage::new(strings(&["echo", "hi"])).unwrap();
    assert_eq!(stage.program(), "echo");
    assert_eq!(stage.tokens(), &strings(&["echo", "hi"]));
}

#[test]
fn pipeline_needs_a_stage() {
    assert_eq!(PipelineSpec::new(Vec::new()), Err(TokenizeError::EmptyPipeline));
    let stage = Stage::new(strings(&["ls"])).unwrap();
    let spec = PipelineSpec::new(vec![stage]).unwrap();
    assert_eq!(spec.len(), 1);
    assert_eq!(spec.stage(0).unwrap().program(), "ls");
    assert!(spec.stage(1).is_none());
}

#[test]
fn tokenize_stage_gives_program_and_arguments() {
    let stage = tokenize_stage("tr a-z A-Z").unwrap();
    assert_eq!(stage.program(), "tr");
    assert_eq!(stage.args(), &strings(&["a-z", "A-Z"])[..]);
    assert_eq!(stage.tokens(), &strings(&["tr", "a-z", "A-Z"]));
    let bare = tokenize_stage("ls").unwrap();
    assert_eq!(bare.program(), "ls");
    assert_eq!(bare.args().len(), 0);
}

#[test]
fn tokenize_stage_rejects_blank_command() {
    assert_eq!(tokenize_stage(""), Err(TokenizeError::EmptyStage));
    assert_eq!(tokenize_stage("  \t "), Err(TokenizeError::EmptyStage));
}

#[test]
fn tokenize_two_stage_pipeline() {
    let spec = tokenize("echo hi | tr a-z A-Z").unwrap();
    assert_eq!(
        stages_of(&spec),
        vec![strings(&["echo", "hi"]), strings(&["tr", "a-z", "A-Z"])]
    );
}

#[test]
fn tokenize_gives_one_stage_per_segment() {
    for (text, n) in [("a", 1usize), ("a|b", 2), ("a b | c | d e f", 3), ("x|y|z|w|v", 5)] {
        let spec = tokenize(text).unwrap();
        assert_eq!(spec.len(), n);
        for i in 0..n {
            assert!(spec.stage(i).unwrap().tokens().len() >= 1);
        }
        assert!(spec.stage(n).is_none());
    }
}

#[test]
fn tokenize_rejects_empty_text() {
    assert_eq!(tokenize(""), Err(TokenizeError::EmptyPipeline));
}

#[test]
fn tokenize_rejects_empty_segment() {
    for text in [" ", "|", "a|", "|a", "a||b", "a | \t | b", "\n"] {
        assert_eq!(tokenize(text), Err(TokenizeError::EmptyStage), "{:?}", text);
    }
}

#[test]
fn tokenize_chain_takes_one_command_per_stage() {
    let spec = tokenize_chain(&strings(&["echo hi", "tr a-z A-Z"])).unwrap();
    assert_eq!(
        stages_of(&spec),
        vec![strings(&["echo", "hi"]), strings(&["tr", "a-z", "A-Z"])]
    );
    // A pipe inside a command is an ordinary character of its token.
    let spec = tokenize_chain(&strings(&["echo a|b"])).unwrap();
    assert_eq!(stages_of(&spec), vec![strings(&["echo", "a|b"])]);
}

#[test]
fn tokenize_chain_rejects_no_command_and_blank_command() {
    assert_eq!(tokenize_chain(&Vec::new()), Err(TokenizeError::EmptyPipeline));
    assert_eq!(tokenize_chain(&strings(&["ls", " "])), Err(TokenizeError::EmptyStage));
    assert_eq!(tokenize_chain(&strings(&[""])), Err(TokenizeError::EmptyStage));
}
