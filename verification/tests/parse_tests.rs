use hasselc::error::ErrorKind;
use hasselc::parse::ast::{translate_errors, ParseProblem};
use hasselc::parse::unescape_string;

fn messages(kind: ErrorKind) -> Vec<String> {
    match kind {
        ErrorKind::ParseError(messages) => messages,
        other => panic!("{:?}", other),
    }
}

#[test]
fn unescape_known_escapes() {
    assert_eq!(unescape_string("say \\\"hi\\\"\\n\\tthen\\r"), "say \"hi\"\n\tthen\r");
}

#[test]
fn unescape_leaves_other_text() {
    assert_eq!(unescape_string("plain text, \\x stays"), "plain text, \\x stays");
    assert_eq!(unescape_string(""), "");
}

#[test]
fn unescape_in_order() {
    // occurrences are found from the left: the second backslash starts the escape
    assert_eq!(unescape_string("\\\\n"), "\\\n");
    assert_eq!(unescape_string("\\\\\""), "\\\"");
}

#[test]
fn translate_each_problem() {
    let source = "a = 1;\nb = $;\n";
    let problems = vec![
        ParseProblem::InvalidToken { location: 11 },
        ParseProblem::UnrecognizedToken {
            token: Some((7, "b".to_string())),
            expected: vec!["\"(\"".to_string(), "r#\"[0-9]+\"#".to_string()],
        },
        ParseProblem::UnrecognizedToken { token: None, expected: vec!["\";\"".to_string()] },
        ParseProblem::ExtraToken { extra: (0, "a".to_string()) },
        ParseProblem::User,
    ];
    let expected = vec![
        "unit.hsl:2:5: invalid token".to_string(),
        format!(
            "unit.hsl:2:1: unexpected token \"b\". Expected one of: {:?}",
            vec!["\"(\"".to_string(), "r#\"[0-9]+\"#".to_string()]
        ),
        "unit.hsl: unexpected EOF; expected: [\"\\\";\\\"\"]".to_string(),
        "unit.hsl:1:1: extra token \"a\"".to_string(),
        "()".to_string(),
    ];
    assert_eq!(messages(translate_errors("unit.hsl", source, &problems)), expected);
}

#[test]
fn translate_no_problems() {
    assert!(messages(translate_errors("u", "", &vec![])).is_empty());
}

#[test]
fn translate_empty_expected_list() {
    let problems = vec![ParseProblem::UnrecognizedToken { token: None, expected: vec![] }];
    assert_eq!(messages(translate_errors("u", "x", &problems)), vec!["u: unexpected EOF; expected: []".to_string()]);
}

#[test]
fn unescape_without_backslash_keeps_text() {
    let text = "no escapes \"here\" at all";
    assert_eq!(unescape_string(text), text);
}
