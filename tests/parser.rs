use rhiz::ast::{parse_rhiz_program, RhizValue};
use rhiz::parser::{ParseError, RhizParser, Rule};

#[test]
fn test_parse_values() {
    let example_src = r#"(Once there was) (a "way" to get "back home")"#;
    let expected = RhizValue::Program(vec![
        RhizValue::SExpr(vec![
            RhizValue::Symbol("Once".to_owned()),
            RhizValue::Symbol("there".to_owned()),
            RhizValue::Symbol("was".to_owned()),
        ]),
        RhizValue::SExpr(vec![
            RhizValue::Symbol("a".to_owned()),
            RhizValue::String("way".to_owned()),
            RhizValue::Symbol("to".to_owned()),
            RhizValue::Symbol("get".to_owned()),
            RhizValue::String("back home".to_owned()),
        ]),
    ]);
    assert_eq!(
        parse_rhiz_program(example_src).expect("Failed to prase example program"),
        expected
    );
}

#[test]
fn test_parse_empty_sexpr() {
    let src = "()";
    RhizParser::parse(Rule::SExpr, src).expect("Expected to parse an empty sexpr");
}

#[test]
fn test_parse_symbol() {
    let ok_cases = ["asdf", "JklL)", "x1 ", "kebab-case\n", "-l"];
    for case in &ok_cases {
        let msg = format!("Expected '{}' to parse to a symbol", case);
        RhizParser::parse(Rule::Symbol, case).expect(&msg);
    }
}

#[test]
fn test_parse_sexpr() {
    let ok_cases = ["()", "(())", "(asdf jkl)", "(asdf (jkl semi) colon)"];
    for case in &ok_cases {
        let msg = format!("Expected '{}' to parse to a sexpr", case);
        RhizParser::parse(Rule::SExpr, case).expect(&msg);
    }
    let err_cases = ["", "(", "(()", "asdf"];
    for case in &err_cases {
        let msg = format!("Expected '{}' to not parse to a sexpr", &case);
        let parsed = RhizParser::parse(Rule::SExpr, case);
        assert!(parsed.is_err(), "{}", msg);
    }
}

#[test]
fn test_parse_program() {
    let ok_cases = ["", "()", "()()", "(())", "()\n()\n"];
    for case in &ok_cases {
        let msg = format!("Expected '{}' to parse to a program", case);
        RhizParser::parse(Rule::File, case).expect(&msg);
    }
    let err_cases = ["(()", "())", "asdf()", "()asdf"];
    for case in &err_cases {
        let msg = format!("Expected '{}' to not parse to a program", case);
        let parsed = RhizParser::parse(Rule::File, case);
        assert!(parsed.is_err(), "{}", msg);
    }
}

#[test]
fn symbol_rule_reads_only_the_symbol() {
    assert_eq!(
        RhizParser::parse(Rule::Symbol, "JklL)"),
        Ok(RhizValue::Symbol("JklL".to_owned()))
    );
    assert_eq!(
        RhizParser::parse(Rule::Symbol, "kebab-case\n"),
        Ok(RhizValue::Symbol("kebab-case".to_owned()))
    );
    assert_eq!(RhizParser::parse(Rule::Symbol, "1abc"), Err(ParseError::UnexpectedChar(0)));
    assert_eq!(RhizParser::parse(Rule::Symbol, ""), Err(ParseError::UnexpectedEnd(0)));
}

#[test]
fn string_rule_has_no_escapes() {
    assert_eq!(
        RhizParser::parse(Rule::String, r#""a b\" c"#),
        Ok(RhizValue::String(r"a b\".to_owned()))
    );
    assert_eq!(
        RhizParser::parse(Rule::String, "\"héllo\""),
        Ok(RhizValue::String("héllo".to_owned()))
    );
}

#[test]
fn parse_error_offsets() {
    assert_eq!(parse_rhiz_program("(()"), Err(ParseError::UnclosedParen(0)));
    assert_eq!(parse_rhiz_program("())"), Err(ParseError::UnexpectedChar(2)));
    assert_eq!(parse_rhiz_program("asdf()"), Err(ParseError::UnexpectedChar(0)));
    assert_eq!(parse_rhiz_program("()asdf"), Err(ParseError::UnexpectedChar(2)));
    assert_eq!(parse_rhiz_program("(a \"bc)"), Err(ParseError::UnterminatedString(3)));
    assert_eq!(parse_rhiz_program("(snake_case)"), Err(ParseError::UnexpectedChar(6)));
    assert_eq!(parse_rhiz_program("(9lives)"), Err(ParseError::UnexpectedChar(1)));
    assert_eq!(parse_rhiz_program("\"top\""), Err(ParseError::UnexpectedChar(0)));
}

#[test]
fn parse_whitespace_and_adjacency() {
    let parsed = parse_rhiz_program(" \t(a(b)\"c\"d)\r\n").unwrap();
    let expected = RhizValue::Program(vec![RhizValue::SExpr(vec![
        RhizValue::Symbol("a".to_owned()),
        RhizValue::SExpr(vec![RhizValue::Symbol("b".to_owned())]),
        RhizValue::String("c".to_owned()),
        RhizValue::Symbol("d".to_owned()),
    ])]);
    assert_eq!(parsed, expected);
    assert_eq!(parse_rhiz_program(""), Ok(RhizValue::Program(vec![])));
}

#[test]
fn parse_error_messages() {
    assert_eq!(
        ParseError::UnexpectedChar(12).message(),
        "unexpected character at offset 12"
    );
    assert_eq!(
        ParseError::UnclosedParen(0).message(),
        "unclosed parenthesis opened at offset 0"
    );
    assert_eq!(
        ParseError::UnterminatedString(305).message(),
        "unterminated string starting at offset 305"
    );
    assert_eq!(
        ParseError::UnexpectedEnd(7).message(),
        "unexpected end of input at offset 7"
    );
}

#[test]
fn render_values() {
    let v = RhizValue::SExpr(vec![
        RhizValue::Symbol("exec".to_owned()),
        RhizValue::String("a b".to_owned()),
    ]);
    assert_eq!(v.render(), "exec \"a b\" ");
    assert_eq!(RhizValue::String("x".to_owned()).render(), "\"x\"");
    assert_eq!(RhizValue::Symbol("x".to_owned()).render(), "x");
}
