use yaak::error::{Error, ParseErrorKind};
use yaak::parser::{parse_template, Parser};
use yaak::tokens::{FnArg, Token, Tokens, Val};

fn raw(text: &str) -> Token {
    Token::Raw { text: text.to_string() }
}

fn var(name: &str) -> Val {
    Val::Var { name: name.to_string() }
}

fn lit(text: &str) -> Val {
    Val::Str { text: text.to_string() }
}

fn arg(name: &str, value: Val) -> FnArg {
    FnArg { name: name.to_string(), value }
}

fn call(name: &str, args: Vec<FnArg>) -> Val {
    Val::Fn { name: name.to_string(), args }
}

fn tag(val: Val, source: &str) -> Token {
    Token::Tag { val, source: source.to_string() }
}

fn parse_error(template: &str) -> ParseErrorKind {
    match parse_template(template) {
        Err(Error::ParseError(kind)) => kind,
        other => panic!("expected a parse error, got {:?}", other),
    }
}

#[test]
fn parses_text_without_tags() {
    assert_eq!(parse_template("hello").unwrap().tokens, vec![raw("hello")]);
    assert_eq!(parse_template("").unwrap().tokens, vec![]);
    assert_eq!(parse_template("${ [x]} $ {[").unwrap().tokens, vec![raw("${ [x]} $ {[")]);
}

#[test]
fn parses_a_variable_between_text() {
    assert_eq!(
        parse_template("hello ${[ name ]}!").unwrap().tokens,
        vec![raw("hello "), tag(var("name"), "${[ name ]}"), raw("!")]
    );
}

#[test]
fn whitespace_in_a_tag_means_nothing() {
    assert_eq!(parse_template("${[x]}").unwrap().tokens, vec![tag(var("x"), "${[x]}")]);
    assert_eq!(
        parse_template("${[\n\t x_1.y-z \u{a0}]}").unwrap().tokens,
        vec![tag(var("x_1.y-z"), "${[\n\t x_1.y-z \u{a0}]}")]
    );
}

#[test]
fn parses_a_call_with_arguments() {
    let source = r#"${[ f(a: "x", b: y) ]}"#;
    assert_eq!(
        parse_template(source).unwrap().tokens,
        vec![tag(call("f", vec![arg("a", lit("x")), arg("b", var("y"))]), source)]
    );
}

#[test]
fn parses_a_call_without_arguments() {
    assert_eq!(parse_template("${[ f() ]}").unwrap().tokens, vec![tag(call("f", vec![]), "${[ f() ]}")]);
    assert_eq!(
        parse_template("${[now (  ) ]}").unwrap().tokens,
        vec![tag(call("now", vec![]), "${[now (  ) ]}")]
    );
}

#[test]
fn markers_inside_a_string_are_text() {
    let source = r#"a${[ f(a: "]} ${[ \" \\ )") ]}b"#;
    assert_eq!(
        parse_template(source).unwrap().tokens,
        vec![
            raw("a"),
            tag(call("f", vec![arg("a", lit(r#"]} ${[ " \ )"#))]), r#"${[ f(a: "]} ${[ \" \\ )") ]}"#),
            raw("b"),
        ]
    );
}

#[test]
fn escaped_marker_is_text() {
    assert_eq!(parse_template(r#"\${[ x ]}"#).unwrap().tokens, vec![raw("${[ x ]}")]);
    assert_eq!(
        parse_template(r#"a\\\${[ x ]}${[y]}"#).unwrap().tokens,
        vec![raw(r#"a\\${[ x ]}"#), tag(var("y"), "${[y]}")]
    );
}

#[test]
fn escaped_backslash_before_marker_leaves_the_tag() {
    assert_eq!(
        parse_template(r#"\\${[ x ]}"#).unwrap().tokens,
        vec![raw(r#"\\"#), tag(var("x"), "${[ x ]}")]
    );
}

#[test]
fn adjacent_tags() {
    assert_eq!(
        parse_template("${[a]}${[b]}").unwrap().tokens,
        vec![tag(var("a"), "${[a]}"), tag(var("b"), "${[b]}")]
    );
}

#[test]
fn unterminated_tag_is_an_error() {
    assert_eq!(parse_error("${["), ParseErrorKind::UnterminatedTag);
    assert_eq!(parse_error("a ${[ x"), ParseErrorKind::UnterminatedTag);
    assert_eq!(parse_error("${[ x  "), ParseErrorKind::UnterminatedTag);
    assert_eq!(parse_error("${[ f(a: x) "), ParseErrorKind::UnterminatedTag);
    assert_eq!(parse_error("${[ f(a: x) extra ]}"), ParseErrorKind::UnterminatedTag);
    assert_eq!(parse_error("${[ f() ]"), ParseErrorKind::UnterminatedTag);
}

#[test]
fn unbalanced_parentheses_are_an_error() {
    assert_eq!(parse_error("${[ f("), ParseErrorKind::UnbalancedParentheses);
    assert_eq!(parse_error("${[ f(a"), ParseErrorKind::UnbalancedParentheses);
    assert_eq!(parse_error("${[ f(a:"), ParseErrorKind::UnbalancedParentheses);
    assert_eq!(parse_error("${[ f(a: x"), ParseErrorKind::UnbalancedParentheses);
    assert_eq!(parse_error(r#"${[ f(a: "x" ]}"#), ParseErrorKind::UnbalancedParentheses);
    assert_eq!(parse_error("${[ f(a: x, "), ParseErrorKind::UnbalancedParentheses);
}

#[test]
fn unbalanced_quotes_are_an_error() {
    assert_eq!(parse_error(r#"${[ f(a: "x) ]}"#), ParseErrorKind::UnbalancedQuotes);
    assert_eq!(parse_error(r#"${[ f(a: "x\") ]}"#), ParseErrorKind::UnbalancedQuotes);
    assert_eq!(parse_error(r#"${[ f(a: "x\"#), ParseErrorKind::UnbalancedQuotes);
}

#[test]
fn invalid_separator_is_an_error() {
    assert_eq!(parse_error(r#"${[ f(a "x") ]}"#), ParseErrorKind::InvalidSeparator);
    assert_eq!(parse_error(r#"${[ f(a = "x") ]}"#), ParseErrorKind::InvalidSeparator);
    assert_eq!(parse_error(r#"${[ f(a: "x" b: y) ]}"#), ParseErrorKind::InvalidSeparator);
    assert_eq!(parse_error(r#"${[ f(a: "x"; b: y) ]}"#), ParseErrorKind::InvalidSeparator);
}

#[test]
fn invalid_name_is_an_error() {
    assert_eq!(parse_error("${[ ]}"), ParseErrorKind::InvalidName);
    assert_eq!(parse_error("${[ 9x ]}"), ParseErrorKind::InvalidName);
    assert_eq!(parse_error("${[ a b ]}"), ParseErrorKind::InvalidName);
    assert_eq!(parse_error(r#"${[ "x" ]}"#), ParseErrorKind::InvalidName);
    assert_eq!(parse_error("${[ f(: x) ]}"), ParseErrorKind::InvalidName);
    assert_eq!(parse_error("${[ f(a: x,) ]}"), ParseErrorKind::InvalidName);
    assert_eq!(parse_error("${[ é ]}"), ParseErrorKind::InvalidName);
}

#[test]
fn invalid_value_is_an_error() {
    assert_eq!(parse_error("${[ f(a: 9) ]}"), ParseErrorKind::InvalidValue);
    assert_eq!(parse_error("${[ f(a: 'x') ]}"), ParseErrorKind::InvalidValue);
    assert_eq!(parse_error("${[ f(a: g()) ]}"), ParseErrorKind::InvalidSeparator);
}

#[test]
fn error_after_a_good_tag_is_still_an_error() {
    assert_eq!(parse_error("${[ a ]} and ${[ b"), ParseErrorKind::UnterminatedTag);
}

#[test]
fn parser_object_gives_the_same_tokens() {
    let source = r#"x ${[ f(a: "1") ]} y"#;
    assert_eq!(Parser::new(source).parse(), parse_template(source));
}

#[test]
fn writing_parsed_tokens_gives_the_source_back() {
    for source in [
        "",
        "plain text",
        "${[x]}",
        "a ${[   x   ]} b ${[ f( a : \"1\" ,b:y ) ]} c",
        r#"\${[ not a tag ]} ${[ tag ]}"#,
        r#"\\${[ tag ]} \\\${[ text"#,
        r#"${[ f(a: "]} \" \\ ${[") ]}"#,
        "$${[x]}${",
        "é\u{3000}${[ v ]}ü",
        r#"a\b\\c\\\d"#,
    ] {
        let tokens = parse_template(source).unwrap();
        assert_eq!(tokens.to_string(), source);
    }
}

#[test]
fn builds_a_tag_in_the_usual_form() {
    assert_eq!(Token::tag(var("x")), tag(var("x"), "${[ x ]}"));
    let val = call("f", vec![arg("a", lit(r#"q"\"#)), arg("b", var("y"))]);
    let built = Token::tag(val);
    assert_eq!(built.to_string(), r#"${[ f(a: "q\"\\", b: y) ]}"#);
    assert_eq!(Token::tag(call("f", vec![])).to_string(), "${[ f() ]}");
    assert_eq!(Token::tag(lit("s")).to_string(), r#"${[ "s" ]}"#);
}

#[test]
fn a_built_tag_parses_to_what_it_holds() {
    let val = call("f", vec![arg("a", lit("]} \" \\ ${[")), arg("b", var("y"))]);
    let text = Token::tag(val.clone()).to_string();
    let tokens = parse_template(&text).unwrap();
    assert_eq!(tokens.tokens, vec![tag(val, &text)]);
}

#[test]
fn raw_text_is_written_escaped() {
    let tokens = Tokens { tokens: vec![raw("${[ x ]}"), tag(var("y"), "${[y]}")] };
    assert_eq!(tokens.to_string(), r#"\${[ x ]}${[y]}"#);
    assert_eq!(raw("a${[").to_string(), r#"a\${["#);
}

#[test]
fn copies_are_equal() {
    let tokens = parse_template(r#"a ${[ f(a: "1", b: c) ]}"#).unwrap();
    assert_eq!(tokens.clone(), tokens);
    let val = call("f", vec![arg("a", call("g", vec![arg("b", lit("c"))]))]);
    assert_eq!(val.clone(), val);
}

#[test]
fn error_messages() {
    assert_eq!(
        Error::ParseError(ParseErrorKind::UnterminatedTag).to_string(),
        "Parse Error: unterminated tag"
    );
    assert_eq!(
        Error::ParseError(ParseErrorKind::UnbalancedParentheses).to_string(),
        "Parse Error: unbalanced parentheses"
    );
    assert_eq!(
        Error::ParseError(ParseErrorKind::UnbalancedQuotes).to_string(),
        "Parse Error: unbalanced quotes"
    );
    assert_eq!(
        Error::ParseError(ParseErrorKind::InvalidSeparator).to_string(),
        "Parse Error: invalid argument separator"
    );
    assert_eq!(Error::ParseError(ParseErrorKind::InvalidName).to_string(), "Parse Error: invalid name");
    assert_eq!(
        Error::ParseError(ParseErrorKind::InvalidValue).to_string(),
        "Parse Error: invalid argument value"
    );
    assert_eq!(Error::VariableNotFound("x".to_string()).to_string(), "Variable not found: x");
    assert_eq!(Error::RenderError("boom".to_string()).to_string(), "Render Error: boom");
}
