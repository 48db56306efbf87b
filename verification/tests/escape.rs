use yaak::escape::{escape_template, unescape_template};

#[test]
fn test_escape_simple() {
    let input = r#"${[foo]}"#;
    let expected = r#"\${[foo]}"#;
    assert_eq!(escape_template(input), expected);
}

#[test]
fn test_already_escaped() {
    let input = r#"\${[bar]}"#;
    let expected = r#"\${[bar]}"#;
    assert_eq!(escape_template(input), expected);
}

#[test]
fn test_double_backslash() {
    let input = r#"\\${[bar]}"#;
    let expected = r#"\\\${[bar]}"#;
    assert_eq!(escape_template(input), expected);
}

#[test]
fn test_escape_with_surrounding_text() {
    let input = r#"text ${[var]} more"#;
    let expected = r#"text \${[var]} more"#;
    assert_eq!(escape_template(input), expected);
}

#[test]
fn test_preserve_already_escaped() {
    let input = r#"already \${[escaped]}"#;
    let expected = r#"already \${[escaped]}"#;
    assert_eq!(escape_template(input), expected);
}

#[test]
fn test_multiple_occurrences() {
    let input = r#"${[one]} and ${[two]}"#;
    let expected = r#"\${[one]} and \${[two]}"#;
    assert_eq!(escape_template(input), expected);
}

#[test]
fn test_mixed_escaped_and_unescaped() {
    let input = r#"mixed \${[esc]} and ${[unesc]}"#;
    let expected = r#"mixed \${[esc]} and \${[unesc]}"#;
    assert_eq!(escape_template(input), expected);
}

#[test]
fn test_unescape_simple() {
    let input = r#"\${[foo]}"#;
    let expected = r#"${[foo]}"#;
    assert_eq!(unescape_template(input), expected);
}

#[test]
fn test_unescape_with_text() {
    let input = r#"text \${[var]} more"#;
    let expected = r#"text ${[var]} more"#;
    assert_eq!(unescape_template(input), expected);
}

#[test]
fn test_unescape_multiple() {
    let input = r#"\${[one]} and \${[two]}"#;
    let expected = r#"${[one]} and ${[two]}"#;
    assert_eq!(unescape_template(input), expected);
}

#[test]
fn test_unescape_double_backslash() {
    let input = r#"\\\${[bar]}"#;
    let expected = r#"\\${[bar]}"#;
    assert_eq!(unescape_template(input), expected);
}

#[test]
fn test_unescape_plain_text() {
    let input = r#"${[foo]}"#;
    let expected = r#"${[foo]}"#;
    assert_eq!(unescape_template(input), expected);
}

#[test]
fn escape_then_unescape_gives_the_text_back() {
    for text in [
        "",
        "plain",
        "${[a]}",
        r#"\\${[a]} and ${[b]}"#,
        "$${[${[x",
        "${",
        r#"é\\\\${[ü]}"#,
    ] {
        assert_eq!(unescape_template(&escape_template(text)), text);
    }
}

#[test]
fn escape_then_unescape_strips_an_earlier_escape() {
    let text = r#"\${[a]}"#;
    assert_eq!(unescape_template(&escape_template(text)), "${[a]}");
}

#[test]
fn escape_twice_is_escape_once() {
    for text in ["${[foo]}", r#"\${[foo]}"#, r#"\\${[a]}\${[b]}${[c]}"#, "no marker", "${[${[${["] {
        let once = escape_template(text);
        assert_eq!(escape_template(&once), once);
    }
}

#[test]
fn unescape_then_escape_gives_escaped_text_back() {
    for text in [r#"\${[a]}"#, r#"x\\\${[a]} \${[b"#, "nothing here", r#"\\"#] {
        assert_eq!(escape_template(&unescape_template(text)), text);
    }
}

#[test]
fn marker_needs_all_three_characters() {
    assert_eq!(escape_template("${"), "${");
    assert_eq!(escape_template("a$"), "a$");
    assert_eq!(unescape_template(r#"\${"#), r#"\${"#);
    assert_eq!(escape_template("${["), r#"\${["#);
    assert_eq!(unescape_template(r#"\${["#), "${[");
}
