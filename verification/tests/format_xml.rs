use yaak::format_xml::{format_tokens, format_xml, writeln_indented};
use yaak::xml_tokens::{parse_close_name, parse_open_name, tokenize_with_templates, XmlTok};

#[test]
fn inline_text_child() {
    let src = r#"<root><foo>this might be a string</foo><bar attr="x">ok</bar></root>"#;
    let want = r#"<root>
  <foo>this might be a string</foo>
  <bar attr="x">ok</bar>
</root>"#;
    assert_eq!(format_xml(src, "  "), want);
}

#[test]
fn works_when_nested() {
    let src = r#"<root><foo><b>bold</b></foo></root>"#;
    let want = r#"<root>
  <foo>
    <b>bold</b>
  </foo>
</root>"#;
    assert_eq!(format_xml(src, "  "), want);
}

#[test]
fn trims_and_keeps_nonempty() {
    let src = "<root><foo>  hi  </foo></root>";
    let want = "<root>\n  <foo>hi</foo>\n</root>";
    assert_eq!(format_xml(src, "  "), want);
}

#[test]
fn attributes_inline_text_child() {
    let src = r#"<root><item id="42" class='a b'>value</item></root>"#;
    let want = r#"<root>
  <item id="42" class='a b'>value</item>
</root>"#;
    assert_eq!(format_xml(src, "  "), want);
}

#[test]
fn attributes_with_irregular_spacing_preserved() {
    let src = r#"<root><a   x = "1"   y='2'    >t</a></root>"#;
    let want = r#"<root>
  <a   x = "1"   y='2'    >t</a>
</root>"#;
    assert_eq!(format_xml(src, "  "), want);
}

#[test]
fn self_closing_with_attributes() {
    let src =
        r#"<root><img src="x" alt='hello &quot;world&quot;' width="10" height="20"/></root>"#;
    let want = r#"<root>
  <img src="x" alt='hello &quot;world&quot;' width="10" height="20"/>
</root>"#;
    assert_eq!(format_xml(src, "  "), want);
}

#[test]
fn template_in_attribute_self_closing() {
    let src = r#"<root><x attr=${[ compute(1, "two") ]}/></root>"#;
    let want = r#"<root>
  <x attr=${[ compute(1, "two") ]}/>
</root>"#;
    assert_eq!(format_xml(src, "  "), want);
}

#[test]
fn attributes_and_nested_children_expand() {
    let src = r#"<root><box kind="card"><b>bold</b></box></root>"#;
    let want = r#"<root>
  <box kind="card">
    <b>bold</b>
  </box>
</root>"#;
    assert_eq!(format_xml(src, "  "), want);
}

#[test]
fn namespace_and_xml_attrs() {
    let src = r#"<root><ns:el xml:lang="en">ok</ns:el></root>"#;
    let want = r#"<root>
  <ns:el xml:lang="en">ok</ns:el>
</root>"#;
    assert_eq!(format_xml(src, "  "), want);
}

#[test]
fn mixed_quote_styles_in_attributes() {
    let src = r#"<root><a title='He said "hi"'>hello</a></root>"#;
    let want = r#"<root>
  <a title='He said "hi"'>hello</a>
</root>"#;
    assert_eq!(format_xml(src, "  "), want);
}

#[test]
fn template_tag_is_one_token_whatever_it_holds() {
    let src = "<a>${[ f(x: \"<b> </b>\n\") ]}</a>";
    let toks = tokenize_with_templates(src);
    assert_eq!(
        toks,
        vec![
            XmlTok::OpenTag { raw: "<a>".to_string(), name: "a".to_string() },
            XmlTok::Template("${[ f(x: \"<b> </b>\n\") ]}".to_string()),
            XmlTok::CloseTag { raw: "</a>".to_string(), name: "a".to_string() },
        ]
    );
    assert_eq!(format_xml(src, "\t"), "<a>\n\t${[ f(x: \"<b> </b>\n\") ]}\n</a>");
}

#[test]
fn long_template_tag_stays_on_one_line() {
    let long = format!("${{[ {} ]}}", "x".repeat(500));
    let src = format!("<r>{}</r>", long);
    assert_eq!(format_xml(&src, "  "), format!("<r>\n  {}\n</r>", long));
}

#[test]
fn unterminated_template_tag_runs_to_the_end() {
    assert_eq!(
        tokenize_with_templates("a${[ b <c>"),
        vec![XmlTok::Text("a".to_string()), XmlTok::Template("${[ b <c>".to_string())]
    );
}

#[test]
fn tokenizes_every_kind() {
    let src = "<?xml v?><!DOCTYPE x><!-- c --><![CDATA[ <d> ]]><a b='>'>t</a><e/>";
    assert_eq!(
        tokenize_with_templates(src),
        vec![
            XmlTok::ProcInst("<?xml v?>".to_string()),
            XmlTok::Doctype("<!DOCTYPE x>".to_string()),
            XmlTok::Comment("<!-- c -->".to_string()),
            XmlTok::CData("<![CDATA[ <d> ]]>".to_string()),
            XmlTok::OpenTag { raw: "<a b='>'>".to_string(), name: "a".to_string() },
            XmlTok::Text("t".to_string()),
            XmlTok::CloseTag { raw: "</a>".to_string(), name: "a".to_string() },
            XmlTok::SelfCloseTag("<e/>".to_string()),
        ]
    );
}

#[test]
fn verbatim_kinds_keep_their_depth() {
    let src = "<?xml v?><r><!-- c --><![CDATA[x]]><e/>  \n </r>";
    assert_eq!(format_xml(src, " "), "<?xml v?>\n<r>\n <!-- c -->\n <![CDATA[x]]>\n <e/>\n</r>");
}

#[test]
fn text_over_two_lines_is_not_inlined() {
    assert_eq!(format_xml("<a>x\ny</a>", "  "), "<a>\n  x\ny\n</a>");
}

#[test]
fn names_that_differ_are_not_inlined() {
    assert_eq!(format_xml("<a>x</b>", "  "), "<a>\n  x\n</b>");
}

#[test]
fn closing_tag_at_depth_zero_stays_at_zero() {
    assert_eq!(format_xml("</a><b>", "  "), "</a>\n<b>");
}

#[test]
fn empty_input_gives_empty_output() {
    assert_eq!(format_xml("", "  "), "");
    assert_eq!(format_xml("   ", "  "), "");
}

#[test]
fn unterminated_tag_ending_in_wide_character_is_no_self_closing_tag() {
    assert_eq!(
        tokenize_with_templates("<a/é"),
        vec![XmlTok::OpenTag { raw: "<a/é".to_string(), name: "a".to_string() }]
    );
    assert_eq!(tokenize_with_templates("<a/>"), vec![XmlTok::SelfCloseTag("<a/>".to_string())]);
}

#[test]
fn tag_names() {
    assert_eq!(parse_open_name("<ns:el xml:lang=\"en\">"), "ns:el");
    assert_eq!(parse_open_name("<a\u{3000}b>"), "a");
    assert_eq!(parse_open_name("<a"), "a");
    assert_eq!(parse_close_name("</ns:el>"), "ns:el");
    assert_eq!(parse_close_name("</a b"), "a b");
}

#[test]
fn writes_an_indented_line() {
    let mut out = String::from("x");
    writeln_indented(&mut out, 3, "ab", "text");
    assert_eq!(out, "xabababtext\n");
}

#[test]
fn formats_given_tokens() {
    let toks = vec![
        XmlTok::OpenTag { raw: "<a>".to_string(), name: "a".to_string() },
        XmlTok::Text(" \u{a0}hi\t".to_string()),
        XmlTok::CloseTag { raw: "</a >".to_string(), name: "a".to_string() },
    ];
    assert_eq!(format_tokens(&toks, "  "), "<a>hi</a >");
}

#[test]
fn template_inside_a_tag_belongs_to_the_tag() {
    assert_eq!(
        format_xml("<r><a b=${[ f(x: \"<>\") ]} c>t</a></r>", "  "),
        "<r>\n  <a b=${[ f(x: \"<>\") ]} c>t</a>\n</r>"
    );
    assert_eq!(
        tokenize_with_templates("<a b=${[ x > y ]}>"),
        vec![
            XmlTok::OpenTag { raw: "<a b=${[ x >".to_string(), name: "a".to_string() },
            XmlTok::Text(" y ]}>".to_string()),
        ]
    );
}
