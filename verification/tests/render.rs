use std::cell::RefCell;
use yaak::error::{Error, ParseErrorKind};
use yaak::json::{JsonEntry, JsonValue};
use yaak::models::{
    Environment, EnvironmentVariable, GrpcRequest, HttpRequest, HttpRequestHeader,
    HttpUrlParameter, WebsocketRequest,
};
use yaak::parser::parse_template;
use yaak::render::{
    render_grpc_request, render_http_request, render_json_value, render_template,
    render_websocket_request,
};
use yaak::render_json::render_json_value_raw;
use yaak::renderer::{
    finish_call, lookup_variable, parse_and_render, plan_tag, render, resolve_arg,
    RenderErrorBehavior, RenderOptions, TagPlan, TemplateCallback,
};
use yaak::tokens::{FnArg, Token, Tokens, Val};
use yaak::transform::transform_args;
use yaak::variables::{add_variable_to_map, make_vars_hashmap, TextMap};

const THROW: RenderOptions = RenderOptions { error_behavior: RenderErrorBehavior::Throw };
const SILENT: RenderOptions = RenderOptions { error_behavior: RenderErrorBehavior::Silent };

fn variable(name: &str, value: &str, enabled: bool) -> EnvironmentVariable {
    EnvironmentVariable { enabled, name: name.to_string(), value: value.to_string(), id: None }
}

fn environment(name: &str, variables: Vec<EnvironmentVariable>) -> Environment {
    Environment {
        id: format!("ev_{}", name),
        workspace_id: "wk_1".to_string(),
        created_at: 0,
        updated_at: 0,
        name: name.to_string(),
        public: false,
        parent_model: "workspace".to_string(),
        parent_id: None,
        variables,
        color: None,
    }
}

fn table(pairs: &[(&str, &str)]) -> TextMap {
    make_vars_hashmap(vec![environment(
        "t",
        pairs.iter().map(|(n, v)| variable(n, v, true)).collect(),
    )])
}

/// Answers `upper(text: ..)` with the text in upper case, `join(a: .., b: ..)`
/// with both texts, fails on `fail()`, and notes every call.
struct Recorder {
    calls: RefCell<Vec<String>>,
}

impl Recorder {
    fn new() -> Self {
        Recorder { calls: RefCell::new(Vec::new()) }
    }

    fn calls(&self) -> Vec<String> {
        self.calls.borrow().clone()
    }
}

impl TemplateCallback for Recorder {
    fn run(&self, fn_name: &str, args: TextMap) -> Result<String, Error> {
        let get = |k: &str| args.get(k).cloned().unwrap_or_else(|| "<none>".to_string());
        match fn_name {
            "upper" => {
                self.calls.borrow_mut().push(format!("upper({})", get("text")));
                Ok(get("text").to_uppercase())
            }
            "join" => {
                self.calls.borrow_mut().push(format!("join({},{})", get("a"), get("b")));
                Ok(format!("{}{}", get("a"), get("b")))
            }
            "count" => {
                self.calls.borrow_mut().push("count".to_string());
                Ok(args.len().to_string())
            }
            other => {
                self.calls.borrow_mut().push(other.to_string());
                Err(Error::RenderError(format!("no function {}", other)))
            }
        }
    }

    fn transform_arg(&self, fn_name: &str, arg_name: &str, arg_value: &str) -> Result<String, Error> {
        self.calls.borrow_mut().push(format!("{}.{}={}", fn_name, arg_name, arg_value));
        if arg_value == "bad" {
            Err(Error::RenderError("bad value".to_string()))
        } else if fn_name == "secret" {
            Ok(format!("<{}>", arg_value))
        } else {
            Ok(arg_value.to_string())
        }
    }
}

#[test]
fn more_specific_environment_overrides() {
    let folder = environment("folder", vec![variable("x", "1", true)]);
    let base = environment("base", vec![variable("x", "2", true), variable("y", "3", true)]);
    let vars = make_vars_hashmap(vec![folder, base]);
    assert_eq!(vars.len(), 2);
    assert_eq!(vars.get("x").map(|s| s.as_str()), Some("1"));
    assert_eq!(vars.get("y").map(|s| s.as_str()), Some("3"));
}

#[test]
fn disabled_and_empty_variables_are_left_out() {
    let folder = environment(
        "folder",
        vec![variable("x", "1", false), variable("y", "", true), variable("z", "", false)],
    );
    let base = environment("base", vec![variable("x", "2", true)]);
    let vars = make_vars_hashmap(vec![folder, base]);
    assert_eq!(vars.get("x").map(|s| s.as_str()), Some("2"));
    assert!(vars.get("y").is_none());
    assert!(vars.get("z").is_none());
    let only = make_vars_hashmap(vec![environment("only", vec![variable("a", "v", false)])]);
    assert_eq!(only.len(), 0);
    assert_eq!(parse_and_render("[${[ a ]}]", &only, &Recorder::new(), &SILENT), Ok("[]".to_string()));
    assert_eq!(
        parse_and_render("[${[ a ]}]", &only, &Recorder::new(), &THROW),
        Err(Error::VariableNotFound("a".to_string()))
    );
}

#[test]
fn last_entry_of_a_name_wins_inside_an_environment() {
    let vars = make_vars_hashmap(vec![environment(
        "e",
        vec![variable("x", "1", true), variable("x", "2", true), variable("x", "3", false)],
    )]);
    assert_eq!(vars.get("x").map(|s| s.as_str()), Some("2"));
    let more = add_variable_to_map(vars, &vec![variable("x", "9", true), variable("w", "8", true)]);
    assert_eq!(more.get("x").map(|s| s.as_str()), Some("9"));
    assert_eq!(more.get("w").map(|s| s.as_str()), Some("8"));
    assert_eq!(make_vars_hashmap(vec![]).len(), 0);
}

#[test]
fn renders_text_and_variables() {
    let vars = table(&[("host", "example.com"), ("port", "8080")]);
    let cb = Recorder::new();
    assert_eq!(
        parse_and_render("http://${[ host ]}:${[port]}/x", &vars, &cb, &THROW),
        Ok("http://example.com:8080/x".to_string())
    );
    assert!(cb.calls().is_empty());
}

#[test]
fn escaped_marker_is_rendered_as_the_marker() {
    let vars = table(&[("x", "1")]);
    assert_eq!(
        parse_and_render(r#"\${[ x ]} is ${[ x ]}"#, &vars, &Recorder::new(), &THROW),
        Ok("${[ x ]} is 1".to_string())
    );
}

#[test]
fn missing_variable_fails_under_throw() {
    let vars = table(&[("a", "1")]);
    let cb = Recorder::new();
    assert_eq!(
        parse_and_render("${[ a ]}-${[ nope ]}-${[ upper(text: \"x\") ]}", &vars, &cb, &THROW),
        Err(Error::VariableNotFound("nope".to_string()))
    );
    assert!(cb.calls().is_empty());
}

#[test]
fn missing_variable_is_empty_under_silent() {
    let vars = table(&[("a", "1")]);
    assert_eq!(
        parse_and_render("${[ a ]}-${[ nope ]}-", &vars, &Recorder::new(), &SILENT),
        Ok("1--".to_string())
    );
}

#[test]
fn calls_functions_in_the_order_of_the_source() {
    let vars = table(&[("who", "world")]);
    let cb = Recorder::new();
    assert_eq!(
        parse_and_render(
            r#"${[ upper(text: "a") ]} ${[ join(a: "hello ", b: who) ]} ${[ upper(text: who) ]}"#,
            &vars,
            &cb,
            &THROW
        ),
        Ok("A hello world WORLD".to_string())
    );
    assert_eq!(cb.calls(), vec!["upper(a)", "join(hello ,world)", "upper(world)"]);
}

#[test]
fn a_function_that_fails_ends_the_pass_under_throw() {
    let vars = table(&[]);
    let cb = Recorder::new();
    assert_eq!(
        parse_and_render(r#"a${[ fail() ]}b${[ upper(text: "x") ]}"#, &vars, &cb, &THROW),
        Err(Error::RenderError("no function fail".to_string()))
    );
    assert_eq!(cb.calls(), vec!["fail"]);
}

#[test]
fn a_function_that_fails_is_empty_under_silent() {
    let vars = table(&[]);
    let cb = Recorder::new();
    assert_eq!(
        parse_and_render(r#"a${[ fail() ]}b${[ upper(text: "x") ]}"#, &vars, &cb, &SILENT),
        Ok("abX".to_string())
    );
    assert_eq!(cb.calls(), vec!["fail", "upper(x)"]);
}

#[test]
fn missing_argument_variable_follows_the_policy() {
    let vars = table(&[]);
    let cb = Recorder::new();
    assert_eq!(
        parse_and_render("${[ upper(text: nope) ]}", &vars, &cb, &THROW),
        Err(Error::VariableNotFound("nope".to_string()))
    );
    assert!(cb.calls().is_empty());
    assert_eq!(
        parse_and_render("[${[ join(a: nope, b: \"x\") ]}]", &vars, &cb, &SILENT),
        Ok("[x]".to_string())
    );
    assert_eq!(cb.calls(), vec!["join(,x)"]);
}

#[test]
fn later_argument_of_a_name_wins() {
    let cb = Recorder::new();
    assert_eq!(
        parse_and_render(r#"${[ count(a: "1", a: "2", b: "3") ]}"#, &table(&[]), &cb, &THROW),
        Ok("2".to_string())
    );
    assert_eq!(
        parse_and_render(r#"${[ upper(text: "a", text: "b") ]}"#, &table(&[]), &cb, &THROW),
        Ok("B".to_string())
    );
}

#[test]
fn parse_error_is_returned_before_any_call() {
    let cb = Recorder::new();
    assert_eq!(
        parse_and_render(r#"${[ upper(text: "x") ]} ${[ oops"#, &table(&[]), &cb, &THROW),
        Err(Error::ParseError(ParseErrorKind::UnterminatedTag))
    );
    assert_eq!(
        parse_and_render("${[ oops", &table(&[]), &cb, &SILENT),
        Err(Error::ParseError(ParseErrorKind::UnterminatedTag))
    );
    assert!(cb.calls().is_empty());
}

#[test]
fn renders_given_tokens() {
    let tokens = Tokens {
        tokens: vec![
            Token::Raw { text: "${[ raw ]} ".to_string() },
            Token::Tag { val: Val::Str { text: "lit".to_string() }, source: String::new() },
            Token::Tag { val: Val::Var { name: "v".to_string() }, source: String::new() },
        ],
    };
    assert_eq!(render(&tokens, &table(&[("v", "!")]), &Recorder::new(), &THROW), Ok("${[ raw ]} lit!".to_string()));
}

#[test]
fn a_call_as_argument_follows_the_policy() {
    let nested = Val::Fn { name: "g".to_string(), args: vec![] };
    let vars = table(&[]);
    assert_eq!(
        resolve_arg(&nested, &vars, &THROW),
        Err(Error::RenderError("a function call cannot be the argument of a function".to_string()))
    );
    assert_eq!(resolve_arg(&nested, &vars, &SILENT), Ok(String::new()));
    assert_eq!(resolve_arg(&Val::Str { text: "s".to_string() }, &vars, &THROW), Ok("s".to_string()));
}

#[test]
fn plans_a_tag() {
    let vars = table(&[("v", "1")]);
    match plan_tag(&Val::Var { name: "v".to_string() }, &vars, &THROW) {
        Ok(TagPlan::Text(t)) => assert_eq!(t, "1"),
        _ => panic!("expected a text"),
    }
    let val = Val::Fn {
        name: "f".to_string(),
        args: vec![
            FnArg { name: "a".to_string(), value: Val::Var { name: "v".to_string() } },
            FnArg { name: "b".to_string(), value: Val::Str { text: "2".to_string() } },
        ],
    };
    match plan_tag(&val, &vars, &THROW) {
        Ok(TagPlan::Call { name, args }) => {
            assert_eq!(name, "f");
            assert_eq!(args.len(), 2);
            assert_eq!(args.get("a").map(|s| s.as_str()), Some("1"));
            assert_eq!(args.get("b").map(|s| s.as_str()), Some("2"));
        }
        _ => panic!("expected a call"),
    }
    assert_eq!(lookup_variable("w", &vars, &SILENT), Ok(String::new()));
    assert_eq!(lookup_variable("w", &vars, &THROW), Err(Error::VariableNotFound("w".to_string())));
}

#[test]
fn finishes_a_call() {
    assert_eq!(finish_call(Ok("x".to_string()), &THROW), Ok("x".to_string()));
    assert_eq!(finish_call(Ok("x".to_string()), &SILENT), Ok("x".to_string()));
    let failed = || Err(Error::RenderError("e".to_string()));
    assert_eq!(finish_call(failed(), &THROW), failed());
    assert_eq!(finish_call(failed(), &SILENT), Ok(String::new()));
}

fn s(text: &str) -> JsonValue {
    JsonValue::String(text.to_string())
}

fn entry(key: &str, value: JsonValue) -> JsonEntry {
    JsonEntry { key: key.to_string(), value }
}

#[test]
fn renders_only_the_strings_of_a_json_value() {
    let value = JsonValue::Object(vec![
        entry("text", s("${[ a ]}!")),
        entry("${[ a ]}", JsonValue::Number("1.50".to_string())),
        entry("flag", JsonValue::Bool(true)),
        entry("nothing", JsonValue::Null),
        entry(
            "list",
            JsonValue::Array(vec![s("${[ upper(text: a) ]}"), JsonValue::Array(vec![]), s("plain")]),
        ),
    ]);
    let want = JsonValue::Object(vec![
        entry("text", s("1!")),
        entry("${[ a ]}", JsonValue::Number("1.50".to_string())),
        entry("flag", JsonValue::Bool(true)),
        entry("nothing", JsonValue::Null),
        entry("list", JsonValue::Array(vec![s("1"), JsonValue::Array(vec![]), s("plain")])),
    ]);
    let cb = Recorder::new();
    assert_eq!(render_json_value_raw(value.clone(), &table(&[("a", "1")]), &cb, &THROW), Ok(want.clone()));
    assert_eq!(cb.calls(), vec!["upper(1)"]);
    assert_eq!(value.clone(), value);
    let chain = vec![environment("e", vec![variable("a", "1", true)])];
    assert_eq!(render_json_value(value, chain, &cb, &THROW), Ok(want));
}

#[test]
fn first_failing_string_of_a_json_value_ends_the_pass() {
    let value = JsonValue::Array(vec![s("${[ upper(text: \"a\") ]}"), s("${[ nope ]}"), s("${[ fail() ]}")]);
    let cb = Recorder::new();
    assert_eq!(
        render_json_value_raw(value.clone(), &table(&[]), &cb, &THROW),
        Err(Error::VariableNotFound("nope".to_string()))
    );
    assert_eq!(cb.calls(), vec!["upper(a)"]);
    assert_eq!(
        render_json_value_raw(value, &table(&[]), &cb, &SILENT),
        Ok(JsonValue::Array(vec![s("A"), s(""), s("")]))
    );
}

#[test]
fn renders_a_template_against_a_chain() {
    let chain = vec![
        environment("folder", vec![variable("x", "1", true)]),
        environment("base", vec![variable("x", "2", true), variable("y", "3", true)]),
    ];
    assert_eq!(render_template("${[x]}${[y]}", chain, &Recorder::new(), &THROW), Ok("13".to_string()));
}

fn header(name: &str, value: &str) -> HttpRequestHeader {
    HttpRequestHeader { enabled: true, name: name.to_string(), value: value.to_string(), id: Some("h".to_string()) }
}

fn parameter(name: &str, value: &str) -> HttpUrlParameter {
    HttpUrlParameter { enabled: false, name: name.to_string(), value: value.to_string(), id: None }
}

fn http_request() -> HttpRequest {
    HttpRequest {
        id: "rq_1".to_string(),
        workspace_id: "wk_1".to_string(),
        folder_id: Some("fl_1".to_string()),
        updated_at: 7,
        name: "${[ a ]} stays".to_string(),
        method: "POST".to_string(),
        url: "https://${[ host ]}/:id".to_string(),
        url_parameters: vec![parameter(":id", "${[ a ]}"), parameter("${[ upper(text: \"q\") ]}", "2")],
        headers: vec![header("X-${[ a ]}", "${[ upper(text: \"h\") ]}")],
        body: vec![entry("text", s("${[ upper(text: \"b\") ]}")), entry("n", JsonValue::Number("1".to_string()))],
        body_type: Some("application/json".to_string()),
        authentication: vec![entry("token", s("${[ upper(text: \"t\") ]}"))],
        authentication_type: None,
    }
}

fn chain() -> Vec<Environment> {
    vec![environment("e", vec![variable("a", "1", true), variable("host", "example.com", true)])]
}

#[test]
fn renders_the_fields_of_an_http_request_in_order() {
    let cb = Recorder::new();
    let keep = |url: String, parameters: Vec<HttpUrlParameter>| (url, parameters);
    let out = render_http_request(&http_request(), chain(), &cb, &THROW, keep).unwrap();
    let mut want = http_request();
    want.url = "https://example.com/:id".to_string();
    want.url_parameters = vec![parameter(":id", "1"), parameter("Q", "2")];
    want.headers = vec![header("X-1", "H")];
    want.body = vec![entry("text", s("B")), entry("n", JsonValue::Number("1".to_string()))];
    want.authentication = vec![entry("token", s("T"))];
    assert_eq!(out, want);
    assert_eq!(cb.calls(), vec!["upper(q)", "upper(h)", "upper(b)", "upper(t)"]);
}

#[test]
fn placeholders_are_applied_after_rendering() {
    let cb = Recorder::new();
    let apply = |url: String, mut parameters: Vec<HttpUrlParameter>| {
        let first = parameters.remove(0);
        (url.replace(&first.name, &first.value), parameters)
    };
    let out = render_http_request(&http_request(), chain(), &cb, &THROW, apply).unwrap();
    assert_eq!(out.url, "https://example.com/1");
    assert_eq!(out.url_parameters, vec![parameter("Q", "2")]);
}

#[test]
fn first_failing_field_of_a_request_ends_the_pass() {
    let cb = Recorder::new();
    let mut request = http_request();
    request.headers = vec![header("ok", "${[ nope ]}"), header("${[ upper(text: \"late\") ]}", "")];
    let keep = |url: String, parameters: Vec<HttpUrlParameter>| (url, parameters);
    assert_eq!(
        render_http_request(&request, chain(), &cb, &THROW, keep),
        Err(Error::VariableNotFound("nope".to_string()))
    );
    assert_eq!(cb.calls(), vec!["upper(q)"]);
}

#[test]
fn renders_a_grpc_request() {
    let request = GrpcRequest {
        id: "gr_1".to_string(),
        workspace_id: "wk_1".to_string(),
        folder_id: None,
        updated_at: 1,
        name: "n".to_string(),
        service: Some("svc".to_string()),
        method: None,
        message: "${[ a ]} is not rendered".to_string(),
        url: "${[ host ]}:${[ upper(text: \"u\") ]}".to_string(),
        metadata: vec![header("${[ upper(text: \"m\") ]}", "${[ a ]}")],
        authentication: vec![entry("k", s("${[ upper(text: \"k\") ]}"))],
        authentication_type: Some("basic".to_string()),
    };
    let cb = Recorder::new();
    let out = render_grpc_request(&request, chain(), &cb, &THROW).unwrap();
    let mut want = request.clone();
    want.url = "example.com:U".to_string();
    want.metadata = vec![header("M", "1")];
    want.authentication = vec![entry("k", s("K"))];
    assert_eq!(out, want);
    assert_eq!(cb.calls(), vec!["upper(m)", "upper(k)", "upper(u)"]);
}

#[test]
fn renders_a_websocket_request() {
    let request = WebsocketRequest {
        id: "ws_1".to_string(),
        workspace_id: "wk_1".to_string(),
        folder_id: None,
        updated_at: 1,
        name: "n".to_string(),
        message: "${[ upper(text: \"m\") ]}".to_string(),
        url: "ws://${[ host ]}/${[ upper(text: \"u\") ]}".to_string(),
        headers: vec![header("a", "${[ upper(text: \"h\") ]}")],
        authentication: vec![],
        authentication_type: None,
    };
    let cb = Recorder::new();
    let out = render_websocket_request(&request, chain(), &cb, &THROW).unwrap();
    let mut want = request.clone();
    want.url = "ws://example.com/U".to_string();
    want.message = "M".to_string();
    want.headers = vec![header("a", "H")];
    assert_eq!(out, want);
    assert_eq!(cb.calls(), vec!["upper(h)", "upper(u)", "upper(m)"]);
    let mut broken = request.clone();
    broken.message = "${[ x".to_string();
    assert_eq!(
        render_websocket_request(&broken, chain(), &cb, &SILENT),
        Err(Error::ParseError(ParseErrorKind::UnterminatedTag))
    );
}

#[test]
fn transform_rewrites_literal_arguments_only() {
    let source = r#"a ${[x]} ${[  secret(value:"p",  other: v) ]} ${[ plain( a: "same" ) ]}"#;
    let tokens = parse_template(source).unwrap();
    let cb = Recorder::new();
    let out = transform_args(tokens, &cb).unwrap();
    assert_eq!(
        out.to_string(),
        r#"a ${[x]} ${[ secret(value: "<p>", other: v) ]} ${[ plain( a: "same" ) ]}"#
    );
    assert_eq!(cb.calls(), vec!["secret.value=p", "plain.a=same"]);
}

#[test]
fn transform_stops_at_the_first_failure() {
    let tokens = parse_template(r#"${[ f(a: "ok", b: "bad", c: "late") ]}${[ g(a: "x") ]}"#).unwrap();
    let cb = Recorder::new();
    assert_eq!(transform_args(tokens, &cb), Err(Error::RenderError("bad value".to_string())));
    assert_eq!(cb.calls(), vec!["f.a=ok", "f.b=bad"]);
}
