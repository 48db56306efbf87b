use std::cell::RefCell;
use yaak::error::Error;
use yaak::events::{FormInput, PluginWindowContext, TemplateFunctionArg};
use yaak::native_template_functions::{
    get_arg, keychain_value, native_function, native_template_functions, secure_payload, secure_stored, secure_value,
    template_function_keychain_run, template_function_keyring, template_function_secure,
    template_function_secure_run, template_function_secure_transform_arg,
    try_template_function_secure_run, KeychainLookup, NativeFunction,
};
use yaak::renderer::TemplateCallback;
use yaak::secure_templates::{
    collect_literal_args, decrypt_secure_template_function, encrypt_secure_template_function,
    payload_is_base64, template_values_decodable, try_decrypt_secure_template_function,
    try_encrypt_secure_template_function,
};
use yaak::tokens::{FnArg, Val};
use yaak::variables::TextMap;

fn window(workspace_id: Option<&str>) -> PluginWindowContext {
    PluginWindowContext::Label {
        label: "main".to_string(),
        workspace_id: workspace_id.map(|s| s.to_string()),
    }
}

fn args(pairs: &[(&str, &str)]) -> TextMap {
    collect_literal_args(
        &pairs
            .iter()
            .map(|(n, v)| FnArg { name: n.to_string(), value: Val::Str { text: v.to_string() } })
            .collect(),
    )
}

fn scramble(workspace_id: String, bytes: Vec<u8>) -> Result<Vec<u8>, String> {
    let key = workspace_id.len() as u8 + 1;
    Ok(bytes.into_iter().map(|b| b ^ key).collect())
}

fn same(_workspace_id: String, bytes: Vec<u8>) -> Result<Vec<u8>, String> {
    Ok(bytes)
}

fn refuse(_workspace_id: String, _bytes: Vec<u8>) -> Result<Vec<u8>, String> {
    Err("no key".to_string())
}

fn render_error(message: &str) -> Error {
    Error::RenderError(message.to_string())
}

#[test]
fn secure_decodes_and_decrypts_its_value() {
    let ctx = window(Some("wk_1"));
    assert_eq!(
        template_function_secure_run(same, &args(&[("value", "YENC_aGVsbG8=")]), &ctx),
        Ok("hello".to_string())
    );
    assert_eq!(
        template_function_secure_run(same, &args(&[("value", "YENC_")]), &ctx),
        Ok(String::new())
    );
}

#[test]
fn secure_hands_workspace_and_bytes_to_decrypt() {
    let seen = RefCell::new(Vec::new());
    let decrypt = |workspace_id: String, bytes: Vec<u8>| {
        seen.borrow_mut().push((workspace_id, bytes.clone()));
        Ok(bytes)
    };
    let r = template_function_secure_run(decrypt, &args(&[("value", "YENC_AAEC")]), &window(Some("wk_9")));
    assert_eq!(r, Ok("\u{0}\u{1}\u{2}".to_string()));
    assert_eq!(seen.into_inner(), vec![("wk_9".to_string(), vec![0u8, 1, 2])]);
}

#[test]
fn secure_without_value_is_empty() {
    assert_eq!(
        template_function_secure_run(refuse, &args(&[("other", "x")]), &window(Some("wk_1"))),
        Ok(String::new())
    );
}

#[test]
fn secure_needs_a_workspace() {
    for ctx in [window(None), PluginWindowContext::NoWindow] {
        assert_eq!(
            template_function_secure_run(same, &args(&[("value", "YENC_aGVsbG8=")]), &ctx),
            Err(render_error("workspace_id missing from window context"))
        );
        assert_eq!(
            template_function_secure_transform_arg(same, &ctx, "value", "plain"),
            Err(render_error("workspace_id missing from window context"))
        );
        assert_eq!(
            template_function_secure_transform_arg(same, &ctx, "other", "plain"),
            Ok("plain".to_string())
        );
    }
}

#[test]
fn secure_refuses_a_value_that_is_not_encrypted() {
    for value in ["hello", "", "yenc_aGVsbG8=", "YENC"] {
        assert_eq!(
            template_function_secure_run(same, &args(&[("value", value)]), &window(Some("wk_1"))),
            Err(render_error("Could not decrypt non-encrypted value"))
        );
    }
}

#[test]
fn secure_reports_a_failure_of_decrypting() {
    assert_eq!(
        template_function_secure_run(refuse, &args(&[("value", "YENC_aGVsbG8=")]), &window(Some("wk_1"))),
        Err(render_error("no key"))
    );
}

#[test]
fn secure_reports_bytes_that_are_not_utf8() {
    match template_function_secure_run(same, &args(&[("value", "YENC_/w==")]), &window(Some("wk_1"))) {
        Err(Error::RenderError(message)) => assert!(message.contains("utf-8"), "{}", message),
        other => panic!("expected an error, got {:?}", other),
    }
    assert_eq!(secure_value(Ok(vec![0xc3, 0xa9])), Ok("é".to_string()));
    assert_eq!(secure_value(Err("e".to_string())), Err(render_error("e")));
}

#[test]
fn secure_payload_that_is_not_base64_is_told_apart() {
    let ctx = window(Some("wk_1"));
    assert_eq!(try_template_function_secure_run(same, &args(&[("value", "YENC_***")]), &ctx), None);
    assert_eq!(try_template_function_secure_run(same, &args(&[("value", "YENC_aGVsbG8")]), &ctx), None);
    assert_eq!(
        try_template_function_secure_run(same, &args(&[("value", "YENC_aGVsbG8=")]), &ctx),
        Some(Ok("hello".to_string()))
    );
    assert_eq!(
        try_template_function_secure_run(same, &args(&[("value", "plain")]), &ctx),
        Some(Err(render_error("Could not decrypt non-encrypted value")))
    );
    assert!(payload_is_base64(&args(&[("value", "plain")]), &ctx));
    assert!(payload_is_base64(&args(&[("value", "YENC_***")]), &window(None)));
    assert!(!payload_is_base64(&args(&[("value", "YENC_***")]), &ctx));
}

#[test]
fn secure_payload_is_what_stands_behind_the_prefix() {
    assert_eq!(
        secure_payload(&args(&[("value", "YENC_abc")]), &window(Some("wk_1"))),
        Ok(Some(("wk_1".to_string(), "abc".to_string())))
    );
    assert_eq!(secure_payload(&args(&[]), &window(Some("wk_1"))), Ok(None));
}

#[test]
fn transform_encrypts_and_run_decrypts() {
    let ctx = window(Some("wk_1"));
    for plaintext in ["hello", "p", "héllo wörld ${[ x ]}", "yenc_ lower case prefix"] {
        let stored = template_function_secure_transform_arg(scramble, &ctx, "value", plaintext).unwrap();
        assert!(stored.starts_with("YENC_"));
        assert_ne!(stored, plaintext);
        assert_eq!(
            template_function_secure_run(scramble, &args(&[("value", &stored)]), &ctx),
            Ok(plaintext.to_string())
        );
    }
}

#[test]
fn transform_stores_the_bytes_in_base64() {
    assert_eq!(
        template_function_secure_transform_arg(same, &window(Some("wk_1")), "value", "hello"),
        Ok("YENC_aGVsbG8=".to_string())
    );
    assert_eq!(secure_stored(Ok(vec![0xff])), Ok("YENC_/w==".to_string()));
    assert_eq!(secure_stored(Ok(vec![])), Ok("YENC_".to_string()));
    assert_eq!(secure_stored(Err("e".to_string())), Err(render_error("e")));
}

#[test]
fn transform_twice_changes_nothing_the_second_time() {
    let ctx = window(Some("wk_1"));
    let once = template_function_secure_transform_arg(scramble, &ctx, "value", "secret").unwrap();
    let twice = template_function_secure_transform_arg(refuse, &ctx, "value", &once).unwrap();
    assert_eq!(twice, once);
}

#[test]
fn transform_keeps_what_is_not_a_plain_value() {
    let ctx = window(Some("wk_1"));
    assert_eq!(template_function_secure_transform_arg(refuse, &ctx, "value", ""), Ok(String::new()));
    assert_eq!(
        template_function_secure_transform_arg(refuse, &ctx, "name", "plain"),
        Ok("plain".to_string())
    );
    assert_eq!(
        template_function_secure_transform_arg(refuse, &ctx, "value", "plain"),
        Err(render_error("no key"))
    );
}

#[test]
fn keychain_missing_entry_is_empty() {
    let lookup = |_service: String, _account: String| KeychainLookup::NoEntry;
    assert_eq!(
        template_function_keychain_run(lookup, &args(&[("service", "s"), ("account", "a")])),
        Ok(String::new())
    );
    assert_eq!(keychain_value(KeychainLookup::NoEntry), Ok(String::new()));
    assert_eq!(keychain_value(KeychainLookup::InvalidEntry), Ok(String::new()));
}

#[test]
fn keychain_returns_the_password() {
    let seen = RefCell::new(Vec::new());
    let lookup = |service: String, account: String| {
        seen.borrow_mut().push((service, account));
        KeychainLookup::Password("pw".to_string())
    };
    assert_eq!(
        template_function_keychain_run(lookup, &args(&[("service", "mail"), ("account", "me")])),
        Ok("pw".to_string())
    );
    let lookup = |service: String, account: String| {
        seen.borrow_mut().push((service, account));
        KeychainLookup::Password(String::new())
    };
    assert_eq!(template_function_keychain_run(lookup, &args(&[("account", "me")])), Ok(String::new()));
    assert_eq!(
        seen.into_inner(),
        vec![("mail".to_string(), "me".to_string()), (String::new(), "me".to_string())]
    );
    assert_eq!(get_arg(&args(&[("a", "1")]), "a"), "1");
    assert_eq!(get_arg(&args(&[("a", "1")]), "b"), "");
}

#[test]
fn keychain_reports_a_failure_of_the_store() {
    let lookup = |_service: String, _account: String| KeychainLookup::Failed("locked".to_string());
    assert_eq!(template_function_keychain_run(lookup, &args(&[])), Err(render_error("locked")));
}

#[test]
fn describes_secure() {
    let f = template_function_secure();
    assert_eq!(f.name, "secure");
    assert_eq!(f.description.as_deref(), Some("Securely store encrypted text"));
    assert_eq!(f.aliases, None);
    assert_eq!(f.args.len(), 1);
    let TemplateFunctionArg::FormInput(FormInput::Text(input)) = &f.args[0];
    assert_eq!(input.base.name, "value");
    assert_eq!(input.base.label.as_deref(), Some("Value"));
    assert_eq!(input.base.description, None);
    assert_eq!(input.multi_line, Some(true));
    assert_eq!(input.password, Some(true));
    assert_eq!(input.placeholder, None);
}

#[test]
fn describes_keychain() {
    let f = template_function_keyring();
    assert_eq!(f.name, "keychain");
    assert_eq!(f.description.as_deref(), Some("Get a password from the OS keychain or keyring"));
    assert_eq!(f.aliases, Some(vec!["keyring".to_string()]));
    let names: Vec<(String, Option<String>, Option<String>)> = f
        .args
        .iter()
        .map(|a| {
            let TemplateFunctionArg::FormInput(FormInput::Text(input)) = a;
            assert_eq!(input.password, None);
            assert_eq!(input.multi_line, None);
            (input.base.name.clone(), input.base.label.clone(), input.base.description.clone())
        })
        .collect();
    assert_eq!(
        names,
        vec![
            (
                "service".to_string(),
                Some("Service".to_string()),
                Some("App or URL for the password".to_string())
            ),
            (
                "account".to_string(),
                Some("Account".to_string()),
                Some("Username or email address".to_string())
            ),
        ]
    );
}

#[test]
fn decrypts_the_secure_tags_of_a_template() {
    let ctx = window(Some("wk_1"));
    let template = r#"a ${[ secure(value: "YENC_aGVsbG8=") ]} b ${[  x ]} \${[ c ${[ secure(other: "y", value: v) ]}."#;
    assert_eq!(
        decrypt_secure_template_function(same, &ctx, template),
        Ok(r#"a hello b ${[  x ]} \${[ c ."#.to_string())
    );
    assert_eq!(decrypt_secure_template_function(same, &ctx, "no tags"), Ok("no tags".to_string()));
}

#[test]
fn decrypted_text_is_not_escaped() {
    let ctx = window(Some("wk_1"));
    let stored = template_function_secure_transform_arg(scramble, &ctx, "value", "a ${[ b ]}").unwrap();
    let template = format!(r#"${{[ secure(value: "{}") ]}}"#, stored);
    assert_eq!(decrypt_secure_template_function(scramble, &ctx, &template), Ok("a ${[ b ]}".to_string()));
}

#[test]
fn decrypting_a_template_fails_with_the_first_failure() {
    let ctx = window(Some("wk_1"));
    assert_eq!(
        decrypt_secure_template_function(same, &ctx, r#"${[ secure(value: "plain") ]}"#),
        Err(render_error("Could not decrypt non-encrypted value"))
    );
    assert_eq!(
        decrypt_secure_template_function(same, &window(None), r#"${[ secure() ]}"#),
        Err(render_error("workspace_id missing from window context"))
    );
    assert_eq!(
        decrypt_secure_template_function(same, &ctx, "${[ secure("),
        Err(Error::ParseError(yaak::error::ParseErrorKind::UnbalancedParentheses))
    );
    let calls = RefCell::new(0);
    let failing = |_w: String, _b: Vec<u8>| {
        *calls.borrow_mut() += 1;
        Err("no key".to_string())
    };
    assert_eq!(
        decrypt_secure_template_function(
            failing,
            &ctx,
            r#"${[ secure(value: "YENC_AA==") ]}${[ secure(value: "YENC_AA==") ]}"#
        ),
        Err(render_error("no key"))
    );
    assert_eq!(calls.into_inner(), 1);
}

#[test]
fn template_with_a_payload_that_is_not_base64_is_told_apart() {
    let ctx = window(Some("wk_1"));
    let bad = r#"x ${[ secure(value: "YENC_aGVsbG8=") ]} ${[ secure(value: "YENC_@@") ]}"#;
    assert!(!template_values_decodable(bad, &ctx));
    assert!(template_values_decodable(bad, &window(None)));
    assert!(template_values_decodable("${[ broken", &ctx));
    assert_eq!(try_decrypt_secure_template_function(same, &ctx, bad), None);
    assert_eq!(
        try_decrypt_secure_template_function(same, &ctx, r#"${[ secure(value: "YENC_aGk=") ]}!"#),
        Some(Ok("hi!".to_string()))
    );
}

struct Encrypting {
    ctx: PluginWindowContext,
}

impl TemplateCallback for Encrypting {
    fn run(&self, _fn_name: &str, _args: TextMap) -> Result<String, Error> {
        Err(render_error("not called"))
    }

    fn transform_arg(&self, fn_name: &str, arg_name: &str, arg_value: &str) -> Result<String, Error> {
        assert_eq!(fn_name, "secure");
        template_function_secure_transform_arg(same, &self.ctx, arg_name, arg_value)
    }
}

#[test]
fn encrypts_a_template_as_one_secure_tag() {
    let ctx = window(Some("wk_1"));
    let cb = Encrypting { ctx: window(Some("wk_1")) };
    assert_eq!(
        encrypt_secure_template_function(same, &cb, &ctx, "hello"),
        Ok(r#"${[ secure(value: "YENC_aGVsbG8=") ]}"#.to_string())
    );
    let again = encrypt_secure_template_function(
        same,
        &cb,
        &ctx,
        r#"${[ secure(value: "YENC_aGVsbG8=") ]}"#,
    );
    assert_eq!(again, Ok(r#"${[ secure(value: "YENC_aGVsbG8=") ]}"#.to_string()));
    assert_eq!(
        encrypt_secure_template_function(same, &cb, &ctx, ""),
        Ok(r#"${[ secure(value: "") ]}"#.to_string())
    );
    assert_eq!(
        encrypt_secure_template_function(same, &cb, &ctx, r#"${[ secure(value: "plain") ]}"#),
        Err(render_error("Could not decrypt non-encrypted value"))
    );
    assert_eq!(
        try_encrypt_secure_template_function(same, &cb, &ctx, r#"${[ secure(value: "YENC_?") ]}"#),
        None
    );
    assert_eq!(
        try_encrypt_secure_template_function(same, &cb, &ctx, "hi"),
        Some(Ok(r#"${[ secure(value: "YENC_aGk=") ]}"#.to_string()))
    );
}

#[test]
fn encrypted_template_decrypts_to_the_text() {
    let ctx = window(Some("wk_1"));
    let cb = Encrypting { ctx: window(Some("wk_1")) };
    for text in ["hello", "with \"quotes\" and \\ and ${[ marker ]}", "é"] {
        let stored = encrypt_secure_template_function(same, &cb, &ctx, text).unwrap();
        assert_eq!(decrypt_secure_template_function(same, &ctx, &stored), Ok(text.to_string()));
    }
}

#[test]
fn built_in_functions_by_name() {
    assert_eq!(native_function("secure"), Some(NativeFunction::Secure));
    assert_eq!(native_function("keychain"), Some(NativeFunction::Keychain));
    assert_eq!(native_function("keyring"), Some(NativeFunction::Keychain));
    assert_eq!(native_function("Secure"), None);
    assert_eq!(native_function(""), None);
    let names: Vec<String> = native_template_functions().into_iter().map(|f| f.name).collect();
    assert_eq!(names, vec!["secure", "keychain"]);
}
