//! The built-in template functions `secure` and `keychain`.
//!
//! `secure(value: "...")` keeps a text encrypted in the template. The stored
//! value is the prefix `YENC_` and, in base64, the text encrypted with the key
//! of the workspace. Encrypting and decrypting are done by whoever calls: the
//! functions here take them as `encrypt` and `decrypt`, which get the id of the
//! workspace and the bytes.
//!
//! `keychain(service: "...", account: "...")` reads a password from the
//! credential store of the operating system; the lookup is done by whoever
//! calls.
use vstd::prelude::*;
use vstd::hash_map::StringHashMap;
use vstd::utf8::{decode_utf8, valid_utf8};
use base64::Engine;
use crate::error::{Error, ErrorView};
use crate::events::{
    text_input, is_text_input, workspace_of, FormInput, PluginWindowContext,
    PluginWindowContextView, TemplateFunction, TemplateFunctionArg,
};
use crate::models::optional_text;
use crate::renderer::{ended, text_result, Outcome, Rendered};
use crate::text::{
    chars_of, is_prefix_of, starts_with_str, str_equal, string_from_range, string_from_utf8,
    utf8_error_text,
};
use crate::variables::table_of;

verus! {

/// What `base64`'s standard engine decodes `text` to; `None` where `text` is
/// not the base64 of anything.
pub uninterp spec fn base64_standard_decoded(text: Seq<char>) -> Option<Seq<u8>>;

/// What `base64`'s standard engine encodes `bytes` to.
pub uninterp spec fn base64_standard_encoded(bytes: Seq<u8>) -> Seq<char>;

/// Calls `decode` of `base64`'s standard engine: the bytes that `text` stands
/// for, or `None` where the engine rejects `text`.
#[verifier::external_body]
fn base64_decode(text: &str) -> (bytes: Option<Vec<u8>>)
    ensures
        match bytes {
            Some(bytes) => base64_standard_decoded(text@) == Some(bytes@),
            None => base64_standard_decoded(text@) is None,
        },
{
    base64::prelude::BASE64_STANDARD.decode(text).ok()
}

/// Calls `encode` of `base64`'s standard engine, which panics where the length
/// of its output does not fit in `usize`. What it returns decodes to `bytes` again.
#[verifier::external_body]
fn base64_encode(bytes: &Vec<u8>) -> (text: String)
    requires
        (bytes.len() / 3) * 4 + 4 <= usize::MAX,
    ensures
        text@ == base64_standard_encoded(bytes@),
        base64_standard_decoded(text@) == Some(bytes@),
{
    base64::prelude::BASE64_STANDARD.encode(bytes)
}

/// The prefix of a value that is stored encrypted.
pub open spec fn secure_prefix() -> Seq<char> {
    seq!['Y', 'E', 'N', 'C', '_']
}

/// The message for a window context without a workspace.
pub open spec fn missing_workspace_message() -> Seq<char> {
    "workspace_id missing from window context"@
}

/// The message for a value that does not start with the prefix.
pub open spec fn not_encrypted_message() -> Seq<char> {
    "Could not decrypt non-encrypted value"@
}

/// The message for encrypted bytes that are too many to be encoded.
pub open spec fn too_long_message() -> Seq<char> {
    "Encrypted value is too long"@
}

/// The name of the one argument of `secure`.
pub open spec fn value_name() -> Seq<char> {
    "value"@
}

/// What `secure` has to decrypt: nothing (`None`) where it has no argument
/// `value`, else the workspace and what stands behind the prefix. It is an error
/// if the context names no workspace, or if the value lacks the prefix.
pub open spec fn secure_payload_of(
    args: Map<Seq<char>, Seq<char>>,
    context: PluginWindowContextView,
) -> Result<Option<(Seq<char>, Seq<char>)>, ErrorView> {
    match workspace_of(context) {
        None => Err(ErrorView::RenderError(missing_workspace_message())),
        Some(workspace_id) => if !args.contains_key(value_name()) {
            Ok(None)
        } else if !is_prefix_of(secure_prefix(), args[value_name()]) {
            Err(ErrorView::RenderError(not_encrypted_message()))
        } else {
            Ok(Some((workspace_id, args[value_name()].skip(5))))
        },
    }
}

/// What decrypting returned: the bytes, or the words of the failure.
pub type Decrypted = Result<Seq<u8>, Seq<char>>;

/// The view of what decrypting or encrypting returned.
pub open spec fn bytes_result(r: Result<Vec<u8>, String>) -> Decrypted {
    match r {
        Ok(bytes) => Ok(bytes@),
        Err(message) => Err(message@),
    }
}

/// What `secure` returns once decrypting has returned `outcome`: the text that
/// the bytes encode; an error with the words of the failure where decrypting
/// failed or the bytes are not UTF-8.
pub open spec fn secure_value_of(outcome: Decrypted) -> Outcome {
    match outcome {
        Err(message) => Err(ErrorView::RenderError(message)),
        Ok(bytes) => if valid_utf8(bytes) {
            Ok(decode_utf8(bytes))
        } else {
            Err(ErrorView::RenderError(utf8_error_text(bytes)))
        },
    }
}

/// The payload of `secure`, if it has one, is base64.
pub open spec fn payload_decodes(
    args: Map<Seq<char>, Seq<char>>,
    context: PluginWindowContextView,
) -> bool {
    secure_payload_of(args, context) matches Ok(Some((_, payload)))
        ==> base64_standard_decoded(payload) is Some
}

/// `cipher` was handed the workspace `workspace_id` and the bytes `bytes`, and
/// returned `outcome`.
pub open spec fn was_asked<F: Fn(String, Vec<u8>) -> Result<Vec<u8>, String>>(
    cipher: F,
    workspace_id: Seq<char>,
    bytes: Seq<u8>,
    outcome: Decrypted,
) -> bool {
    exists|w: String, b: Vec<u8>, o: Result<Vec<u8>, String>|
        {
            &&& w@ == workspace_id
            &&& b@ == bytes
            &&& #[trigger] call_ensures(cipher, (w, b), o)
            &&& bytes_result(o) == outcome
        }
}

/// If `decrypt` was called, it was handed the workspace of the window and the
/// bytes that the payload stands for.
pub open spec fn decrypt_got_payload<F: Fn(String, Vec<u8>) -> Result<Vec<u8>, String>>(
    decrypt: F,
    args: Map<Seq<char>, Seq<char>>,
    context: PluginWindowContextView,
    outcomes: Seq<Decrypted>,
) -> bool {
    outcomes.len() > 0 ==> match secure_payload_of(args, context) {
        Ok(Some((workspace_id, payload))) => was_asked(
            decrypt,
            workspace_id,
            base64_standard_decoded(payload)->Some_0,
            outcomes[0],
        ),
        _ => false,
    }
}

/// What `secure` gives on the arguments `args`, for the outcomes of decrypting.
pub open spec fn secure_run_rendered(
    args: Map<Seq<char>, Seq<char>>,
    context: PluginWindowContextView,
    outcomes: Seq<Decrypted>,
) -> Rendered<Seq<char>> {
    match secure_payload_of(args, context) {
        Err(e) => Rendered::Failed { error: e, calls: 0 },
        Ok(None) => Rendered::Done { value: Seq::empty(), calls: 0 },
        Ok(Some(_)) => if outcomes.len() == 0 {
            Rendered::Starved
        } else {
            ended(secure_value_of(outcomes[0]), 1)
        },
    }
}

/// The view of a payload that was found.
pub open spec fn payload_result(r: Result<Option<(String, String)>, Error>) -> Result<
    Option<(Seq<char>, Seq<char>)>,
    ErrorView,
> {
    match r {
        Ok(Some((workspace_id, payload))) => Ok(Some((workspace_id@, payload@))),
        Ok(None) => Ok(None),
        Err(e) => Err(e@),
    }
}

/// Says what `secure` has to decrypt: nothing where it has no argument `value`,
/// else the workspace and what stands behind the prefix `YENC_`. Fails if the
/// context names no workspace, or if the value does not start with the prefix.
pub fn secure_payload(args: &StringHashMap<String>, window_context: &PluginWindowContext) -> (r:
    Result<Option<(String, String)>, Error>)
    ensures
        payload_result(r) == secure_payload_of(table_of(args@), window_context@),
{
    match window_context.workspace_id() {
        None => Err(Error::RenderError(String::from_str("workspace_id missing from window context"))),
        Some(workspace_id) => match args.get("value") {
            None => Ok(None),
            Some(value) => {
                let chars = chars_of(value.as_str());
                proof {
                    reveal_strlit("YENC_");
                    assert("YENC_"@ =~= secure_prefix());
                }
                if !starts_with_str(&chars, "YENC_") {
                    Err(
                        Error::RenderError(
                            String::from_str("Could not decrypt non-encrypted value"),
                        ),
                    )
                } else {
                    let payload = string_from_range(&chars, 5, chars.len());
                    assert(payload@ =~= value@.skip(5));
                    Ok(Some((workspace_id.clone(), payload)))
                }
            },
        },
    }
}

/// Says what `secure` returns once decrypting has returned `outcome`.
pub fn secure_value(outcome: Result<Vec<u8>, String>) -> (r: Result<String, Error>)
    ensures
        text_result(r) == secure_value_of(bytes_result(outcome)),
{
    match outcome {
        Err(message) => Err(Error::RenderError(message)),
        Ok(bytes) => match string_from_utf8(bytes) {
            Ok(text) => Ok(text),
            Err(message) => Err(Error::RenderError(message)),
        },
    }
}

/// Runs `secure` and records what decrypting returned.
pub(crate) fn secure_run_traced<F: Fn(String, Vec<u8>) -> Result<Vec<u8>, String>>(
    decrypt: &F,
    args: &StringHashMap<String>,
    window_context: &PluginWindowContext,
) -> (r: (Result<String, Error>, Ghost<Seq<Decrypted>>))
    requires
        forall|workspace_id: String, bytes: Vec<u8>| call_requires(*decrypt, (workspace_id, bytes)),
        payload_decodes(table_of(args@), window_context@),
    ensures
        secure_run_rendered(table_of(args@), window_context@, r.1@) == ended(
            text_result(r.0),
            r.1@.len(),
        ),
        decrypt_got_payload(*decrypt, table_of(args@), window_context@, r.1@),
{
    match secure_payload(args, window_context) {
        Err(e) => (Err(e), Ghost(Seq::empty())),
        Ok(None) => (Ok(String::new()), Ghost(Seq::empty())),
        Ok(Some((workspace_id, payload))) => {
            match base64_decode(payload.as_str()) {
                Some(ciphertext) => {
                    let ghost given = (workspace_id, ciphertext);
                    let outcome = decrypt(workspace_id, ciphertext);
                    let ghost trace = seq![bytes_result(outcome)];
                    proof {
                        assert(call_ensures(*decrypt, given, outcome));
                        assert(was_asked(*decrypt, given.0@, given.1@, trace[0]));
                    }
                    (secure_value(outcome), Ghost(trace))
                },
                None => {
                    // the payload is base64, so this is never reached
                    (Ok(String::new()), Ghost(Seq::empty()))
                },
            }
        },
    }
}

/// Runs `secure`: decrypts its argument `value` with the key of the window's
/// workspace. Without the argument it returns the empty text. It fails if the
/// context names no workspace, if the value does not start with `YENC_`, if
/// decrypting fails, or if what was decrypted is not UTF-8. What stands behind
/// the prefix must be base64.
pub fn template_function_secure_run<F: Fn(String, Vec<u8>) -> Result<Vec<u8>, String>>(
    decrypt: F,
    args: &StringHashMap<String>,
    window_context: &PluginWindowContext,
) -> (r: Result<String, Error>)
    requires
        forall|workspace_id: String, bytes: Vec<u8>| call_requires(decrypt, (workspace_id, bytes)),
        payload_decodes(table_of(args@), window_context@),
    ensures
        exists|outcomes: Seq<Decrypted>|
            {
                &&& #[trigger] secure_run_rendered(table_of(args@), window_context@, outcomes)
                    == ended(text_result(r), outcomes.len())
                &&& decrypt_got_payload(decrypt, table_of(args@), window_context@, outcomes)
            },
{
    let (r, Ghost(trace)) = secure_run_traced(&decrypt, args, window_context);
    r
}

/// Runs `secure` if what stands behind the prefix of its value is base64, and
/// returns `None` if it is not.
pub fn try_template_function_secure_run<F: Fn(String, Vec<u8>) -> Result<Vec<u8>, String>>(
    decrypt: F,
    args: &StringHashMap<String>,
    window_context: &PluginWindowContext,
) -> (r: Option<Result<String, Error>>)
    requires
        forall|workspace_id: String, bytes: Vec<u8>| call_requires(decrypt, (workspace_id, bytes)),
    ensures
        r is Some <==> payload_decodes(table_of(args@), window_context@),
        r matches Some(run) ==> exists|outcomes: Seq<Decrypted>|
            {
                &&& #[trigger] secure_run_rendered(table_of(args@), window_context@, outcomes)
                    == ended(text_result(run), outcomes.len())
                &&& decrypt_got_payload(decrypt, table_of(args@), window_context@, outcomes)
            },
{
    if let Ok(Some((_, payload))) = secure_payload(args, window_context) {
        if base64_decode(payload.as_str()).is_none() {
            return None;
        }
    }
    Some(template_function_secure_run(decrypt, args, window_context))
}

/// What is stored for a value of `secure`: `Keep` where it is stored as it is,
/// `Encrypt` where it has to be encrypted first.
pub enum SecureTransform {
    Keep(Seq<char>),
    Encrypt { workspace_id: Seq<char>, plaintext: Seq<u8> },
}

/// What has to be done with the value `arg_value` of the argument `arg_name`
/// before it is stored. Only a value of the argument `value` that is not empty
/// and does not start with the prefix is encrypted.
pub open spec fn secure_transform_of(
    context: PluginWindowContextView,
    arg_name: Seq<char>,
    arg_value: Seq<char>,
) -> Result<SecureTransform, ErrorView> {
    if arg_name != value_name() {
        Ok(SecureTransform::Keep(arg_value))
    } else {
        match workspace_of(context) {
            None => Err(ErrorView::RenderError(missing_workspace_message())),
            Some(workspace_id) => if arg_value.len() == 0 || is_prefix_of(
                secure_prefix(),
                arg_value,
            ) {
                Ok(SecureTransform::Keep(arg_value))
            } else {
                Ok(
                    SecureTransform::Encrypt {
                        workspace_id,
                        plaintext: vstd::utf8::encode_utf8(arg_value),
                    },
                )
            },
        }
    }
}

/// Encrypted bytes that `base64` can encode.
pub open spec fn fits_base64(bytes: Seq<u8>) -> bool {
    (bytes.len() / 3) * 4 + 4 <= usize::MAX
}

/// What is stored once encrypting has returned `outcome`: the prefix and the
/// bytes in base64; an error with the words of the failure where encrypting failed.
pub open spec fn secure_stored_of(outcome: Decrypted) -> Outcome {
    match outcome {
        Err(message) => Err(ErrorView::RenderError(message)),
        Ok(bytes) => if fits_base64(bytes) {
            Ok(secure_prefix() + base64_standard_encoded(bytes))
        } else {
            Err(ErrorView::RenderError(too_long_message()))
        },
    }
}

/// What is stored for the value, for the outcomes of encrypting.
pub open spec fn secure_transform_rendered(
    context: PluginWindowContextView,
    arg_name: Seq<char>,
    arg_value: Seq<char>,
    outcomes: Seq<Decrypted>,
) -> Rendered<Seq<char>> {
    match secure_transform_of(context, arg_name, arg_value) {
        Err(e) => Rendered::Failed { error: e, calls: 0 },
        Ok(SecureTransform::Keep(text)) => Rendered::Done { value: text, calls: 0 },
        Ok(SecureTransform::Encrypt { .. }) => if outcomes.len() == 0 {
            Rendered::Starved
        } else {
            ended(secure_stored_of(outcomes[0]), 1)
        },
    }
}

/// If `encrypt` was called, it was handed the workspace of the window and the
/// value in UTF-8.
pub open spec fn encrypt_got_value<F: Fn(String, Vec<u8>) -> Result<Vec<u8>, String>>(
    encrypt: F,
    context: PluginWindowContextView,
    arg_value: Seq<char>,
    outcomes: Seq<Decrypted>,
) -> bool {
    outcomes.len() > 0 ==> match workspace_of(context) {
        Some(workspace_id) => was_asked(
            encrypt,
            workspace_id,
            vstd::utf8::encode_utf8(arg_value),
            outcomes[0],
        ),
        None => false,
    }
}

/// Says what is stored once encrypting has returned `outcome`.
pub fn secure_stored(outcome: Result<Vec<u8>, String>) -> (r: Result<String, Error>)
    ensures
        text_result(r) == secure_stored_of(bytes_result(outcome)),
        r is Ok && outcome is Ok ==> base64_standard_decoded(r->Ok_0@.skip(5)) == Some(
            outcome->Ok_0@,
        ),
{
    match outcome {
        Err(message) => Err(Error::RenderError(message)),
        Ok(bytes) => {
            if bytes.len() / 3 > (usize::MAX - 4) / 4 {
                return Err(Error::RenderError(String::from_str("Encrypted value is too long")));
            }
            let encoded = base64_encode(&bytes);
            let mut stored = String::from_str("YENC_");
            proof {
                reveal_strlit("YENC_");
                assert("YENC_"@ =~= secure_prefix());
            }
            stored.append(encoded.as_str());
            assert(stored@.skip(5) =~= encoded@);
            Ok(stored)
        },
    }
}

/// Rewrites the value of an argument of `secure` before the template is
/// stored. The value of the argument `value` is encrypted with the key of the
/// window's workspace and stored as `YENC_` and the base64 of the encrypted
/// bytes; an empty value and a value that starts with `YENC_` already are
/// stored as they are, and so is every other argument. It fails if the context
/// names no workspace, or if encrypting fails.
pub fn template_function_secure_transform_arg<F: Fn(String, Vec<u8>) -> Result<Vec<u8>, String>>(
    encrypt: F,
    window_context: &PluginWindowContext,
    arg_name: &str,
    arg_value: &str,
) -> (r: Result<String, Error>)
    requires
        forall|workspace_id: String, bytes: Vec<u8>| call_requires(encrypt, (workspace_id, bytes)),
    ensures
        exists|outcomes: Seq<Decrypted>|
            {
                &&& #[trigger] secure_transform_rendered(
                    window_context@,
                    arg_name@,
                    arg_value@,
                    outcomes,
                ) == ended(text_result(r), outcomes.len())
                &&& encrypt_got_value(encrypt, window_context@, arg_value@, outcomes)
            },
{
    let ghost none: Seq<Decrypted> = Seq::empty();
    if !str_equal(arg_name, "value") {
        let r = Ok(String::from_str(arg_value));
        assert(secure_transform_rendered(window_context@, arg_name@, arg_value@, none) == ended(
            text_result(r),
            0,
        ));
        return r;
    }
    match window_context.workspace_id() {
        None => {
            let r = Err(
                Error::RenderError(String::from_str("workspace_id missing from window context")),
            );
            assert(secure_transform_rendered(window_context@, arg_name@, arg_value@, none)
                == ended(text_result(r), 0));
            r
        },
        Some(workspace_id) => {
            let chars = chars_of(arg_value);
            proof {
                reveal_strlit("YENC_");
                assert("YENC_"@ =~= secure_prefix());
            }
            if chars.len() == 0 || starts_with_str(&chars, "YENC_") {
                let r = Ok(String::from_str(arg_value));
                assert(secure_transform_rendered(window_context@, arg_name@, arg_value@, none)
                    == ended(text_result(r), 0));
                return r;
            }
            let id = workspace_id.clone();
            let plaintext = arg_value.as_bytes_vec();
            let ghost given = (id, plaintext);
            let outcome = encrypt(id, plaintext);
            let ghost trace = seq![bytes_result(outcome)];
            proof {
                assert(call_ensures(encrypt, given, outcome));
                assert(was_asked(encrypt, given.0@, given.1@, trace[0]));
            }
            let r = secure_stored(outcome);
            assert(secure_transform_rendered(window_context@, arg_name@, arg_value@, trace)
                == ended(text_result(r), 1));
            r
        },
    }
}

/// What the lookup of a password in the credential store came to.
#[derive(Debug, PartialEq, Eq)]
pub enum KeychainLookup {
    /// The store takes no entry for this service and account.
    InvalidEntry,
    /// The password that the store holds.
    Password(String),
    /// The store holds no password for this service and account.
    NoEntry,
    /// The store failed; the text says how.
    Failed(String),
}

/// A `KeychainLookup` as a mathematical value.
pub enum KeychainLookupView {
    InvalidEntry,
    Password(Seq<char>),
    NoEntry,
    Failed(Seq<char>),
}

impl View for KeychainLookup {
    type V = KeychainLookupView;

    open spec fn view(&self) -> KeychainLookupView {
        match self {
            KeychainLookup::InvalidEntry => KeychainLookupView::InvalidEntry,
            KeychainLookup::Password(password) => KeychainLookupView::Password(password@),
            KeychainLookup::NoEntry => KeychainLookupView::NoEntry,
            KeychainLookup::Failed(message) => KeychainLookupView::Failed(message@),
        }
    }
}

/// The argument `name`, or the empty text where there is none.
pub open spec fn arg_or_empty(args: Map<Seq<char>, Seq<char>>, name: Seq<char>) -> Seq<char> {
    if args.contains_key(name) {
        args[name]
    } else {
        Seq::empty()
    }
}

/// What `keychain` returns for what the lookup came to: the password; the
/// empty text where the store holds none or takes no such entry; an error
/// where the store failed.
pub open spec fn keychain_value_of(lookup: KeychainLookupView) -> Outcome {
    match lookup {
        KeychainLookupView::InvalidEntry => Ok(Seq::empty()),
        KeychainLookupView::Password(password) => Ok(password),
        KeychainLookupView::NoEntry => Ok(Seq::empty()),
        KeychainLookupView::Failed(message) => Err(ErrorView::RenderError(message)),
    }
}

/// The argument `name`, or the empty text where there is none.
pub fn get_arg(args: &StringHashMap<String>, name: &str) -> (text: String)
    ensures
        text@ == arg_or_empty(table_of(args@), name@),
{
    match args.get(name) {
        Some(value) => value.clone(),
        None => String::new(),
    }
}

/// Says what `keychain` returns for what the lookup came to.
pub fn keychain_value(lookup: KeychainLookup) -> (r: Result<String, Error>)
    ensures
        text_result(r) == keychain_value_of(lookup@),
{
    match lookup {
        KeychainLookup::InvalidEntry => Ok(String::new()),
        KeychainLookup::Password(password) => Ok(password),
        KeychainLookup::NoEntry => Ok(String::new()),
        KeychainLookup::Failed(message) => Err(Error::RenderError(message)),
    }
}

/// Runs `keychain`: looks up the password for the arguments `service` and
/// `account`, each the empty text where it is missing. A password that the
/// store does not hold is the empty text, and no error.
pub fn template_function_keychain_run<F: Fn(String, String) -> KeychainLookup>(
    lookup: F,
    args: &StringHashMap<String>,
) -> (r: Result<String, Error>)
    requires
        forall|service: String, account: String| call_requires(lookup, (service, account)),
    ensures
        exists|service: String, account: String, found: KeychainLookup|
            {
                &&& service@ == arg_or_empty(table_of(args@), "service"@)
                &&& account@ == arg_or_empty(table_of(args@), "account"@)
                &&& #[trigger] call_ensures(lookup, (service, account), found)
                &&& text_result(r) == keychain_value_of(found@)
            },
{
    let service = get_arg(args, "service");
    let account = get_arg(args, "account");
    let ghost given = (service, account);
    let found = lookup(service, account);
    let ghost found_copy = found;
    let r = keychain_value(found);
    assert(call_ensures(lookup, given, found_copy));
    r
}

/// The description of `secure`: one argument `value`, a password over several lines.
pub fn template_function_secure() -> (f: TemplateFunction)
    ensures
        f.name@ == "secure"@,
        optional_text(f.description) == Some("Securely store encrypted text"@),
        f.aliases is None,
        f.args@.len() == 1,
        is_text_input(f.args@[0], "value"@, "Value"@, None, Some(true), Some(true)),
{
    let mut input = text_input("value", "Value", None);
    input.multi_line = Some(true);
    input.password = Some(true);
    let mut args: Vec<TemplateFunctionArg> = Vec::new();
    args.push(TemplateFunctionArg::FormInput(FormInput::Text(input)));
    TemplateFunction {
        name: String::from_str("secure"),
        description: Some(String::from_str("Securely store encrypted text")),
        aliases: None,
        args,
    }
}

/// The description of `keychain`, also called `keyring`: the arguments
/// `service` and `account`.
pub fn template_function_keyring() -> (f: TemplateFunction)
    ensures
        f.name@ == "keychain"@,
        optional_text(f.description) == Some("Get a password from the OS keychain or keyring"@),
        f.aliases matches Some(aliases) && aliases@.len() == 1 && aliases@[0]@ == "keyring"@,
        f.args@.len() == 2,
        is_text_input(
            f.args@[0],
            "service"@,
            "Service"@,
            Some("App or URL for the password"@),
            None,
            None,
        ),
        is_text_input(
            f.args@[1],
            "account"@,
            "Account"@,
            Some("Username or email address"@),
            None,
            None,
        ),
{
    let mut aliases: Vec<String> = Vec::new();
    aliases.push(String::from_str("keyring"));
    let mut args: Vec<TemplateFunctionArg> = Vec::new();
    args.push(
        TemplateFunctionArg::FormInput(
            FormInput::Text(text_input("service", "Service", Some("App or URL for the password"))),
        ),
    );
    args.push(
        TemplateFunctionArg::FormInput(
            FormInput::Text(text_input("account", "Account", Some("Username or email address"))),
        ),
    );
    TemplateFunction {
        name: String::from_str("keychain"),
        description: Some(String::from_str("Get a password from the OS keychain or keyring")),
        aliases: Some(aliases),
        args,
    }
}

/// What was encrypted as the UTF-8 of a text is that text again once it is
/// decrypted to the same bytes.
pub proof fn lemma_secure_value_of_encoded(text: Seq<char>)
    ensures
        secure_value_of(Ok(vstd::utf8::encode_utf8(text))) == Ok::<Seq<char>, ErrorView>(text),
{
    vstd::utf8::encode_utf8_valid_utf8(text);
    vstd::utf8::encode_utf8_decode_utf8(text);
}

/// What is stored for an encrypted value starts with the prefix.
pub proof fn lemma_stored_has_prefix(outcome: Decrypted)
    requires
        secure_stored_of(outcome) is Ok,
    ensures
        is_prefix_of(secure_prefix(), secure_stored_of(outcome)->Ok_0),
{
    let stored = secure_stored_of(outcome)->Ok_0;
    assert(stored.subrange(0, 5) =~= secure_prefix());
}

/// A value that starts with the prefix is stored as it is, and nothing is
/// encrypted: so what was encrypted once is not encrypted again.
pub proof fn lemma_secure_transform_keeps_encrypted(
    context: PluginWindowContextView,
    arg_name: Seq<char>,
    arg_value: Seq<char>,
    outcomes: Seq<Decrypted>,
)
    requires
        workspace_of(context) is Some,
        is_prefix_of(secure_prefix(), arg_value),
    ensures
        secure_transform_rendered(context, arg_name, arg_value, outcomes) == (Rendered::Done {
            value: arg_value,
            calls: 0,
        }),
{
}

/// No password in the store gives the empty text, and no error.
pub proof fn lemma_missing_password_is_empty()
    ensures
        keychain_value_of(KeychainLookupView::NoEntry) == Ok::<Seq<char>, ErrorView>(Seq::empty()),
{
}

/// The functions that are built in.
#[derive(Debug, Clone, Copy, PartialEq, Eq, Structural)]
pub enum NativeFunction {
    Secure,
    Keychain,
}

/// The built-in function that the name stands for: `secure`, and `keychain`
/// or `keyring`.
pub open spec fn native_function_named(name: Seq<char>) -> Option<NativeFunction> {
    if name == "secure"@ {
        Some(NativeFunction::Secure)
    } else if name == "keychain"@ || name == "keyring"@ {
        Some(NativeFunction::Keychain)
    } else {
        None
    }
}

/// Says which built-in function a name stands for; `None` for a name that
/// stands for none.
pub fn native_function(name: &str) -> (f: Option<NativeFunction>)
    ensures
        f == native_function_named(name@),
{
    if str_equal(name, "secure") {
        Some(NativeFunction::Secure)
    } else if str_equal(name, "keychain") || str_equal(name, "keyring") {
        Some(NativeFunction::Keychain)
    } else {
        None
    }
}

/// The descriptions of the built-in functions: `secure`, then `keychain`.
pub fn native_template_functions() -> (list: Vec<TemplateFunction>)
    ensures
        list@.len() == 2,
        list@[0].name@ == "secure"@,
        list@[1].name@ == "keychain"@,
{
    let mut list: Vec<TemplateFunction> = Vec::new();
    list.push(template_function_secure());
    list.push(template_function_keyring());
    list
}

} // verus!
