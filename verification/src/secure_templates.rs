//! Decrypting and encrypting the `secure` tags of a whole template.
use vstd::prelude::*;
use vstd::hash_map::StringHashMap;
use crate::error::{Error, ErrorView, ParseErrorKind};
use crate::events::{PluginWindowContext, PluginWindowContextView};
use crate::events::workspace_of;
use crate::native_template_functions::{
    bytes_result, payload_decodes, secure_run_rendered, secure_run_traced, Decrypted,
};
use crate::parser::{arg_views, parse_template, parsed};
use crate::renderer::{ended, text_result, Outcome, Rendered, TemplateCallback};
use crate::tokens::{
    tag_text, token_text, tokens_text, FnArg, FnArgView, Token, TokenView, Tokens, Val, ValView,
};
use crate::transform::{transform_args_traced, transformed};
use crate::variables::table_of;

verus! {

/// The name of the function `secure`.
pub open spec fn secure_name() -> Seq<char> {
    "secure"@
}

/// The string literals among the first `n` arguments, as a map from their names.
pub open spec fn literal_args(args: Seq<FnArgView>, n: int) -> Map<Seq<char>, Seq<char>>
    decreases n,
{
    if n <= 0 {
        Map::empty()
    } else {
        match args[n - 1].value {
            ValView::Str { text } => literal_args(args, n - 1).insert(args[n - 1].name, text),
            _ => literal_args(args, n - 1),
        }
    }
}

/// What stands in the place of a token once it is decrypted: for a call of
/// `secure` what the function gives on its literal arguments, for every other
/// token the token as written.
pub open spec fn decrypted_token(
    token: TokenView,
    context: PluginWindowContextView,
    outcomes: Seq<Decrypted>,
) -> Rendered<Seq<char>> {
    match token {
        TokenView::Tag { val: ValView::Fn { name, args }, .. } => if name == secure_name() {
            secure_run_rendered(literal_args(args, args.len() as int), context, outcomes)
        } else {
            Rendered::Done { value: token_text(token), calls: 0 }
        },
        other => Rendered::Done { value: token_text(other), calls: 0 },
    }
}

/// The first `n` tokens decrypted, one after the other.
pub open spec fn decrypted_tokens(
    toks: Seq<TokenView>,
    n: int,
    context: PluginWindowContextView,
    outcomes: Seq<Decrypted>,
) -> Rendered<Seq<char>>
    decreases n,
{
    if n <= 0 {
        Rendered::Done { value: Seq::empty(), calls: 0 }
    } else {
        match decrypted_tokens(toks, n - 1, context, outcomes) {
            Rendered::Done { value: out, calls } => match decrypted_token(
                toks[n - 1],
                context,
                outcomes.skip(calls as int),
            ) {
                Rendered::Done { value: text, calls: more } => Rendered::Done {
                    value: out + text,
                    calls: calls + more,
                },
                Rendered::Failed { error, calls: more } => Rendered::Failed {
                    error,
                    calls: calls + more,
                },
                Rendered::Starved => Rendered::Starved,
            },
            other => other,
        }
    }
}

/// The template with its calls of `secure` decrypted.
pub open spec fn decrypted_template(
    template: Seq<char>,
    context: PluginWindowContextView,
    outcomes: Seq<Decrypted>,
) -> Rendered<Seq<char>> {
    match parsed(template) {
        Err(kind) => Rendered::Failed { error: ErrorView::ParseError(kind), calls: 0 },
        Ok(toks) => decrypted_tokens(toks, toks.len() as int, context, outcomes),
    }
}

/// If the token is a call of `secure`, what stands behind the prefix of its
/// value is base64.
pub open spec fn token_value_decodes(token: TokenView, context: PluginWindowContextView) -> bool {
    match token {
        TokenView::Tag { val: ValView::Fn { name, args }, .. } => name == secure_name()
            ==> payload_decodes(literal_args(args, args.len() as int), context),
        _ => true,
    }
}

/// In every call of `secure` among the first `n` tokens, what stands behind the
/// prefix of the value is base64.
pub open spec fn secure_values_decode(
    toks: Seq<TokenView>,
    n: int,
    context: PluginWindowContextView,
) -> bool {
    forall|i: int| 0 <= i < n && i < toks.len() ==> token_value_decodes(#[trigger] toks[i], context)
}

/// In every call of `secure` in the template, what stands behind the prefix of
/// the value is base64.
pub open spec fn template_values_decode(
    template: Seq<char>,
    context: PluginWindowContextView,
) -> bool {
    parsed(template) matches Ok(toks) ==> secure_values_decode(toks, toks.len() as int, context)
}

/// `outcome` is what `decrypt` returned when it was handed the workspace
/// `workspace_id` and some bytes.
pub open spec fn came_from<F: Fn(String, Vec<u8>) -> Result<Vec<u8>, String>>(
    decrypt: F,
    workspace_id: Seq<char>,
    outcome: Decrypted,
) -> bool {
    exists|w: String, b: Vec<u8>, o: Result<Vec<u8>, String>|
        {
            &&& w@ == workspace_id
            &&& #[trigger] call_ensures(decrypt, (w, b), o)
            &&& bytes_result(o) == outcome
        }
}

/// Every outcome is what `decrypt` returned when it was handed the workspace of
/// the window.
pub open spec fn all_came_from<F: Fn(String, Vec<u8>) -> Result<Vec<u8>, String>>(
    decrypt: F,
    context: PluginWindowContextView,
    outcomes: Seq<Decrypted>,
) -> bool {
    forall|k: int|
        0 <= k < outcomes.len() ==> workspace_of(context) is Some && came_from(
            decrypt,
            workspace_of(context)->Some_0,
            #[trigger] outcomes[k],
        )
}

/// Tokens that did not run out of outcomes used no outcome behind the calls
/// made for them; more outcomes behind them change nothing.
pub proof fn lemma_decrypted_tokens_stable(
    toks: Seq<TokenView>,
    n: int,
    context: PluginWindowContextView,
    outcomes: Seq<Decrypted>,
    more: Seq<Decrypted>,
)
    requires
        !(decrypted_tokens(toks, n, context, outcomes) is Starved),
    ensures
        decrypted_tokens(toks, n, context, outcomes + more) == decrypted_tokens(
            toks,
            n,
            context,
            outcomes,
        ),
        decrypted_tokens(toks, n, context, outcomes).calls_made() <= outcomes.len(),
    decreases n,
{
    if n > 0 {
        lemma_decrypted_tokens_stable(toks, n - 1, context, outcomes, more);
        match decrypted_tokens(toks, n - 1, context, outcomes) {
            Rendered::Done { calls, .. } => {
                let rest = outcomes.skip(calls as int);
                assert((outcomes + more).skip(calls as int) =~= rest + more);
                if rest.len() > 0 {
                    assert((rest + more)[0] == rest[0]);
                }
            },
            _ => {},
        }
    }
}

/// Once a token has failed, the tokens as a whole fail with the same error.
pub proof fn lemma_decrypted_failed_stays(
    toks: Seq<TokenView>,
    n: int,
    m: int,
    context: PluginWindowContextView,
    outcomes: Seq<Decrypted>,
)
    requires
        0 <= n <= m,
        !(decrypted_tokens(toks, n, context, outcomes) is Done),
    ensures
        decrypted_tokens(toks, m, context, outcomes) == decrypted_tokens(
            toks,
            n,
            context,
            outcomes,
        ),
    decreases m - n,
{
    if n < m {
        lemma_decrypted_failed_stays(toks, n, m - 1, context, outcomes);
    }
}

/// The string literals among the arguments, as a table from their names.
pub fn collect_literal_args(args: &Vec<FnArg>) -> (table: StringHashMap<String>)
    ensures
        table_of(table@) == literal_args(arg_views(args@), args.len() as int),
{
    let ghost views = arg_views(args@);
    let mut table: StringHashMap<String> = StringHashMap::new();
    let mut i: usize = 0;
    assert(table_of(table@) =~= Map::empty());
    while i < args.len()
        invariant
            i <= args.len(),
            views == arg_views(args@),
            table_of(table@) == literal_args(views, i as int),
        decreases args.len() - i,
    {
        let arg = &args[i];
        assert(views[i as int] == arg@);
        match &arg.value {
            Val::Str { text } => {
                let ghost before = table@;
                table.insert(arg.name.clone(), text.clone());
                assert(table_of(table@) =~= table_of(before).insert(arg.name@, text@));
            },
            _ => {},
        }
        i += 1;
    }
    table
}

/// Whether, in every call of `secure` among the tokens, what stands behind the
/// prefix of the value is base64.
pub fn secure_values_decodable(tokens: &Tokens, window_context: &PluginWindowContext) -> (b: bool)
    ensures
        b == secure_values_decode(tokens@, tokens@.len() as int, window_context@),
{
    let ghost toks = tokens@;
    let mut i: usize = 0;
    while i < tokens.tokens.len()
        invariant
            i <= tokens.tokens.len(),
            toks == tokens@,
            toks.len() == tokens.tokens.len(),
            secure_values_decode(toks, i as int, window_context@),
        decreases tokens.tokens.len() - i,
    {
        let token = &tokens.tokens[i];
        assert(toks[i as int] == token@);
        if let Token::Tag { val: Val::Fn { name, args }, .. } = token {
            proof {
                reveal_strlit("secure");
            }
            if crate::text::str_equal(name.as_str(), "secure") {
                assert(token@->Tag_val->Fn_args =~= arg_views(args@));
                let table = collect_literal_args(args);
                if !payload_is_base64(&table, window_context) {
                    return false;
                }
            }
        }
        i += 1;
    }
    true
}

/// Whether the payload of `secure` on these arguments, if it has one, is base64.
pub fn payload_is_base64(args: &StringHashMap<String>, window_context: &PluginWindowContext) -> (b:
    bool)
    ensures
        b == payload_decodes(table_of(args@), window_context@),
{
    let always = |workspace_id: String, bytes: Vec<u8>| -> (r: Result<Vec<u8>, String>) { Ok(bytes) };
    crate::native_template_functions::try_template_function_secure_run(
        always,
        args,
        window_context,
    ).is_some()
}

/// Decrypts the template and records what decrypting returned.
pub(crate) fn decrypt_traced<F: Fn(String, Vec<u8>) -> Result<Vec<u8>, String>>(
    decrypt: &F,
    window_context: &PluginWindowContext,
    template: &str,
) -> (r: (Result<String, Error>, Ghost<Seq<Decrypted>>))
    requires
        forall|workspace_id: String, bytes: Vec<u8>| call_requires(*decrypt, (workspace_id, bytes)),
        template_values_decode(template@, window_context@),
    ensures
        decrypted_template(template@, window_context@, r.1@) == ended(
            text_result(r.0),
            r.1@.len(),
        ),
        all_came_from(*decrypt, window_context@, r.1@),
{
    let tokens = match parse_template(template) {
        Err(e) => {
            return (Err(e), Ghost(Seq::empty()));
        },
        Ok(tokens) => tokens,
    };
    let ghost toks = tokens@;
    let ghost context = window_context@;
    let ghost mut trace: Seq<Decrypted> = Seq::empty();
    let mut out = String::new();
    let mut i: usize = 0;
    while i < tokens.tokens.len()
        invariant
            i <= tokens.tokens.len(),
            toks == tokens@,
            toks.len() == tokens.tokens.len(),
            context == window_context@,
            parsed(template@) == Ok::<Seq<TokenView>, ParseErrorKind>(toks),
            secure_values_decode(toks, toks.len() as int, context),
            forall|workspace_id: String, bytes: Vec<u8>|
                call_requires(*decrypt, (workspace_id, bytes)),
            decrypted_tokens(toks, i as int, context, trace) == (Rendered::Done {
                value: out@,
                calls: trace.len(),
            }),
            all_came_from(*decrypt, context, trace),
        decreases tokens.tokens.len() - i,
    {
        let token = &tokens.tokens[i];
        assert(toks[i as int] == token@);
        let ghost before = trace;
        assert(before.skip(before.len() as int) =~= Seq::<Decrypted>::empty());
        let mut is_secure = false;
        if let Token::Tag { val: Val::Fn { name, args }, .. } = token {
            proof {
                reveal_strlit("secure");
            }
            if crate::text::str_equal(name.as_str(), "secure") {
                is_secure = true;
                assert(token@->Tag_val->Fn_args =~= arg_views(args@));
                let table = collect_literal_args(args);
                let (r, Ghost(step)) = secure_run_traced(decrypt, &table, window_context);
                proof {
                    lemma_decrypted_tokens_stable(toks, i as int, context, before, step);
                    trace = before + step;
                    assert(trace.skip(before.len() as int) =~= step);
                    assert(step.len() <= 1);
                    assert forall|k: int| 0 <= k < trace.len() implies workspace_of(context)
                        is Some && came_from(
                        *decrypt,
                        workspace_of(context)->Some_0,
                        #[trigger] trace[k],
                    ) by {
                        if k < before.len() {
                            assert(trace[k] == before[k]);
                        } else {
                            assert(trace[k] == step[0]);
                        }
                    }
                }
                match r {
                    Err(e) => {
                        proof {
                            lemma_decrypted_failed_stays(
                                toks,
                                i + 1,
                                toks.len() as int,
                                context,
                                trace,
                            );
                        }
                        return (Err(e), Ghost(trace));
                    },
                    Ok(text) => {
                        out.append(text.as_str());
                    },
                }
            }
        }
        if !is_secure {
            let text = token.to_string();
            out.append(text.as_str());
        }
        i += 1;
    }
    (Ok(out), Ghost(trace))
}

/// Puts in the place of every call of `secure` in the template the text that it
/// decrypts to, and leaves the rest of the template as it is written. A
/// template that does not parse gives the parse error; the first call that
/// fails gives its error. In every call of `secure`, what stands behind the
/// prefix of the value must be base64.
pub fn decrypt_secure_template_function<F: Fn(String, Vec<u8>) -> Result<Vec<u8>, String>>(
    decrypt: F,
    window_context: &PluginWindowContext,
    template: &str,
) -> (r: Result<String, Error>)
    requires
        forall|workspace_id: String, bytes: Vec<u8>| call_requires(decrypt, (workspace_id, bytes)),
        template_values_decode(template@, window_context@),
    ensures
        exists|outcomes: Seq<Decrypted>|
            {
                &&& #[trigger] decrypted_template(template@, window_context@, outcomes) == ended(
                    text_result(r),
                    outcomes.len(),
                )
                &&& all_came_from(decrypt, window_context@, outcomes)
            },
{
    let (r, Ghost(trace)) = decrypt_traced(&decrypt, window_context, template);
    r
}

/// Whether, in every call of `secure` in the template, what stands behind the
/// prefix of the value is base64. A template that does not parse has no such call.
pub fn template_values_decodable(template: &str, window_context: &PluginWindowContext) -> (b: bool)
    ensures
        b == template_values_decode(template@, window_context@),
{
    match parse_template(template) {
        Err(_) => true,
        Ok(tokens) => secure_values_decodable(&tokens, window_context),
    }
}

/// Decrypts the calls of `secure` in the template if what they hold is base64,
/// and returns `None` if it is not.
pub fn try_decrypt_secure_template_function<F: Fn(String, Vec<u8>) -> Result<Vec<u8>, String>>(
    decrypt: F,
    window_context: &PluginWindowContext,
    template: &str,
) -> (r: Option<Result<String, Error>>)
    requires
        forall|workspace_id: String, bytes: Vec<u8>| call_requires(decrypt, (workspace_id, bytes)),
    ensures
        r is Some <==> template_values_decode(template@, window_context@),
        r matches Some(text) ==> exists|outcomes: Seq<Decrypted>|
            {
                &&& #[trigger] decrypted_template(template@, window_context@, outcomes) == ended(
                    text_result(text),
                    outcomes.len(),
                )
                &&& all_came_from(decrypt, window_context@, outcomes)
            },
{
    if template_values_decodable(template, window_context) {
        Some(decrypt_secure_template_function(decrypt, window_context, template))
    } else {
        None
    }
}

/// The one tag that calls `secure` on the literal `text`.
pub open spec fn secure_tag(text: Seq<char>) -> Seq<TokenView> {
    let val = ValView::Fn {
        name: secure_name(),
        args: seq![
            FnArgView { name: crate::native_template_functions::value_name(), value: ValView::Str {
                text,
            } },
        ],
    };
    seq![TokenView::Tag { val, source: tag_text(val) }]
}

/// The template is decrypted to `text` for the outcomes `decrypted`, and `r`
/// is the tag of `secure` on `text` after the callback was asked about it, for
/// the outcomes `asked`; or decrypting failed, and `r` is its error.
pub open spec fn is_encrypted_of(
    r: Result<Seq<char>, ErrorView>,
    template: Seq<char>,
    context: PluginWindowContextView,
    decrypted: Seq<Decrypted>,
    asked: Seq<Outcome>,
) -> bool {
    match decrypted_template(template, context, decrypted) {
        Rendered::Done { value: text, calls } => calls == decrypted.len() && (match transformed(
            secure_tag(text),
            asked,
        ) {
            Rendered::Done { value: toks, calls: made } => made == asked.len() && r == Ok::<
                Seq<char>,
                ErrorView,
            >(tokens_text(toks)),
            Rendered::Failed { error, calls: made } => made == asked.len() && r == Err::<
                Seq<char>,
                ErrorView,
            >(error),
            Rendered::Starved => false,
        }),
        Rendered::Failed { error, calls } => calls == decrypted.len() && asked.len() == 0 && r
            == Err::<Seq<char>, ErrorView>(error),
        Rendered::Starved => false,
    }
}

/// Decrypts the calls of `secure` in the template, makes the whole of what
/// comes out the value of one call of `secure`, and hands that value to the
/// callback to be rewritten for storing. Returns the tag as it is then written.
/// In every call of `secure` in the template, what stands behind the prefix of
/// the value must be base64.
pub fn encrypt_secure_template_function<
    F: Fn(String, Vec<u8>) -> Result<Vec<u8>, String>,
    T: TemplateCallback,
>(decrypt: F, cb: &T, window_context: &PluginWindowContext, template: &str) -> (r: Result<
    String,
    Error,
>)
    requires
        forall|workspace_id: String, bytes: Vec<u8>| call_requires(decrypt, (workspace_id, bytes)),
        template_values_decode(template@, window_context@),
    ensures
        exists|decrypted: Seq<Decrypted>, asked: Seq<Outcome>| #[trigger]
            is_encrypted_of(text_result(r), template@, window_context@, decrypted, asked),
{
    let (plain, Ghost(decrypted)) = decrypt_traced(&decrypt, window_context, template);
    let text = match plain {
        Err(e) => {
            assert(is_encrypted_of(
                text_result(Err::<String, Error>(e)),
                template@,
                window_context@,
                decrypted,
                Seq::empty(),
            ));
            return Err(e);
        },
        Ok(text) => text,
    };
    let ghost plain_text = text@;
    let mut args: Vec<FnArg> = Vec::new();
    let arg = FnArg { name: String::from_str("value"), value: Val::Str { text } };
    let ghost arg_view = arg@;
    args.push(arg);
    assert(args@.len() == 1 && args@[0]@ == arg_view);
    let val = Val::Fn { name: String::from_str("secure"), args };
    proof {
        assert(val@->Fn_args.len() == 1);
        assert(val@->Fn_args[0] == arg_view);
        assert(val@->Fn_args =~= seq![arg_view]);
    }
    let mut tokens: Vec<Token> = Vec::new();
    tokens.push(Token::tag(val));
    let tokens = Tokens { tokens };
    assert(tokens@ =~= secure_tag(plain_text));
    let (transformed_tokens, Ghost(asked)) = transform_args_traced(&tokens, cb);
    let r = match transformed_tokens {
        Err(e) => Err(e),
        Ok(new_tokens) => Ok(new_tokens.to_string()),
    };
    assert(is_encrypted_of(text_result(r), template@, window_context@, decrypted, asked));
    r
}

/// Encrypts the template as `encrypt_secure_template_function` does if what its
/// calls of `secure` hold is base64, and returns `None` if it is not.
pub fn try_encrypt_secure_template_function<
    F: Fn(String, Vec<u8>) -> Result<Vec<u8>, String>,
    T: TemplateCallback,
>(decrypt: F, cb: &T, window_context: &PluginWindowContext, template: &str) -> (r: Option<
    Result<String, Error>,
>)
    requires
        forall|workspace_id: String, bytes: Vec<u8>| call_requires(decrypt, (workspace_id, bytes)),
    ensures
        r is Some <==> template_values_decode(template@, window_context@),
        r matches Some(text) ==> exists|decrypted: Seq<Decrypted>, asked: Seq<Outcome>| #[trigger]
            is_encrypted_of(text_result(text), template@, window_context@, decrypted, asked),
{
    if template_values_decodable(template, window_context) {
        Some(encrypt_secure_template_function(decrypt, cb, window_context, template))
    } else {
        None
    }
}

} // verus!
