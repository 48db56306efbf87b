//! Rendering of parsed templates.
//!
//! Tokens are rendered from left to right. Literal text is copied. A tag that
//! names a variable gives the variable's value. A tag that calls a function has
//! its arguments resolved first and is then handed to the callback, one call at
//! a time, in the order of the source. What the callback returns cannot be
//! known beforehand, so the contracts here speak of the *outcomes*: the results
//! that the callback gave, in the order of the calls.
use vstd::prelude::*;
use vstd::hash_map::StringHashMap;
use crate::error::{Error, ErrorView};
use crate::parser::{parse_template, parsed};
use crate::tokens::{FnArgView, Token, TokenView, Tokens, Val, ValView};
use crate::variables::table_of;

verus! {

/// What a render pass does where a variable is missing or a function fails.
#[derive(Debug, Clone, Copy, PartialEq, Eq, Structural)]
pub enum RenderErrorBehavior {
    /// The error ends the pass.
    Throw,
    /// Nothing is written in the place of the tag, and the pass goes on.
    Silent,
}

/// The settings of a render pass.
#[derive(Debug, Clone, Copy, PartialEq, Eq, Structural)]
pub struct RenderOptions {
    pub error_behavior: RenderErrorBehavior,
}

/// What runs the functions that templates call.
pub trait TemplateCallback {
    /// Runs the function `fn_name` on the resolved arguments and returns its text.
    fn run(&self, fn_name: &str, args: StringHashMap<String>) -> Result<String, Error>;

    /// Rewrites the value of the argument `arg_name` of the function `fn_name`
    /// before the template is stored.
    fn transform_arg(&self, fn_name: &str, arg_name: &str, arg_value: &str) -> Result<
        String,
        Error,
    >;
}

/// What one call of the callback returned.
pub type Outcome = Result<Seq<char>, ErrorView>;

/// The outcome that an executable result stands for.
pub open spec fn text_result(r: Result<String, Error>) -> Outcome {
    match r {
        Ok(text) => Ok(text@),
        Err(e) => Err(e@),
    }
}

/// What has to be done for a tag: write a text, or call a function first.
pub enum TagPlan {
    Text(String),
    Call { name: String, args: StringHashMap<String> },
}

/// A `TagPlan` as a mathematical value.
pub enum TagPlanView {
    Text(Seq<char>),
    Call { name: Seq<char>, args: Map<Seq<char>, Seq<char>> },
}

impl View for TagPlan {
    type V = TagPlanView;

    open spec fn view(&self) -> TagPlanView {
        match self {
            TagPlan::Text(text) => TagPlanView::Text(text@),
            TagPlan::Call { name, args } => TagPlanView::Call { name: name@, args: table_of(args@) },
        }
    }
}

/// The plan that an executable result stands for.
pub open spec fn plan_result(r: Result<TagPlan, Error>) -> Result<TagPlanView, ErrorView> {
    match r {
        Ok(plan) => Ok(plan@),
        Err(e) => Err(e@),
    }
}

/// The message for an argument that is itself a call.
pub open spec fn nested_call_message() -> Seq<char> {
    "a function call cannot be the argument of a function"@
}

/// What stands in the place of an error: the error itself, or nothing.
pub open spec fn or_nothing(error: ErrorView, opt: RenderOptions) -> Outcome {
    match opt.error_behavior {
        RenderErrorBehavior::Throw => Err(error),
        RenderErrorBehavior::Silent => Ok(Seq::empty()),
    }
}

/// The value of the variable `name`, as far as the table holds it.
pub open spec fn variable_value(
    name: Seq<char>,
    vars: Map<Seq<char>, Seq<char>>,
    opt: RenderOptions,
) -> Outcome {
    if vars.contains_key(name) {
        Ok(vars[name])
    } else {
        or_nothing(ErrorView::VariableNotFound(name), opt)
    }
}

/// The text that an argument's value resolves to.
pub open spec fn arg_value(
    value: ValView,
    vars: Map<Seq<char>, Seq<char>>,
    opt: RenderOptions,
) -> Outcome {
    match value {
        ValView::Str { text } => Ok(text),
        ValView::Var { name } => variable_value(name, vars, opt),
        ValView::Fn { .. } => or_nothing(ErrorView::RenderError(nested_call_message()), opt),
    }
}

/// The first `n` arguments resolved, as a map from their names to their texts.
/// The first argument that does not resolve gives the error.
pub open spec fn resolved_args(
    args: Seq<FnArgView>,
    n: int,
    vars: Map<Seq<char>, Seq<char>>,
    opt: RenderOptions,
) -> Result<Map<Seq<char>, Seq<char>>, ErrorView>
    decreases n,
{
    if n <= 0 {
        Ok(Map::empty())
    } else {
        match resolved_args(args, n - 1, vars, opt) {
            Err(e) => Err(e),
            Ok(found) => match arg_value(args[n - 1].value, vars, opt) {
                Err(e) => Err(e),
                Ok(text) => Ok(found.insert(args[n - 1].name, text)),
            },
        }
    }
}

/// What has to be done for a tag that holds `val`.
pub open spec fn tag_plan(
    val: ValView,
    vars: Map<Seq<char>, Seq<char>>,
    opt: RenderOptions,
) -> Result<TagPlanView, ErrorView> {
    match val {
        ValView::Str { text } => Ok(TagPlanView::Text(text)),
        ValView::Var { name } => match variable_value(name, vars, opt) {
            Ok(text) => Ok(TagPlanView::Text(text)),
            Err(e) => Err(e),
        },
        ValView::Fn { name, args } => match resolved_args(args, args.len() as int, vars, opt) {
            Ok(found) => Ok(TagPlanView::Call { name, args: found }),
            Err(e) => Err(e),
        },
    }
}

/// What is written for a call that had the outcome `outcome`.
pub open spec fn call_value(outcome: Outcome, opt: RenderOptions) -> Outcome {
    match outcome {
        Ok(text) => Ok(text),
        Err(e) => or_nothing(e, opt),
    }
}

/// How far a rendering got on a given sequence of outcomes.
pub enum Rendered<T> {
    /// It was completed with `value`, after `calls` calls.
    Done { value: T, calls: nat },
    /// It failed with `error`, after `calls` calls.
    Failed { error: ErrorView, calls: nat },
    /// It needs more outcomes than were given.
    Starved,
}

impl<T> Rendered<T> {
    /// The same, after `earlier` calls that were made before.
    pub open spec fn after(self, earlier: nat) -> Rendered<T> {
        match self {
            Rendered::Done { value, calls } => Rendered::Done { value, calls: earlier + calls },
            Rendered::Failed { error, calls } => Rendered::Failed { error, calls: earlier + calls },
            Rendered::Starved => Rendered::Starved,
        }
    }

    /// The number of calls that were made.
    pub open spec fn calls_made(self) -> nat {
        match self {
            Rendered::Done { calls, .. } => calls,
            Rendered::Failed { calls, .. } => calls,
            Rendered::Starved => 0,
        }
    }
}

/// `r` with its value, if it has one, changed by `f`.
pub open spec fn mapped<A, B>(r: Rendered<A>, f: spec_fn(A) -> B) -> Rendered<B> {
    match r {
        Rendered::Done { value, calls } => Rendered::Done { value: f(value), calls },
        Rendered::Failed { error, calls } => Rendered::Failed { error, calls },
        Rendered::Starved => Rendered::Starved,
    }
}

/// The rendering that ended in `r` after `calls` calls.
pub open spec fn ended<T>(r: Result<T, ErrorView>, calls: nat) -> Rendered<T> {
    match r {
        Ok(value) => Rendered::Done { value, calls },
        Err(error) => Rendered::Failed { error, calls },
    }
}

/// The rendering of a tag that holds `val`.
pub open spec fn rendered_tag(
    val: ValView,
    vars: Map<Seq<char>, Seq<char>>,
    opt: RenderOptions,
    outcomes: Seq<Outcome>,
) -> Rendered<Seq<char>> {
    match tag_plan(val, vars, opt) {
        Err(e) => Rendered::Failed { error: e, calls: 0 },
        Ok(TagPlanView::Text(text)) => Rendered::Done { value: text, calls: 0 },
        Ok(TagPlanView::Call { .. }) => if outcomes.len() == 0 {
            Rendered::Starved
        } else {
            ended(call_value(outcomes[0], opt), 1)
        },
    }
}

/// The rendering of one token.
pub open spec fn rendered_token(
    token: TokenView,
    vars: Map<Seq<char>, Seq<char>>,
    opt: RenderOptions,
    outcomes: Seq<Outcome>,
) -> Rendered<Seq<char>> {
    match token {
        TokenView::Raw { text } => Rendered::Done { value: text, calls: 0 },
        TokenView::Tag { val, .. } => rendered_tag(val, vars, opt, outcomes),
    }
}

/// The rendering of the first `n` tokens: their texts one after the other, up
/// to the first that fails.
pub open spec fn rendered_tokens(
    toks: Seq<TokenView>,
    n: int,
    vars: Map<Seq<char>, Seq<char>>,
    opt: RenderOptions,
    outcomes: Seq<Outcome>,
) -> Rendered<Seq<char>>
    decreases n,
{
    if n <= 0 {
        Rendered::Done { value: Seq::empty(), calls: 0 }
    } else {
        match rendered_tokens(toks, n - 1, vars, opt, outcomes) {
            Rendered::Done { value: out, calls } => match rendered_token(
                toks[n - 1],
                vars,
                opt,
                outcomes.skip(calls as int),
            ) {
                Rendered::Done { value: text, calls: more } => Rendered::Done {
                    value: out + text,
                    calls: calls + more,
                },
                Rendered::Failed { error, calls: more } => Rendered::Failed {
                    error,
                    calls: calls + more,
                },
                Rendered::Starved => Rendered::Starved,
            },
            other => other,
        }
    }
}

/// The rendering of a whole token list.
pub open spec fn rendered(
    toks: Seq<TokenView>,
    vars: Map<Seq<char>, Seq<char>>,
    opt: RenderOptions,
    outcomes: Seq<Outcome>,
) -> Rendered<Seq<char>> {
    rendered_tokens(toks, toks.len() as int, vars, opt, outcomes)
}

/// The rendering of a template: it is parsed, then its tokens are rendered.
pub open spec fn rendered_template(
    template: Seq<char>,
    vars: Map<Seq<char>, Seq<char>>,
    opt: RenderOptions,
    outcomes: Seq<Outcome>,
) -> Rendered<Seq<char>> {
    match parsed(template) {
        Err(kind) => Rendered::Failed { error: ErrorView::ParseError(kind), calls: 0 },
        Ok(toks) => rendered(toks, vars, opt, outcomes),
    }
}

/// A rendering that did not run out of outcomes used no outcome behind the
/// calls it made; more outcomes behind them change nothing.
pub proof fn lemma_rendered_tokens_stable(
    toks: Seq<TokenView>,
    n: int,
    vars: Map<Seq<char>, Seq<char>>,
    opt: RenderOptions,
    outcomes: Seq<Outcome>,
    more: Seq<Outcome>,
)
    requires
        !(rendered_tokens(toks, n, vars, opt, outcomes) is Starved),
    ensures
        rendered_tokens(toks, n, vars, opt, outcomes + more) == rendered_tokens(
            toks,
            n,
            vars,
            opt,
            outcomes,
        ),
        rendered_tokens(toks, n, vars, opt, outcomes).calls_made() <= outcomes.len(),
    decreases n,
{
    if n > 0 {
        lemma_rendered_tokens_stable(toks, n - 1, vars, opt, outcomes, more);
        match rendered_tokens(toks, n - 1, vars, opt, outcomes) {
            Rendered::Done { calls, .. } => {
                let rest = outcomes.skip(calls as int);
                assert((outcomes + more).skip(calls as int) =~= rest + more);
                if rest.len() > 0 {
                    assert((rest + more)[0] == rest[0]);
                }
            },
            _ => {},
        }
    }
}

/// The same for a template.
pub proof fn lemma_rendered_template_stable(
    template: Seq<char>,
    vars: Map<Seq<char>, Seq<char>>,
    opt: RenderOptions,
    outcomes: Seq<Outcome>,
    more: Seq<Outcome>,
)
    requires
        !(rendered_template(template, vars, opt, outcomes) is Starved),
    ensures
        rendered_template(template, vars, opt, outcomes + more) == rendered_template(
            template,
            vars,
            opt,
            outcomes,
        ),
        rendered_template(template, vars, opt, outcomes).calls_made() <= outcomes.len(),
{
    match parsed(template) {
        Ok(toks) => {
            lemma_rendered_tokens_stable(toks, toks.len() as int, vars, opt, outcomes, more);
        },
        Err(_) => {},
    }
}

/// The value of the variable `name`, as far as the table holds it: where it is
/// missing, the error `VariableNotFound` under `Throw`, the empty text under `Silent`.
pub fn lookup_variable(name: &str, vars: &StringHashMap<String>, opt: &RenderOptions) -> (r: Result<
    String,
    Error,
>)
    ensures
        text_result(r) == variable_value(name@, table_of(vars@), *opt),
{
    match vars.get(name) {
        Some(value) => Ok(value.clone()),
        None => match opt.error_behavior {
            RenderErrorBehavior::Throw => Err(Error::VariableNotFound(String::from_str(name))),
            RenderErrorBehavior::Silent => Ok(String::new()),
        },
    }
}

/// The text that an argument's value resolves to: a literal is taken as it is,
/// a variable is looked up, and a call is an error under `Throw` and the empty
/// text under `Silent`.
pub fn resolve_arg(value: &Val, vars: &StringHashMap<String>, opt: &RenderOptions) -> (r: Result<
    String,
    Error,
>)
    ensures
        text_result(r) == arg_value(value@, table_of(vars@), *opt),
{
    match value {
        Val::Str { text } => Ok(text.clone()),
        Val::Var { name } => lookup_variable(name.as_str(), vars, opt),
        Val::Fn { .. } => match opt.error_behavior {
            RenderErrorBehavior::Throw => Err(
                Error::RenderError(
                    String::from_str("a function call cannot be the argument of a function"),
                ),
            ),
            RenderErrorBehavior::Silent => Ok(String::new()),
        },
    }
}

/// Says what has to be done for a tag that holds `val`: the text to write, or
/// the call to make, with its arguments resolved.
pub fn plan_tag(val: &Val, vars: &StringHashMap<String>, opt: &RenderOptions) -> (r: Result<
    TagPlan,
    Error,
>)
    ensures
        plan_result(r) == tag_plan(val@, table_of(vars@), *opt),
{
    match val {
        Val::Str { text } => Ok(TagPlan::Text(text.clone())),
        Val::Var { name } => match lookup_variable(name.as_str(), vars, opt) {
            Ok(text) => Ok(TagPlan::Text(text)),
            Err(e) => Err(e),
        },
        Val::Fn { name, args } => {
            let ghost views = val@->Fn_args;
            let ghost table = table_of(vars@);
            let mut found: StringHashMap<String> = StringHashMap::new();
            let mut i: usize = 0;
            assert(table_of(found@) =~= Map::empty());
            while i < args.len()
                invariant
                    i <= args.len(),
                    views.len() == args.len(),
                    forall|k: int| 0 <= k < args.len() ==> views[k] == args@[k]@,
                    table == table_of(vars@),
                    resolved_args(views, i as int, table, *opt) == Ok::<
                        Map<Seq<char>, Seq<char>>,
                        ErrorView,
                    >(table_of(found@)),
                    val@ == (ValView::Fn { name: name@, args: views }),
                decreases args.len() - i,
            {
                let arg = &args[i];
                assert(views[i as int] == arg@);
                match resolve_arg(&arg.value, vars, opt) {
                    Err(e) => {
                        proof {
                            assert(resolved_args(views, i + 1, table, *opt) == Err::<
                                Map<Seq<char>, Seq<char>>,
                                ErrorView,
                            >(e@));
                            lemma_resolved_args_error(
                                views,
                                i + 1,
                                args.len() as int,
                                table,
                                *opt,
                            );
                        }
                        return Err(e);
                    },
                    Ok(text) => {
                        let ghost before = found@;
                        found.insert(arg.name.clone(), text);
                        assert(table_of(found@) =~= table_of(before).insert(arg.name@, text@));
                    },
                }
                i += 1;
            }
            Ok(TagPlan::Call { name: name.clone(), args: found })
        },
    }
}

/// Once an argument has failed to resolve, the arguments as a whole fail with
/// the same error.
pub proof fn lemma_resolved_args_error(
    args: Seq<FnArgView>,
    n: int,
    m: int,
    vars: Map<Seq<char>, Seq<char>>,
    opt: RenderOptions,
)
    requires
        0 <= n <= m,
        resolved_args(args, n, vars, opt) is Err,
    ensures
        resolved_args(args, m, vars, opt) == resolved_args(args, n, vars, opt),
    decreases m - n,
{
    if n < m {
        lemma_resolved_args_error(args, n, m - 1, vars, opt);
    }
}

/// Says what is written for a call that ended in `outcome`: its text, or, where
/// it failed, the error under `Throw` and the empty text under `Silent`.
pub fn finish_call(outcome: Result<String, Error>, opt: &RenderOptions) -> (r: Result<
    String,
    Error,
>)
    ensures
        text_result(r) == call_value(text_result(outcome), *opt),
{
    match outcome {
        Ok(text) => Ok(text),
        Err(e) => match opt.error_behavior {
            RenderErrorBehavior::Throw => Err(e),
            RenderErrorBehavior::Silent => Ok(String::new()),
        },
    }
}

/// Renders the tokens and records the outcomes of the calls made.
pub(crate) fn render_traced<T: TemplateCallback>(
    tokens: &Tokens,
    vars: &StringHashMap<String>,
    cb: &T,
    opt: &RenderOptions,
) -> (r: (Result<String, Error>, Ghost<Seq<Outcome>>))
    ensures
        rendered(tokens@, table_of(vars@), *opt, r.1@) == ended(text_result(r.0), r.1@.len()),
{
    let ghost toks = tokens@;
    let ghost table = table_of(vars@);
    let ghost mut trace: Seq<Outcome> = Seq::empty();
    let mut out = String::new();
    let mut i: usize = 0;
    while i < tokens.tokens.len()
        invariant
            i <= tokens.tokens.len(),
            toks == tokens@,
            toks.len() == tokens.tokens.len(),
            table == table_of(vars@),
            rendered_tokens(toks, i as int, table, *opt, trace) == (Rendered::Done {
                value: out@,
                calls: trace.len(),
            }),
        decreases tokens.tokens.len() - i,
    {
        let token = &tokens.tokens[i];
        assert(toks[i as int] == token@);
        assert(trace.skip(trace.len() as int) =~= Seq::<Outcome>::empty());
        match token {
            Token::Raw { text } => {
                out.append(text.as_str());
            },
            Token::Tag { val, .. } => {
                match plan_tag(val, vars, opt) {
                    Err(e) => {
                        proof {
                            lemma_failed_stays(toks, i + 1, toks.len() as int, table, *opt, trace);
                        }
                        return (Err(e), Ghost(trace));
                    },
                    Ok(TagPlan::Text(text)) => {
                        out.append(text.as_str());
                    },
                    Ok(TagPlan::Call { name, args }) => {
                        let outcome = cb.run(name.as_str(), args);
                        let ghost before = trace;
                        proof {
                            lemma_rendered_tokens_stable(
                                toks,
                                i as int,
                                table,
                                *opt,
                                before,
                                seq![text_result(outcome)],
                            );
                            trace = before.push(text_result(outcome));
                            assert(trace =~= before + seq![text_result(outcome)]);
                            assert(trace.skip(before.len() as int) =~= seq![text_result(outcome)]);
                        }
                        match finish_call(outcome, opt) {
                            Err(e) => {
                                proof {
                                    lemma_failed_stays(
                                        toks,
                                        i + 1,
                                        toks.len() as int,
                                        table,
                                        *opt,
                                        trace,
                                    );
                                }
                                return (Err(e), Ghost(trace));
                            },
                            Ok(text) => {
                                out.append(text.as_str());
                            },
                        }
                    },
                }
            },
        }
        i += 1;
    }
    (Ok(out), Ghost(trace))
}

/// Once a token has failed, the tokens as a whole fail with the same error.
pub proof fn lemma_failed_stays(
    toks: Seq<TokenView>,
    n: int,
    m: int,
    vars: Map<Seq<char>, Seq<char>>,
    opt: RenderOptions,
    outcomes: Seq<Outcome>,
)
    requires
        0 <= n <= m,
        !(rendered_tokens(toks, n, vars, opt, outcomes) is Done),
    ensures
        rendered_tokens(toks, m, vars, opt, outcomes) == rendered_tokens(
            toks,
            n,
            vars,
            opt,
            outcomes,
        ),
    decreases m - n,
{
    if n < m {
        lemma_failed_stays(toks, n, m - 1, vars, opt, outcomes);
    }
}

/// Under `Silent` no argument fails to resolve.
pub proof fn lemma_silent_args(
    args: Seq<FnArgView>,
    n: int,
    vars: Map<Seq<char>, Seq<char>>,
    opt: RenderOptions,
)
    requires
        opt.error_behavior is Silent,
    ensures
        resolved_args(args, n, vars, opt) is Ok,
    decreases n,
{
    if n > 0 {
        lemma_silent_args(args, n - 1, vars, opt);
    }
}

/// Under `Silent` rendering never fails, whatever the callback returns.
pub proof fn lemma_silent_never_fails(
    toks: Seq<TokenView>,
    n: int,
    vars: Map<Seq<char>, Seq<char>>,
    opt: RenderOptions,
    outcomes: Seq<Outcome>,
)
    requires
        opt.error_behavior is Silent,
    ensures
        !(rendered_tokens(toks, n, vars, opt, outcomes) is Failed),
    decreases n,
{
    if n > 0 {
        lemma_silent_never_fails(toks, n - 1, vars, opt, outcomes);
        match toks[n - 1] {
            TokenView::Tag { val: ValView::Fn { args, .. }, .. } => {
                lemma_silent_args(args, args.len() as int, vars, opt);
            },
            _ => {},
        }
    }
}

/// Under `Throw` a template with a tag that names a missing variable is never
/// rendered to the end, whatever the callback returns.
pub proof fn lemma_missing_variable_fails(
    toks: Seq<TokenView>,
    vars: Map<Seq<char>, Seq<char>>,
    opt: RenderOptions,
    outcomes: Seq<Outcome>,
    i: int,
    n: int,
)
    requires
        opt.error_behavior is Throw,
        0 <= i < n <= toks.len(),
        toks[i] matches TokenView::Tag { val: ValView::Var { name }, .. } && !vars.contains_key(
            name,
        ),
    ensures
        !(rendered_tokens(toks, n, vars, opt, outcomes) is Done),
    decreases n,
{
    if i < n - 1 {
        lemma_missing_variable_fails(toks, vars, opt, outcomes, i, n - 1);
    }
}

/// Under `Silent` a tag that names a missing variable is rendered as nothing.
pub proof fn lemma_missing_variable_is_empty(
    name: Seq<char>,
    vars: Map<Seq<char>, Seq<char>>,
    opt: RenderOptions,
    outcomes: Seq<Outcome>,
)
    requires
        opt.error_behavior is Silent,
        !vars.contains_key(name),
    ensures
        rendered_tag(ValView::Var { name }, vars, opt, outcomes) == (Rendered::Done {
            value: Seq::<char>::empty(),
            calls: 0,
        }),
{
}

/// Renders the tokens against the table `vars`. Each call of a function goes to
/// `cb`, in the order of the source. The result is what the tokens give for the
/// outcomes of those calls; under `Silent` it is never an error.
pub fn render<T: TemplateCallback>(
    tokens: &Tokens,
    vars: &StringHashMap<String>,
    cb: &T,
    opt: &RenderOptions,
) -> (r: Result<String, Error>)
    ensures
        exists|outcomes: Seq<Outcome>|
            rendered(tokens@, table_of(vars@), *opt, outcomes) == ended(
                text_result(r),
                outcomes.len(),
            ),
        opt.error_behavior is Silent ==> r is Ok,
{
    let (r, Ghost(trace)) = render_traced(tokens, vars, cb, opt);
    proof {
        if opt.error_behavior is Silent {
            lemma_silent_never_fails(tokens@, tokens@.len() as int, table_of(vars@), *opt, trace);
        }
    }
    r
}

/// Parses the template and renders it, and records the outcomes of the calls made.
pub(crate) fn parse_and_render_traced<T: TemplateCallback>(
    template: &str,
    vars: &StringHashMap<String>,
    cb: &T,
    opt: &RenderOptions,
) -> (r: (Result<String, Error>, Ghost<Seq<Outcome>>))
    ensures
        rendered_template(template@, table_of(vars@), *opt, r.1@) == ended(
            text_result(r.0),
            r.1@.len(),
        ),
{
    match parse_template(template) {
        Err(e) => (Err(e), Ghost(Seq::empty())),
        Ok(tokens) => render_traced(&tokens, vars, cb, opt),
    }
}

/// Parses the template and renders it against the table `vars`. A template that
/// does not parse gives the parse error, and no function is called.
pub fn parse_and_render<T: TemplateCallback>(
    template: &str,
    vars: &StringHashMap<String>,
    cb: &T,
    opt: &RenderOptions,
) -> (r: Result<String, Error>)
    ensures
        exists|outcomes: Seq<Outcome>|
            rendered_template(template@, table_of(vars@), *opt, outcomes) == ended(
                text_result(r),
                outcomes.len(),
            ),
        parsed(template@) matches Err(kind) ==> text_result(r) == Err::<Seq<char>, ErrorView>(
            ErrorView::ParseError(kind),
        ),
{
    let (r, Ghost(trace)) = parse_and_render_traced(template, vars, cb, opt);
    r
}

} // verus!
