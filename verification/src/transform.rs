//! Rewriting of the literal arguments of a template before it is stored.
//!
//! Every string literal that is an argument of a call is handed to the
//! callback, which may return another text for it: so a secret that was typed
//! in the clear is stored encrypted. A tag of which nothing changed stays as it
//! was written; a tag of which an argument changed is written anew.
use vstd::prelude::*;
use crate::error::{Error, ErrorView};
use crate::parser::arg_views;
use crate::renderer::{ended, mapped, text_result, Outcome, Rendered, TemplateCallback};
use crate::tokens::{
    tag_text, token_views, FnArg, FnArgView, Token, TokenView, Tokens, Val, ValView,
};

verus! {

/// The tokens that an executable result stands for.
pub open spec fn tokens_result(r: Result<Tokens, Error>) -> Result<Seq<TokenView>, ErrorView> {
    match r {
        Ok(tokens) => Ok(tokens@),
        Err(e) => Err(e@),
    }
}

/// The argument after the callback was asked about it. Only a string literal
/// is handed to the callback.
pub open spec fn transformed_arg(arg: FnArgView, outcomes: Seq<Outcome>) -> Rendered<FnArgView> {
    match arg.value {
        ValView::Str { .. } => if outcomes.len() == 0 {
            Rendered::Starved
        } else {
            mapped(
                ended(outcomes[0], 1),
                |text: Seq<char>| FnArgView { name: arg.name, value: ValView::Str { text } },
            )
        },
        _ => Rendered::Done { value: arg, calls: 0 },
    }
}

/// The first `n` arguments after the callback was asked about them, in order.
pub open spec fn transformed_args(
    args: Seq<FnArgView>,
    n: int,
    outcomes: Seq<Outcome>,
) -> Rendered<Seq<FnArgView>>
    decreases n,
{
    if n <= 0 {
        Rendered::Done { value: Seq::empty(), calls: 0 }
    } else {
        match transformed_args(args, n - 1, outcomes) {
            Rendered::Done { value: done, calls } => mapped(
                transformed_arg(args[n - 1], outcomes.skip(calls as int)),
                |arg: FnArgView| done.push(arg),
            ).after(calls),
            other => other,
        }
    }
}

/// The tag of the call `name` with the arguments `new_args`, which stood as
/// `token` with the arguments `args`: the same token if nothing changed.
pub open spec fn rewritten_tag(
    token: TokenView,
    name: Seq<char>,
    args: Seq<FnArgView>,
    new_args: Seq<FnArgView>,
) -> TokenView {
    if new_args == args {
        token
    } else {
        TokenView::Tag {
            val: ValView::Fn { name, args: new_args },
            source: tag_text(ValView::Fn { name, args: new_args }),
        }
    }
}

/// The token after the callback was asked about its arguments.
pub open spec fn transformed_token(token: TokenView, outcomes: Seq<Outcome>) -> Rendered<
    TokenView,
> {
    match token {
        TokenView::Tag { val: ValView::Fn { name, args }, .. } => mapped(
            transformed_args(args, args.len() as int, outcomes),
            |new_args: Seq<FnArgView>| rewritten_tag(token, name, args, new_args),
        ),
        other => Rendered::Done { value: other, calls: 0 },
    }
}

/// The first `n` tokens after the callback was asked about their arguments.
pub open spec fn transformed_tokens(toks: Seq<TokenView>, n: int, outcomes: Seq<Outcome>) -> Rendered<
    Seq<TokenView>,
>
    decreases n,
{
    if n <= 0 {
        Rendered::Done { value: Seq::empty(), calls: 0 }
    } else {
        match transformed_tokens(toks, n - 1, outcomes) {
            Rendered::Done { value: done, calls } => mapped(
                transformed_token(toks[n - 1], outcomes.skip(calls as int)),
                |token: TokenView| done.push(token),
            ).after(calls),
            other => other,
        }
    }
}

/// The token list after the callback was asked about every literal argument.
pub open spec fn transformed(toks: Seq<TokenView>, outcomes: Seq<Outcome>) -> Rendered<
    Seq<TokenView>,
> {
    transformed_tokens(toks, toks.len() as int, outcomes)
}

/// Arguments that did not run out of outcomes used no outcome behind the calls
/// made for them; more outcomes behind them change nothing.
pub proof fn lemma_transformed_args_stable(
    args: Seq<FnArgView>,
    n: int,
    outcomes: Seq<Outcome>,
    more: Seq<Outcome>,
)
    requires
        !(transformed_args(args, n, outcomes) is Starved),
    ensures
        transformed_args(args, n, outcomes + more) == transformed_args(args, n, outcomes),
        transformed_args(args, n, outcomes).calls_made() <= outcomes.len(),
    decreases n,
{
    if n > 0 {
        lemma_transformed_args_stable(args, n - 1, outcomes, more);
        match transformed_args(args, n - 1, outcomes) {
            Rendered::Done { calls, .. } => {
                let rest = outcomes.skip(calls as int);
                assert((outcomes + more).skip(calls as int) =~= rest + more);
                if rest.len() > 0 {
                    assert((rest + more)[0] == rest[0]);
                }
            },
            _ => {},
        }
    }
}

/// The same for tokens.
pub proof fn lemma_transformed_tokens_stable(
    toks: Seq<TokenView>,
    n: int,
    outcomes: Seq<Outcome>,
    more: Seq<Outcome>,
)
    requires
        !(transformed_tokens(toks, n, outcomes) is Starved),
    ensures
        transformed_tokens(toks, n, outcomes + more) == transformed_tokens(toks, n, outcomes),
        transformed_tokens(toks, n, outcomes).calls_made() <= outcomes.len(),
    decreases n,
{
    if n > 0 {
        lemma_transformed_tokens_stable(toks, n - 1, outcomes, more);
        match transformed_tokens(toks, n - 1, outcomes) {
            Rendered::Done { calls, .. } => {
                let rest = outcomes.skip(calls as int);
                assert((outcomes + more).skip(calls as int) =~= rest + more);
                match toks[n - 1] {
                    TokenView::Tag { val: ValView::Fn { args, .. }, .. } => {
                        lemma_transformed_args_stable(args, args.len() as int, rest, more);
                    },
                    _ => {},
                }
            },
            _ => {},
        }
    }
}

/// Once an argument has failed, the arguments as a whole fail with the same error.
pub proof fn lemma_args_failed_stays(args: Seq<FnArgView>, n: int, m: int, outcomes: Seq<Outcome>)
    requires
        0 <= n <= m,
        !(transformed_args(args, n, outcomes) is Done),
    ensures
        transformed_args(args, m, outcomes) == transformed_args(args, n, outcomes),
    decreases m - n,
{
    if n < m {
        lemma_args_failed_stays(args, n, m - 1, outcomes);
    }
}

/// Once a token has failed, the tokens as a whole fail with the same error.
pub proof fn lemma_tokens_failed_stays(toks: Seq<TokenView>, n: int, m: int, outcomes: Seq<Outcome>)
    requires
        0 <= n <= m,
        !(transformed_tokens(toks, n, outcomes) is Done),
    ensures
        transformed_tokens(toks, m, outcomes) == transformed_tokens(toks, n, outcomes),
    decreases m - n,
{
    if n < m {
        lemma_tokens_failed_stays(toks, n, m - 1, outcomes);
    }
}

/// The arguments that an executable result stands for.
pub open spec fn args_result(r: Result<Vec<FnArg>, Error>) -> Result<Seq<FnArgView>, ErrorView> {
    match r {
        Ok(args) => Ok(arg_views(args@)),
        Err(e) => Err(e@),
    }
}

/// Asks the callback about every literal among the arguments `args` of the
/// function `fn_name`, and records the outcomes of the calls made.
pub(crate) fn transform_fn_args<T: TemplateCallback>(
    fn_name: &str,
    args: &Vec<FnArg>,
    cb: &T,
) -> (r: (Result<Vec<FnArg>, Error>, Ghost<Seq<Outcome>>))
    ensures
        transformed_args(arg_views(args@), args.len() as int, r.1@) == ended(
            args_result(r.0),
            r.1@.len(),
        ),
{
    let ghost views = arg_views(args@);
    let ghost mut trace: Seq<Outcome> = Seq::empty();
    let mut done: Vec<FnArg> = Vec::new();
    let mut i: usize = 0;
    assert(arg_views(done@) =~= Seq::empty());
    while i < args.len()
        invariant
            i <= args.len(),
            views == arg_views(args@),
            transformed_args(views, i as int, trace) == (Rendered::Done {
                value: arg_views(done@),
                calls: trace.len(),
            }),
        decreases args.len() - i,
    {
        let arg = &args[i];
        assert(views[i as int] == arg@);
        let ghost before = trace;
        assert(before.skip(before.len() as int) =~= Seq::<Outcome>::empty());
        let new_arg = match &arg.value {
            Val::Str { text } => {
                let outcome = cb.transform_arg(fn_name, arg.name.as_str(), text.as_str());
                proof {
                    lemma_transformed_args_stable(
                        views,
                        i as int,
                        before,
                        seq![text_result(outcome)],
                    );
                    trace = before + seq![text_result(outcome)];
                    assert(trace.skip(before.len() as int) =~= seq![text_result(outcome)]);
                }
                match outcome {
                    Err(e) => {
                        proof {
                            lemma_args_failed_stays(views, i + 1, views.len() as int, trace);
                        }
                        return (Err(e), Ghost(trace));
                    },
                    Ok(new_text) => FnArg {
                        name: arg.name.clone(),
                        value: Val::Str { text: new_text },
                    },
                }
            },
            _ => arg.clone(),
        };
        proof {
            assert(arg_views(done@.push(new_arg)) =~= arg_views(done@).push(new_arg@));
        }
        done.push(new_arg);
        i += 1;
    }
    (Ok(done), Ghost(trace))
}

/// Whether the two lists of arguments are the same.
pub fn same_args(a: &Vec<FnArg>, b: &Vec<FnArg>) -> (same: bool)
    ensures
        same == (arg_views(a@) == arg_views(b@)),
{
    if a.len() != b.len() {
        assert(arg_views(a@).len() != arg_views(b@).len());
        return false;
    }
    let mut i: usize = 0;
    while i < a.len()
        invariant
            i <= a.len(),
            a.len() == b.len(),
            forall|k: int| 0 <= k < i ==> a@[k]@ == b@[k]@,
        decreases a.len() - i,
    {
        if !same_arg(&a[i], &b[i]) {
            assert(arg_views(a@)[i as int] != arg_views(b@)[i as int]);
            return false;
        }
        i += 1;
    }
    assert(arg_views(a@) =~= arg_views(b@));
    true
}

/// Whether the two arguments are the same.
pub fn same_arg(a: &FnArg, b: &FnArg) -> (same: bool)
    ensures
        same == (a@ == b@),
    decreases a,
{
    a.name == b.name && same_val(&a.value, &b.value)
}

/// Whether the two values are the same.
pub fn same_val(a: &Val, b: &Val) -> (same: bool)
    ensures
        same == (a@ == b@),
    decreases a,
{
    match (a, b) {
        (Val::Str { text: x }, Val::Str { text: y }) => *x == *y,
        (Val::Var { name: x }, Val::Var { name: y }) => *x == *y,
        (Val::Fn { name: x, args: xs }, Val::Fn { name: y, args: ys }) => {
            if *x != *y || xs.len() != ys.len() {
                assert(a@->Fn_args.len() != b@->Fn_args.len() || a@->Fn_name != b@->Fn_name);
                return false;
            }
            let mut i: usize = 0;
            while i < xs.len()
                invariant
                    i <= xs.len(),
                    xs.len() == ys.len(),
                    a@ == (ValView::Fn { name: x@, args: a@->Fn_args }),
                    b@ == (ValView::Fn { name: y@, args: b@->Fn_args }),
                    a@->Fn_args.len() == xs.len(),
                    b@->Fn_args.len() == ys.len(),
                    forall|k: int| 0 <= k < xs.len() ==> a@->Fn_args[k] == xs@[k]@,
                    forall|k: int| 0 <= k < ys.len() ==> b@->Fn_args[k] == ys@[k]@,
                    forall|k: int| 0 <= k < xs.len() ==> decreases_to!(a => xs@[k]),
                    forall|k: int| 0 <= k < i ==> xs@[k]@ == ys@[k]@,
                    x@ == y@,
                decreases xs.len() - i,
            {
                if !same_arg(&xs[i], &ys[i]) {
                    assert(a@->Fn_args[i as int] != b@->Fn_args[i as int]);
                    return false;
                }
                i += 1;
            }
            assert(a@->Fn_args =~= b@->Fn_args);
            true
        },
        _ => false,
    }
}

/// Hands every string literal that is an argument of a call to the callback and
/// puts what it returns in the literal's place. A tag of which no argument
/// changed is kept as it was written. The first failure of the callback is
/// returned, and nothing else. The result is what the tokens give for the
/// outcomes of the calls made.
pub fn transform_args<T: TemplateCallback>(tokens: Tokens, cb: &T) -> (r: Result<Tokens, Error>)
    ensures
        exists|outcomes: Seq<Outcome>|
            transformed(tokens@, outcomes) == ended(tokens_result(r), outcomes.len()),
{
    let (r, Ghost(trace)) = transform_args_traced(&tokens, cb);
    r
}

/// Rewrites the literal arguments of the tokens and records the outcomes of the
/// calls made.
pub(crate) fn transform_args_traced<T: TemplateCallback>(tokens: &Tokens, cb: &T) -> (r: (
    Result<Tokens, Error>,
    Ghost<Seq<Outcome>>,
))
    ensures
        transformed(tokens@, r.1@) == ended(tokens_result(r.0), r.1@.len()),
{
    let ghost toks = tokens@;
    let ghost mut trace: Seq<Outcome> = Seq::empty();
    let mut done: Vec<Token> = Vec::new();
    let mut i: usize = 0;
    assert(token_views(done@) =~= Seq::empty());
    while i < tokens.tokens.len()
        invariant
            i <= tokens.tokens.len(),
            toks == tokens@,
            toks.len() == tokens.tokens.len(),
            transformed_tokens(toks, i as int, trace) == (Rendered::Done {
                value: token_views(done@),
                calls: trace.len(),
            }),
        decreases tokens.tokens.len() - i,
    {
        let token = &tokens.tokens[i];
        assert(toks[i as int] == token@);
        let ghost before = trace;
        assert(before.skip(before.len() as int) =~= Seq::<Outcome>::empty());
        let new_token = match token {
            Token::Tag { val: Val::Fn { name, args }, source } => {
                assert(token@->Tag_val->Fn_args =~= arg_views(args@));
                let (r, Ghost(step)) = transform_fn_args(name.as_str(), args, cb);
                proof {
                    lemma_transformed_tokens_stable(toks, i as int, before, step);
                    trace = before + step;
                    assert(trace.skip(before.len() as int) =~= step);
                }
                match r {
                    Err(e) => {
                        proof {
                            lemma_tokens_failed_stays(toks, i + 1, toks.len() as int, trace);
                        }
                        return (Err(e), Ghost(trace));
                    },
                    Ok(new_args) => {
                        if same_args(&new_args, args) {
                            token.clone()
                        } else {
                            let val = Val::Fn { name: name.clone(), args: new_args };
                            assert(val@->Fn_args =~= arg_views(new_args@));
                            Token::tag(val)
                        }
                    },
                }
            },
            other => other.clone(),
        };
        proof {
            assert(token_views(done@.push(new_token)) =~= token_views(done@).push(new_token@));
        }
        done.push(new_token);
        i += 1;
    }
    (Ok(Tokens { tokens: done }), Ghost(trace))
}

} // verus!
