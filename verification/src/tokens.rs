//! The parsed form of a template: literal text and tags.
//!
//! A token list is written out again by `Tokens::to_string`: literal text with
//! its markers escaped, each tag as it stood in the source.
use vstd::prelude::*;
use crate::escape::{escape_template, escaped};

verus! {

/// What a tag or an argument holds.
#[derive(Debug, PartialEq, Eq)]
pub enum Val {
    /// A literal string.
    Str { text: String },
    /// A reference to a variable.
    Var { name: String },
    /// A call of a function with named arguments.
    Fn { name: String, args: Vec<FnArg> },
}

/// A named argument of a function call.
#[derive(Debug, PartialEq, Eq)]
pub struct FnArg {
    pub name: String,
    pub value: Val,
}

/// A `Val` as a mathematical value.
pub enum ValView {
    Str { text: Seq<char> },
    Var { name: Seq<char> },
    Fn { name: Seq<char>, args: Seq<FnArgView> },
}

/// An `FnArg` as a mathematical value.
pub struct FnArgView {
    pub name: Seq<char>,
    pub value: ValView,
}

impl View for Val {
    type V = ValView;

    open spec fn view(&self) -> ValView
        decreases self,
    {
        match self {
            Val::Str { text } => ValView::Str { text: text@ },
            Val::Var { name } => ValView::Var { name: name@ },
            Val::Fn { name, args } => ValView::Fn {
                name: name@,
                args: Seq::new(
                    args@.len(),
                    |i: int|
                        FnArgView {
                            name: args@[i].name@,
                            value: if 0 <= i < args@.len() {
                                args@[i].value.view()
                            } else {
                                ValView::Str { text: Seq::empty() }
                            },
                        },
                ),
            },
        }
    }
}

impl View for FnArg {
    type V = FnArgView;

    open spec fn view(&self) -> FnArgView {
        FnArgView { name: self.name@, value: self.value@ }
    }
}

impl Clone for Val {
    #[verifier::loop_isolation(false)]
    fn clone(&self) -> (r: Self)
        ensures
            r@ == self@,
        decreases self,
    {
        match self {
            Val::Str { text } => Val::Str { text: text.clone() },
            Val::Var { name } => Val::Var { name: name.clone() },
            Val::Fn { name, args } => {
                let mut copy: Vec<FnArg> = Vec::new();
                let mut i: usize = 0;
                while i < args.len()
                    invariant
                        i <= args.len(),
                        copy.len() == i,
                        forall|k: int| 0 <= k < i ==> copy@[k]@ == args@[k]@,
                    decreases args.len() - i,
                {
                    let arg = &args[i];
                    proof {
                        broadcast use vstd::std_specs::vec::axiom_vec_index_decreases;

                        assert(decreases_to!(args => args[i as int]));
                    }
                    copy.push(FnArg { name: arg.name.clone(), value: arg.value.clone() });
                    i += 1;
                }
                let r = Val::Fn { name: name.clone(), args: copy };
                assert(r@ == self@) by {
                    assert(r@->Fn_args =~= self@->Fn_args);
                }
                r
            },
        }
    }
}

impl Clone for FnArg {
    fn clone(&self) -> (r: Self)
        ensures
            r@ == self@,
    {
        FnArg { name: self.name.clone(), value: self.value.clone() }
    }
}

/// One piece of a template.
#[derive(Debug, PartialEq, Eq)]
pub enum Token {
    /// Literal text, as it is to appear in the output.
    Raw { text: String },
    /// A tag: what it holds, and the tag as written, from `${[` to `]}`.
    Tag { val: Val, source: String },
}

/// A `Token` as a mathematical value.
pub enum TokenView {
    Raw { text: Seq<char> },
    Tag { val: ValView, source: Seq<char> },
}

impl View for Token {
    type V = TokenView;

    open spec fn view(&self) -> TokenView {
        match self {
            Token::Raw { text } => TokenView::Raw { text: text@ },
            Token::Tag { val, source } => TokenView::Tag { val: val@, source: source@ },
        }
    }
}

impl Clone for Token {
    fn clone(&self) -> (r: Self)
        ensures
            r@ == self@,
    {
        match self {
            Token::Raw { text } => Token::Raw { text: text.clone() },
            Token::Tag { val, source } => Token::Tag { val: val.clone(), source: source.clone() },
        }
    }
}

/// A parsed template.
#[derive(Debug, PartialEq, Eq)]
pub struct Tokens {
    pub tokens: Vec<Token>,
}

/// The views of the tokens of `toks`, in order.
pub open spec fn token_views(toks: Seq<Token>) -> Seq<TokenView> {
    toks.map_values(|t: Token| t@)
}

impl View for Tokens {
    type V = Seq<TokenView>;

    open spec fn view(&self) -> Seq<TokenView> {
        token_views(self.tokens@)
    }
}

/// The first `n` characters of a string literal's content as written between the
/// quotes: a backslash stands before each `"` and each `\`.
pub open spec fn literal_prefix(text: Seq<char>, n: int) -> Seq<char>
    decreases n,
{
    if n <= 0 {
        Seq::empty()
    } else if text[n - 1] == '"' || text[n - 1] == '\\' {
        literal_prefix(text, n - 1) + seq!['\\', text[n - 1]]
    } else {
        literal_prefix(text, n - 1) + seq![text[n - 1]]
    }
}

/// `text` as a string literal.
pub open spec fn quoted(text: Seq<char>) -> Seq<char> {
    seq!['"'] + literal_prefix(text, text.len() as int) + seq!['"']
}

/// An argument as written in a tag: its name, `: ` and its value.
pub open spec fn arg_text(arg: FnArgView) -> Seq<char>
    decreases arg, 0int,
{
    arg.name + seq![':', ' '] + val_text(arg.value)
}

/// The first `n` arguments as written in a tag, with `, ` between them.
pub open spec fn args_text(args: Seq<FnArgView>, n: int) -> Seq<char>
    decreases args, n,
{
    if n <= 0 || n > args.len() {
        Seq::empty()
    } else if n == 1 {
        arg_text(args[0])
    } else {
        args_text(args, n - 1) + seq![',', ' '] + arg_text(args[n - 1])
    }
}

/// A value as written in a tag.
pub open spec fn val_text(val: ValView) -> Seq<char>
    decreases val, 0int,
{
    match val {
        ValView::Str { text } => quoted(text),
        ValView::Var { name } => name,
        ValView::Fn { name, args } => name + seq!['('] + args_text(args, args.len() as int)
            + seq![')'],
    }
}

/// The tag that holds `val`, written in the usual form.
pub open spec fn tag_text(val: ValView) -> Seq<char> {
    seq!['$', '{', '[', ' '] + val_text(val) + seq![' ', ']', '}']
}

/// A token as written in a template.
pub open spec fn token_text(token: TokenView) -> Seq<char> {
    match token {
        TokenView::Raw { text } => escaped(text),
        TokenView::Tag { source, .. } => source,
    }
}

/// The first `n` tokens as written in a template.
pub open spec fn tokens_text_prefix(toks: Seq<TokenView>, n: int) -> Seq<char>
    decreases n,
{
    if n <= 0 {
        Seq::empty()
    } else {
        tokens_text_prefix(toks, n - 1) + token_text(toks[n - 1])
    }
}

/// The template that `toks` was parsed from, or stands for.
pub open spec fn tokens_text(toks: Seq<TokenView>) -> Seq<char> {
    tokens_text_prefix(toks, toks.len() as int)
}

/// Appends `text` to `out` as a string literal.
pub fn write_quoted(out: &mut String, text: &str)
    ensures
        final(out)@ == old(out)@ + quoted(text@),
{
    out.push('"');
    let chars = crate::text::chars_of(text);
    let mut i: usize = 0;
    while i < chars.len()
        invariant
            i <= chars.len(),
            chars@ == text@,
            out@ == old(out)@ + seq!['"'] + literal_prefix(chars@, i as int),
        decreases chars.len() - i,
    {
        let c = chars[i];
        if c == '"' || c == '\\' {
            out.push('\\');
        }
        out.push(c);
        i += 1;
    }
    out.push('"');
}

impl Val {
    /// Appends this value to `out` as it is written in a tag.
    pub fn write_to(&self, out: &mut String)
        ensures
            final(out)@ == old(out)@ + val_text(self@),
        decreases self,
    {
        match self {
            Val::Str { text } => {
                write_quoted(out, text.as_str());
            },
            Val::Var { name } => {
                out.append(name.as_str());
            },
            Val::Fn { name, args } => {
                out.append(name.as_str());
                out.push('(');
                let ghost base = out@;
                let ghost views = self@->Fn_args;
                let mut i: usize = 0;
                while i < args.len()
                    invariant
                        i <= args.len(),
                        views.len() == args.len(),
                        forall|k: int| 0 <= k < args.len() ==> views[k] == args@[k]@,
                        forall|k: int| 0 <= k < args.len() ==> decreases_to!(self => args@[k]),
                        out@ == base + args_text(views, i as int),
                    decreases args.len() - i,
                {
                    let ghost before = out@;
                    if i > 0 {
                        out.append(", ");
                        proof {
                            reveal_strlit(", ");
                            assert(", "@ =~= seq![',', ' ']);
                        }
                    }
                    let arg = &args[i];
                    out.append(arg.name.as_str());
                    out.append(": ");
                    proof {
                        reveal_strlit(": ");
                        assert(": "@ =~= seq![':', ' ']);
                    }
                    arg.value.write_to(out);
                    proof {
                        assert(views[i as int] == arg@);
                        let sep = if i > 0 {
                            seq![',', ' ']
                        } else {
                            Seq::<char>::empty()
                        };
                        assert(out@ =~= before + sep + arg_text(arg@));
                        assert(args_text(views, i + 1) =~= args_text(views, i as int) + sep
                            + arg_text(arg@));
                        assert(out@ =~= base + args_text(views, i + 1));
                    }
                    i += 1;
                }
                out.push(')');
            },
        }
    }
}

impl Token {
    /// The tag that holds `val`, written in the usual form: `${[ `, the value, ` ]}`.
    pub fn tag(val: Val) -> (token: Token)
        ensures
            token@ == (TokenView::Tag { val: val@, source: tag_text(val@) }),
    {
        let mut source = String::new();
        source.push('$');
        source.push('{');
        source.push('[');
        source.push(' ');
        val.write_to(&mut source);
        source.push(' ');
        source.push(']');
        source.push('}');
        assert(source@ =~= tag_text(val@));
        Token::Tag { val, source }
    }

    /// This token as written in a template.
    pub fn to_string(&self) -> (s: String)
        ensures
            s@ == token_text(self@),
    {
        match self {
            Token::Raw { text } => escape_template(text.as_str()),
            Token::Tag { source, .. } => source.clone(),
        }
    }
}

impl Tokens {
    /// The template that these tokens were parsed from, or stand for.
    pub fn to_string(&self) -> (s: String)
        ensures
            s@ == tokens_text(self@),
    {
        let mut s = String::new();
        let mut i: usize = 0;
        while i < self.tokens.len()
            invariant
                i <= self.tokens.len(),
                s@ == tokens_text_prefix(self@, i as int),
            decreases self.tokens.len() - i,
        {
            let piece = self.tokens[i].to_string();
            s.append(piece.as_str());
            i += 1;
        }
        s
    }
}

impl Clone for Tokens {
    fn clone(&self) -> (r: Self)
        ensures
            r@ == self@,
    {
        let mut tokens: Vec<Token> = Vec::new();
        let mut i: usize = 0;
        while i < self.tokens.len()
            invariant
                i <= self.tokens.len(),
                tokens.len() == i,
                forall|k: int| 0 <= k < i ==> tokens@[k]@ == self.tokens@[k]@,
            decreases self.tokens.len() - i,
        {
            tokens.push(self.tokens[i].clone());
            i += 1;
        }
        let r = Tokens { tokens };
        assert(r@ =~= self@);
        r
    }
}

} // verus!
