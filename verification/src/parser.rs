//! Parsing of templates.
//!
//! A template is literal text with tags in it. A tag starts at an occurrence of
//! `${[` that is not escaped and ends with `]}`. It holds the name of a variable,
//! or a call: a name and, in parentheses, arguments of the form `name: value`
//! with commas between them, where a value is a string literal in double quotes
//! or the name of a variable. Whitespace around the parts of a tag means nothing.
//! Inside a string literal a backslash makes the character behind it literal.
use vstd::prelude::*;
use crate::error::{Error, ErrorView, ParseErrorKind};
use crate::escape::{
    count_backslashes_before, is_open_at, is_unescaped_open, open_at, unescape_template,
    unescaped,
};
use crate::text::{
    chars_of, is_whitespace, lemma_skip_whitespace, skip_whitespace, string_from_range,
};
use crate::tokens::{FnArg, FnArgView, Token, TokenView, Tokens, Val, ValView, token_views};

verus! {

/// A character that may start a name: an ASCII letter or `_`.
pub open spec fn is_name_start(c: char) -> bool {
    let u = c as u32;
    (0x61 <= u <= 0x7A) || (0x41 <= u <= 0x5A) || u == 0x5F
}

/// A character that may stand in a name: an ASCII letter or digit, `_`, `-` or `.`.
pub open spec fn is_name_char(c: char) -> bool {
    let u = c as u32;
    is_name_start(c) || (0x30 <= u <= 0x39) || u == 0x2D || u == 0x2E
}

/// The index behind the name that starts at `i`.
pub open spec fn name_end(s: Seq<char>, i: int) -> int
    decreases s.len() - i,
{
    if 0 <= i < s.len() && is_name_char(s[i]) {
        name_end(s, i + 1)
    } else {
        i
    }
}

/// The index of the quote that closes the string literal whose content starts at
/// `i`; the length of `s` if the literal is not closed.
pub open spec fn string_close(s: Seq<char>, i: int) -> int
    decreases s.len() - i,
{
    if i < 0 || i >= s.len() {
        s.len() as int
    } else if s[i] == '"' {
        i
    } else if s[i] == '\\' && i + 1 < s.len() {
        string_close(s, i + 2)
    } else {
        string_close(s, i + 1)
    }
}

/// What the string literal whose content starts at `i` stands for.
pub open spec fn string_text(s: Seq<char>, i: int) -> Seq<char>
    decreases s.len() - i,
{
    if i < 0 || i >= s.len() || s[i] == '"' {
        Seq::empty()
    } else if s[i] == '\\' && i + 1 < s.len() {
        seq![s[i + 1]] + string_text(s, i + 2)
    } else {
        seq![s[i]] + string_text(s, i + 1)
    }
}

/// The closing marker `]}` stands at `i`.
pub open spec fn is_close_at(s: Seq<char>, i: int) -> bool {
    0 <= i && i + 1 < s.len() && s[i] == ']' && s[i + 1] == '}'
}

/// The value of an argument, read at `i`, and the index behind it.
pub open spec fn parse_value(s: Seq<char>, i: int) -> Result<(ValView, int), ParseErrorKind> {
    if s[i] == '"' {
        let close = string_close(s, i + 1);
        if close >= s.len() {
            Err(ParseErrorKind::UnbalancedQuotes)
        } else {
            Ok((ValView::Str { text: string_text(s, i + 1) }, close + 1))
        }
    } else if is_name_start(s[i]) {
        Ok((ValView::Var { name: s.subrange(i, name_end(s, i)) }, name_end(s, i)))
    } else {
        Err(ParseErrorKind::InvalidValue)
    }
}

/// One argument, read from `i` on, and the index of what follows it.
pub open spec fn parse_arg(s: Seq<char>, i: int) -> Result<(FnArgView, int), ParseErrorKind> {
    let a = skip_whitespace(s, i);
    if a >= s.len() {
        Err(ParseErrorKind::UnbalancedParentheses)
    } else if !is_name_start(s[a]) {
        Err(ParseErrorKind::InvalidName)
    } else {
        let b = name_end(s, a);
        let c = skip_whitespace(s, b);
        if c >= s.len() {
            Err(ParseErrorKind::UnbalancedParentheses)
        } else if s[c] != ':' {
            Err(ParseErrorKind::InvalidSeparator)
        } else {
            let d = skip_whitespace(s, c + 1);
            if d >= s.len() {
                Err(ParseErrorKind::UnbalancedParentheses)
            } else {
                match parse_value(s, d) {
                    Err(e) => Err(e),
                    Ok((value, e)) => Ok(
                        (FnArgView { name: s.subrange(a, b), value }, skip_whitespace(s, e)),
                    ),
                }
            }
        }
    }
}

/// `first` put before the arguments of `rest`.
pub open spec fn with_args_before(
    first: Seq<FnArgView>,
    rest: Result<(Seq<FnArgView>, int), ParseErrorKind>,
) -> Result<(Seq<FnArgView>, int), ParseErrorKind> {
    match rest {
        Ok((args, end)) => Ok((first + args, end)),
        Err(e) => Err(e),
    }
}

/// The arguments of a call, the first of them read from `i` on, and the index
/// behind the `)` that ends them.
pub open spec fn parse_args(s: Seq<char>, i: int) -> Result<(Seq<FnArgView>, int), ParseErrorKind>
    decreases s.len() - i,
{
    if i < 0 {
        Err(ParseErrorKind::UnbalancedParentheses)
    } else {
        match parse_arg(s, i) {
            Err(e) => Err(e),
            Ok((arg, f)) => if f >= s.len() {
                Err(ParseErrorKind::UnbalancedParentheses)
            } else if s[f] == ')' {
                Ok((seq![arg], f + 1))
            } else if s[f] == ',' {
                proof {
                    lemma_parse_arg_advances(s, i);
                }
                with_args_before(seq![arg], parse_args(s, f + 1))
            } else if is_close_at(s, f) {
                Err(ParseErrorKind::UnbalancedParentheses)
            } else {
                Err(ParseErrorKind::InvalidSeparator)
            },
        }
    }
}

/// What stands between the parentheses of a call, read from `i` on: nothing, or arguments.
pub open spec fn parse_call_args(s: Seq<char>, i: int) -> Result<
    (Seq<FnArgView>, int),
    ParseErrorKind,
> {
    let a = skip_whitespace(s, i);
    if a >= s.len() {
        Err(ParseErrorKind::UnbalancedParentheses)
    } else if s[a] == ')' {
        Ok((Seq::empty(), a + 1))
    } else {
        parse_args(s, a)
    }
}

/// The tag whose opening marker stands at `t`: what it holds, and the index behind
/// its closing marker.
pub open spec fn parse_tag(s: Seq<char>, t: int) -> Result<(ValView, int), ParseErrorKind> {
    let a = skip_whitespace(s, t + 3);
    if a >= s.len() {
        Err(ParseErrorKind::UnterminatedTag)
    } else if !is_name_start(s[a]) {
        Err(ParseErrorKind::InvalidName)
    } else {
        let b = name_end(s, a);
        let name = s.subrange(a, b);
        let c = skip_whitespace(s, b);
        if c >= s.len() {
            Err(ParseErrorKind::UnterminatedTag)
        } else if s[c] == '(' {
            match parse_call_args(s, c + 1) {
                Err(e) => Err(e),
                Ok((args, d)) => {
                    let e = skip_whitespace(s, d);
                    if is_close_at(s, e) {
                        Ok((ValView::Fn { name, args }, e + 2))
                    } else {
                        Err(ParseErrorKind::UnterminatedTag)
                    }
                },
            }
        } else if is_close_at(s, c) {
            Ok((ValView::Var { name }, c + 2))
        } else {
            Err(ParseErrorKind::InvalidName)
        }
    }
}

/// The first index from `i` on at which a tag starts; the length of `s` if there is none.
pub open spec fn next_tag_start(s: Seq<char>, i: int) -> int
    decreases s.len() - i,
{
    if i < 0 || i >= s.len() {
        s.len() as int
    } else if is_unescaped_open(s, i) {
        i
    } else {
        next_tag_start(s, i + 1)
    }
}

/// The literal text from `lo` up to `t` as a token, if there is any.
pub open spec fn raw_tokens(s: Seq<char>, lo: int, t: int) -> Seq<TokenView> {
    if lo < t {
        seq![TokenView::Raw { text: unescaped(s.subrange(lo, t)) }]
    } else {
        Seq::empty()
    }
}

/// `first` put before the tokens of `rest`.
pub open spec fn with_tokens_before(
    first: Seq<TokenView>,
    rest: Result<Seq<TokenView>, ParseErrorKind>,
) -> Result<Seq<TokenView>, ParseErrorKind> {
    match rest {
        Ok(toks) => Ok(first + toks),
        Err(e) => Err(e),
    }
}

/// The tokens of `s` from index `lo` on.
pub open spec fn parse_from(s: Seq<char>, lo: int) -> Result<Seq<TokenView>, ParseErrorKind>
    decreases s.len() - lo,
{
    if lo < 0 || lo >= s.len() {
        Ok(Seq::empty())
    } else {
        let t = next_tag_start(s, lo);
        if t >= s.len() {
            Ok(raw_tokens(s, lo, t))
        } else {
            match parse_tag(s, t) {
                Err(e) => Err(e),
                Ok((val, end)) => {
                    proof {
                        lemma_next_tag_start(s, lo);
                        lemma_parse_tag_advances(s, t);
                    }
                    with_tokens_before(
                        raw_tokens(s, lo, t) + seq![
                            TokenView::Tag { val, source: s.subrange(t, end) },
                        ],
                        parse_from(s, end),
                    )
                },
            }
        }
    }
}

/// The tokens of the template `s`, or what is wrong with it.
pub open spec fn parsed(s: Seq<char>) -> Result<Seq<TokenView>, ParseErrorKind> {
    parse_from(s, 0)
}

/// A name ends inside the text, and behind its start if it has a character.
pub proof fn lemma_name_end(s: Seq<char>, i: int)
    requires
        0 <= i <= s.len(),
    ensures
        i <= name_end(s, i) <= s.len(),
        i < s.len() && is_name_char(s[i]) ==> i < name_end(s, i),
    decreases s.len() - i,
{
    if i < s.len() && is_name_char(s[i]) {
        lemma_name_end(s, i + 1);
    }
}

/// A string literal is closed by a quote, or the text ends in it.
pub proof fn lemma_string_close(s: Seq<char>, i: int)
    requires
        0 <= i <= s.len(),
    ensures
        i <= string_close(s, i) <= s.len(),
        string_close(s, i) < s.len() ==> s[string_close(s, i)] == '"',
    decreases s.len() - i,
{
    if i < s.len() && s[i] != '"' {
        if s[i] == '\\' && i + 1 < s.len() {
            lemma_string_close(s, i + 2);
        } else {
            lemma_string_close(s, i + 1);
        }
    }
}

/// A value that parses holds at least one character.
pub proof fn lemma_parse_value_advances(s: Seq<char>, i: int)
    requires
        0 <= i < s.len(),
    ensures
        parse_value(s, i) matches Ok((_, end)) ==> i < end <= s.len(),
{
    lemma_string_close(s, i + 1);
    lemma_name_end(s, i);
}

/// An argument that parses holds at least one character.
pub proof fn lemma_parse_arg_advances(s: Seq<char>, i: int)
    requires
        0 <= i,
    ensures
        parse_arg(s, i) matches Ok((_, end)) ==> i < end <= s.len(),
{
    if i <= s.len() {
        lemma_skip_whitespace(s, i);
        let a = skip_whitespace(s, i);
        if a < s.len() {
            lemma_name_end(s, a);
            let b = name_end(s, a);
            lemma_skip_whitespace(s, b);
            let c = skip_whitespace(s, b);
            if c < s.len() {
                lemma_skip_whitespace(s, c + 1);
                let d = skip_whitespace(s, c + 1);
                if d < s.len() {
                    lemma_parse_value_advances(s, d);
                    if let Ok((_, e)) = parse_value(s, d) {
                        lemma_skip_whitespace(s, e);
                    }
                }
            }
        }
    }
}

/// Arguments that parse end behind a `)`.
pub proof fn lemma_parse_args_advances(s: Seq<char>, i: int)
    requires
        0 <= i,
    ensures
        parse_args(s, i) matches Ok((_, end)) ==> i < end <= s.len() && s[end - 1] == ')',
    decreases s.len() - i,
{
    lemma_parse_arg_advances(s, i);
    if let Ok((_, f)) = parse_arg(s, i) {
        if f < s.len() && s[f] == ',' {
            lemma_parse_args_advances(s, f + 1);
        }
    }
}

/// A tag that parses ends behind its closing marker, inside the text.
pub proof fn lemma_parse_tag_advances(s: Seq<char>, t: int)
    requires
        0 <= t,
        t + 3 <= s.len(),
    ensures
        parse_tag(s, t) matches Ok((_, end)) ==> t + 3 < end <= s.len() && s[end - 1] == '}',
{
    lemma_skip_whitespace(s, t + 3);
    let a = skip_whitespace(s, t + 3);
    if a < s.len() {
        lemma_name_end(s, a);
        let b = name_end(s, a);
        lemma_skip_whitespace(s, b);
        let c = skip_whitespace(s, b);
        if c < s.len() && s[c] == '(' {
            lemma_skip_whitespace(s, c + 1);
            let a2 = skip_whitespace(s, c + 1);
            if a2 < s.len() && s[a2] != ')' {
                lemma_parse_args_advances(s, a2);
            }
            if let Ok((_, d)) = parse_call_args(s, c + 1) {
                lemma_skip_whitespace(s, d);
            }
        }
    }
}

/// No tag starts before the next tag start.
pub proof fn lemma_next_tag_start(s: Seq<char>, i: int)
    requires
        0 <= i <= s.len(),
    ensures
        i <= next_tag_start(s, i) <= s.len(),
        next_tag_start(s, i) < s.len() ==> is_unescaped_open(s, next_tag_start(s, i)),
        forall|j: int| i <= j < next_tag_start(s, i) ==> !is_unescaped_open(s, j),
    decreases s.len() - i,
{
    if i < s.len() && !is_unescaped_open(s, i) {
        lemma_next_tag_start(s, i + 1);
    }
}

/// Whether `c` may start a name.
pub fn name_start(c: char) -> (b: bool)
    ensures
        b == is_name_start(c),
{
    let u = c as u32;
    (0x61 <= u && u <= 0x7A) || (0x41 <= u && u <= 0x5A) || u == 0x5F
}

/// Whether `c` may stand in a name.
pub fn name_char(c: char) -> (b: bool)
    ensures
        b == is_name_char(c),
{
    let u = c as u32;
    name_start(c) || (0x30 <= u && u <= 0x39) || u == 0x2D || u == 0x2E
}

/// The first index from `i` on that holds no whitespace.
fn skip_spaces(chars: &Vec<char>, i: usize) -> (j: usize)
    requires
        i <= chars.len(),
    ensures
        j == skip_whitespace(chars@, i as int),
        i <= j <= chars.len(),
{
    let mut j: usize = i;
    while j < chars.len() && is_whitespace(chars[j])
        invariant
            i <= j <= chars.len(),
            skip_whitespace(chars@, i as int) == skip_whitespace(chars@, j as int),
        decreases chars.len() - j,
    {
        j += 1;
    }
    j
}

/// The index behind the name that starts at `i`.
fn scan_name(chars: &Vec<char>, i: usize) -> (j: usize)
    requires
        i <= chars.len(),
    ensures
        j == name_end(chars@, i as int),
        i <= j <= chars.len(),
{
    let mut j: usize = i;
    while j < chars.len() && name_char(chars[j])
        invariant
            i <= j <= chars.len(),
            name_end(chars@, i as int) == name_end(chars@, j as int),
        decreases chars.len() - j,
    {
        j += 1;
    }
    j
}

/// Reads the content of a string literal from `start` on. Returns what it stands
/// for and the index of its closing quote, or the length of `chars` if it is not closed.
fn read_string(chars: &Vec<char>, start: usize) -> (r: (String, usize))
    requires
        start <= chars.len(),
    ensures
        r.0@ == string_text(chars@, start as int),
        r.1 == string_close(chars@, start as int),
        start <= r.1 <= chars.len(),
{
    let mut text = String::new();
    let mut i: usize = start;
    proof {
        lemma_string_close(chars@, start as int);
    }
    while i < chars.len() && chars[i] != '"'
        invariant
            start <= i <= chars.len(),
            string_text(chars@, start as int) == text@ + string_text(chars@, i as int),
            string_close(chars@, start as int) == string_close(chars@, i as int),
        decreases chars.len() - i,
    {
        let ghost before = text@;
        if chars[i] == '\\' && i + 1 < chars.len() {
            text.push(chars[i + 1]);
            assert(before + (seq![chars@[i + 1]] + string_text(chars@, i + 2)) =~= text@
                + string_text(chars@, i + 2));
            i += 2;
        } else {
            text.push(chars[i]);
            assert(before + (seq![chars@[i as int]] + string_text(chars@, i + 1)) =~= text@
                + string_text(chars@, i + 1));
            i += 1;
        }
    }
    proof {
        lemma_string_close(chars@, i as int);
        assert(text@ + Seq::<char>::empty() =~= text@);
    }
    (text, i)
}

/// The view of what a reading function found.
pub open spec fn value_found(r: Result<(Val, usize), ParseErrorKind>) -> Result<
    (ValView, int),
    ParseErrorKind,
> {
    match r {
        Ok((val, end)) => Ok((val@, end as int)),
        Err(e) => Err(e),
    }
}

/// The view of what a reading function found.
pub open spec fn arg_found(r: Result<(FnArg, usize), ParseErrorKind>) -> Result<
    (FnArgView, int),
    ParseErrorKind,
> {
    match r {
        Ok((arg, end)) => Ok((arg@, end as int)),
        Err(e) => Err(e),
    }
}

/// The views of the arguments of `args`, in order.
pub open spec fn arg_views(args: Seq<FnArg>) -> Seq<FnArgView> {
    args.map_values(|a: FnArg| a@)
}

/// The view of what a reading function found.
pub open spec fn args_found(r: Result<(Vec<FnArg>, usize), ParseErrorKind>) -> Result<
    (Seq<FnArgView>, int),
    ParseErrorKind,
> {
    match r {
        Ok((args, end)) => Ok((arg_views(args@), end as int)),
        Err(e) => Err(e),
    }
}

/// Reads the value of an argument at `i`.
fn read_value(chars: &Vec<char>, i: usize) -> (r: Result<(Val, usize), ParseErrorKind>)
    requires
        i < chars.len(),
    ensures
        value_found(r) == parse_value(chars@, i as int),
        r matches Ok((_, end)) ==> i < end <= chars.len(),
{
    if chars[i] == '"' {
        let (text, close) = read_string(chars, i + 1);
        if close >= chars.len() {
            Err(ParseErrorKind::UnbalancedQuotes)
        } else {
            Ok((Val::Str { text }, close + 1))
        }
    } else if name_start(chars[i]) {
        let end = scan_name(chars, i);
        proof {
            lemma_name_end(chars@, i as int);
        }
        Ok((Val::Var { name: string_from_range(chars, i, end) }, end))
    } else {
        Err(ParseErrorKind::InvalidValue)
    }
}

/// Reads one argument from `i` on, and the whitespace behind it.
fn read_arg(chars: &Vec<char>, i: usize) -> (r: Result<(FnArg, usize), ParseErrorKind>)
    requires
        i <= chars.len(),
    ensures
        arg_found(r) == parse_arg(chars@, i as int),
        r matches Ok((_, end)) ==> i < end <= chars.len(),
{
    let a = skip_spaces(chars, i);
    if a >= chars.len() {
        return Err(ParseErrorKind::UnbalancedParentheses);
    }
    if !name_start(chars[a]) {
        return Err(ParseErrorKind::InvalidName);
    }
    let b = scan_name(chars, a);
    let c = skip_spaces(chars, b);
    if c >= chars.len() {
        return Err(ParseErrorKind::UnbalancedParentheses);
    }
    if chars[c] != ':' {
        return Err(ParseErrorKind::InvalidSeparator);
    }
    let d = skip_spaces(chars, c + 1);
    if d >= chars.len() {
        return Err(ParseErrorKind::UnbalancedParentheses);
    }
    match read_value(chars, d) {
        Err(e) => Err(e),
        Ok((value, e)) => {
            let f = skip_spaces(chars, e);
            Ok((FnArg { name: string_from_range(chars, a, b), value }, f))
        },
    }
}

/// Reads the arguments of a call, the first of them from `start` on.
fn read_args(chars: &Vec<char>, start: usize) -> (r: Result<(Vec<FnArg>, usize), ParseErrorKind>)
    requires
        start <= chars.len(),
    ensures
        args_found(r) == parse_args(chars@, start as int),
        r matches Ok((_, end)) ==> start < end <= chars.len(),
{
    let mut args: Vec<FnArg> = Vec::new();
    let mut i: usize = start;
    assert(arg_views(args@) =~= Seq::empty());
    loop
        invariant
            start <= i <= chars.len(),
            parse_args(chars@, start as int) == with_args_before(
                arg_views(args@),
                parse_args(chars@, i as int),
            ),
        decreases chars.len() - i,
    {
        match read_arg(chars, i) {
            Err(e) => {
                return Err(e);
            },
            Ok((arg, f)) => {
                let ghost found = arg_views(args@);
                proof {
                    assert(arg_views(args@.push(arg)) =~= found + seq![arg@]);
                }
                if f >= chars.len() {
                    return Err(ParseErrorKind::UnbalancedParentheses);
                } else if chars[f] == ')' {
                    args.push(arg);
                    return Ok((args, f + 1));
                } else if chars[f] == ',' {
                    proof {
                        let rest = parse_args(chars@, f + 1);
                        match rest {
                            Ok((more, end)) => {
                                assert(found + (seq![arg@] + more) =~= (found + seq![arg@])
                                    + more);
                            },
                            Err(_) => {},
                        }
                    }
                    args.push(arg);
                    i = f + 1;
                } else if chars[f] == ']' && f + 1 < chars.len() && chars[f + 1] == '}' {
                    return Err(ParseErrorKind::UnbalancedParentheses);
                } else {
                    return Err(ParseErrorKind::InvalidSeparator);
                }
            },
        }
    }
}

/// Reads what stands between the parentheses of a call.
fn read_call_args(chars: &Vec<char>, i: usize) -> (r: Result<(Vec<FnArg>, usize), ParseErrorKind>)
    requires
        i <= chars.len(),
    ensures
        args_found(r) == parse_call_args(chars@, i as int),
        r matches Ok((_, end)) ==> i < end <= chars.len(),
{
    let a = skip_spaces(chars, i);
    if a >= chars.len() {
        Err(ParseErrorKind::UnbalancedParentheses)
    } else if chars[a] == ')' {
        let args: Vec<FnArg> = Vec::new();
        assert(arg_views(args@) =~= Seq::empty());
        Ok((args, a + 1))
    } else {
        read_args(chars, a)
    }
}

/// Whether the closing marker `]}` stands at `i`.
fn close_at(chars: &Vec<char>, i: usize) -> (b: bool)
    ensures
        b == is_close_at(chars@, i as int),
{
    i < chars.len() && chars.len() - i > 1 && chars[i] == ']' && chars[i + 1] == '}'
}

/// Reads the tag whose opening marker stands at `t`.
fn read_tag(chars: &Vec<char>, t: usize) -> (r: Result<(Val, usize), ParseErrorKind>)
    requires
        is_open_at(chars@, t as int),
    ensures
        value_found(r) == parse_tag(chars@, t as int),
        r matches Ok((_, end)) ==> t + 3 < end <= chars.len(),
{
    proof {
        lemma_parse_tag_advances(chars@, t as int);
    }
    assert(t + 2 < chars.len());
    let a = skip_spaces(chars, t + 3);
    if a >= chars.len() {
        return Err(ParseErrorKind::UnterminatedTag);
    }
    if !name_start(chars[a]) {
        return Err(ParseErrorKind::InvalidName);
    }
    let b = scan_name(chars, a);
    let c = skip_spaces(chars, b);
    if c >= chars.len() {
        return Err(ParseErrorKind::UnterminatedTag);
    }
    if chars[c] == '(' {
        match read_call_args(chars, c + 1) {
            Err(e) => Err(e),
            Ok((args, d)) => {
                let e = skip_spaces(chars, d);
                if close_at(chars, e) {
                    let val = Val::Fn { name: string_from_range(chars, a, b), args };
                    assert(val@->Fn_args =~= arg_views(args@));
                    Ok((val, e + 2))
                } else {
                    Err(ParseErrorKind::UnterminatedTag)
                }
            },
        }
    } else if close_at(chars, c) {
        Ok((Val::Var { name: string_from_range(chars, a, b) }, c + 2))
    } else {
        Err(ParseErrorKind::InvalidName)
    }
}

/// The first index from `i` on at which a tag starts.
fn find_tag_start(chars: &Vec<char>, i: usize) -> (t: usize)
    requires
        i <= chars.len(),
    ensures
        t == next_tag_start(chars@, i as int),
        i <= t <= chars.len(),
        t < chars.len() ==> is_open_at(chars@, t as int),
{
    let mut j: usize = i;
    while j < chars.len()
        invariant
            i <= j <= chars.len(),
            next_tag_start(chars@, i as int) == next_tag_start(chars@, j as int),
        decreases chars.len() - j,
    {
        if open_at(chars, j) && count_backslashes_before(chars, j) % 2 == 0 {
            return j;
        }
        j += 1;
    }
    j
}

/// What the parser returns is what the grammar gives: the tokens, or the error.
pub open spec fn is_parse_of(r: Result<Tokens, Error>, s: Seq<char>) -> bool {
    match r {
        Ok(tokens) => parsed(s) == Ok::<Seq<TokenView>, ParseErrorKind>(tokens@),
        Err(e) => parsed(s) is Err && e@ == ErrorView::ParseError(parsed(s)->Err_0),
    }
}

/// A parser for one template.
pub struct Parser {
    chars: Vec<char>,
}

impl Parser {
    /// The template that this parser reads.
    pub closed spec fn source(&self) -> Seq<char> {
        self.chars@
    }

    /// A parser for the template `text`.
    pub fn new(text: &str) -> (parser: Parser)
        ensures
            parser.source() == text@,
    {
        Parser { chars: chars_of(text) }
    }

    /// Parses the template into its tokens. Fails with `Error::ParseError` if a tag
    /// in it is malformed or not closed.
    pub fn parse(&self) -> (r: Result<Tokens, Error>)
        ensures
            is_parse_of(r, self.source()),
    {
        let chars = &self.chars;
        let mut tokens: Vec<Token> = Vec::new();
        let mut lo: usize = 0;
        assert(token_views(tokens@) =~= Seq::empty());
        while lo < chars.len()
            invariant
                lo <= chars.len(),
                chars@ == self.source(),
                parsed(chars@) == with_tokens_before(
                    token_views(tokens@),
                    parse_from(chars@, lo as int),
                ),
            decreases chars.len() - lo,
        {
            let ghost found = token_views(tokens@);
            let t = find_tag_start(chars, lo);
            if lo < t {
                let segment = string_from_range(chars, lo, t);
                let raw = Token::Raw { text: unescape_template(segment.as_str()) };
                proof {
                    assert(token_views(tokens@.push(raw)) =~= found + seq![raw@]);
                }
                tokens.push(raw);
            }
            assert(token_views(tokens@) =~= found + raw_tokens(chars@, lo as int, t as int));
            if t >= chars.len() {
                assert(parse_from(chars@, lo as int) == Ok::<Seq<TokenView>, ParseErrorKind>(
                    raw_tokens(chars@, lo as int, t as int),
                ));
                return Ok(Tokens { tokens });
            }
            match read_tag(chars, t) {
                Err(e) => {
                    assert(parse_from(chars@, lo as int) == Err::<Seq<TokenView>, ParseErrorKind>(
                        e,
                    ));
                    return Err(Error::ParseError(e));
                },
                Ok((val, end)) => {
                    let tag = Token::Tag { val, source: string_from_range(chars, t, end) };
                    proof {
                        let first = raw_tokens(chars@, lo as int, t as int) + seq![tag@];
                        assert(token_views(tokens@.push(tag)) =~= found + first);
                        match parse_from(chars@, end as int) {
                            Ok(more) => {
                                assert(found + (first + more) =~= (found + first) + more);
                            },
                            Err(_) => {},
                        }
                    }
                    tokens.push(tag);
                    lo = end;
                },
            }
        }
        assert(token_views(tokens@) + Seq::<TokenView>::empty() =~= token_views(tokens@));
        Ok(Tokens { tokens })
    }
}

/// Parses the template `template` into its tokens. Fails with `Error::ParseError`
/// if a tag in it is malformed or not closed.
pub fn parse_template(template: &str) -> (r: Result<Tokens, Error>)
    ensures
        is_parse_of(r, template@),
{
    Parser::new(template).parse()
}

} // verus!
