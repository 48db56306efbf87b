//! Pretty-printing of XML-like markup that may hold template tags.
//!
//! Each token goes on a line of its own, indented by its depth. An opening tag, a
//! text without line breaks and the matching closing tag share one line. What
//! stands inside a token is never changed.
use vstd::prelude::*;
use crate::text::{contains_char, has_visible_char, lemma_trimmed_empty, trim, trimmed};
use crate::xml_tokens::{tok_views, tokenize_with_templates, xml_tokens, XmlTok, XmlTokView};

verus! {

/// `unit` written `n` times.
pub open spec fn repeated(unit: Seq<char>, n: nat) -> Seq<char>
    decreases n,
{
    if n == 0 {
        Seq::empty()
    } else {
        repeated(unit, (n - 1) as nat) + unit
    }
}

/// One line of output: the indentation, the text and a line break.
pub open spec fn indented_line(depth: nat, indent: Seq<char>, text: Seq<char>) -> Seq<char> {
    repeated(indent, depth) + text + seq!['\n']
}

/// The depth inside an opening tag that stands at depth `depth`.
pub open spec fn deeper(depth: nat) -> nat {
    if depth < usize::MAX {
        depth + 1
    } else {
        depth
    }
}

/// The depth of a closing tag whose content stands at depth `depth`.
pub open spec fn shallower(depth: nat) -> nat {
    if depth > 0 {
        (depth - 1) as nat
    } else {
        0
    }
}

/// The tokens at `i`, `i + 1` and `i + 2` are an opening tag, a text that has
/// something visible on a single line, and the closing tag of the same name.
pub open spec fn inlines_text(toks: Seq<XmlTokView>, i: int) -> bool {
    &&& 0 <= i
    &&& i + 2 < toks.len()
    &&& toks[i] matches XmlTokView::OpenTag { name: open_name, .. }
    &&& toks[i + 1] matches XmlTokView::Text(text)
    &&& toks[i + 2] matches XmlTokView::CloseTag { name: close_name, .. }
    &&& !trimmed(text).contains('\n')
    &&& trimmed(text).len() > 0
    &&& open_name == close_name
}

/// The lines written for the tokens from index `i` on, the first of them at depth `depth`.
pub open spec fn format_from(toks: Seq<XmlTokView>, i: int, depth: nat, indent: Seq<char>) -> Seq<
    char,
>
    decreases toks.len() - i,
{
    if i < 0 || i >= toks.len() {
        Seq::empty()
    } else if inlines_text(toks, i) {
        indented_line(
            depth,
            indent,
            toks[i].raw() + trimmed(toks[i + 1].raw()) + toks[i + 2].raw(),
        ) + format_from(toks, i + 3, depth, indent)
    } else {
        match toks[i] {
            XmlTokView::OpenTag { raw, .. } => indented_line(depth, indent, raw) + format_from(
                toks,
                i + 1,
                deeper(depth),
                indent,
            ),
            XmlTokView::CloseTag { raw, .. } => indented_line(shallower(depth), indent, raw)
                + format_from(toks, i + 1, shallower(depth), indent),
            XmlTokView::Text(text) => (if has_visible_char(text) {
                indented_line(depth, indent, trimmed(text))
            } else {
                Seq::empty()
            }) + format_from(toks, i + 1, depth, indent),
            other => indented_line(depth, indent, other.raw()) + format_from(
                toks,
                i + 1,
                depth,
                indent,
            ),
        }
    }
}

/// `s` without the line break at its end, if it has one.
pub open spec fn without_final_newline(s: Seq<char>) -> Seq<char> {
    if s.len() > 0 && s.last() == '\n' {
        s.drop_last()
    } else {
        s
    }
}

/// The tokens `toks` written out, one indented line each.
pub open spec fn formatted_tokens(toks: Seq<XmlTokView>, indent: Seq<char>) -> Seq<char> {
    without_final_newline(format_from(toks, 0, 0, indent))
}

/// The markup `input` written out with `indent` as the unit of indentation.
pub open spec fn formatted_xml(input: Seq<char>, indent: Seq<char>) -> Seq<char> {
    formatted_tokens(xml_tokens(input), indent)
}

/// What is written for the tokens is empty or ends with a line break.
pub proof fn lemma_format_from_ends_line(
    toks: Seq<XmlTokView>,
    i: int,
    depth: nat,
    indent: Seq<char>,
)
    ensures
        format_from(toks, i, depth, indent).len() == 0 || format_from(
            toks,
            i,
            depth,
            indent,
        ).last() == '\n',
    decreases toks.len() - i,
{
    if i < 0 || i >= toks.len() {
    } else if inlines_text(toks, i) {
        lemma_format_from_ends_line(toks, i + 3, depth, indent);
    } else {
        match toks[i] {
            XmlTokView::OpenTag { .. } => {
                lemma_format_from_ends_line(toks, i + 1, deeper(depth), indent);
            },
            XmlTokView::CloseTag { .. } => {
                lemma_format_from_ends_line(toks, i + 1, shallower(depth), indent);
            },
            _ => {
                lemma_format_from_ends_line(toks, i + 1, depth, indent);
            },
        }
    }
}

/// Appends to `out` the text `s` on a line of its own, behind `depth` times `indent`.
pub fn writeln_indented(out: &mut String, depth: usize, indent: &str, s: &str)
    ensures
        final(out)@ == old(out)@ + indented_line(depth as nat, indent@, s@),
{
    let mut k: usize = 0;
    while k < depth
        invariant
            k <= depth,
            out@ == old(out)@ + repeated(indent@, k as nat),
        decreases depth - k,
    {
        out.append(indent);
        k += 1;
    }
    out.append(s);
    out.push('\n');
}

/// The line that the tokens at `i`, `i + 1` and `i + 2` share, if they are an
/// opening tag, a one-line text and the matching closing tag.
pub fn inline_line(toks: &Vec<XmlTok>, i: usize) -> (r: Option<String>)
    requires
        i < toks.len(),
    ensures
        r is Some <==> inlines_text(tok_views(toks@), i as int),
        r matches Some(line) ==> line@ == tok_views(toks@)[i as int].raw() + trimmed(
            tok_views(toks@)[i + 1].raw(),
        ) + tok_views(toks@)[i + 2].raw(),
{
    let ghost views = tok_views(toks@);
    assert(views[i as int] == toks@[i as int]@);
    if toks.len() - i <= 2 {
        return None;
    }
    assert(views[i + 1] == toks@[i + 1]@);
    assert(views[i + 2] == toks@[i + 2]@);
    if let XmlTok::OpenTag { raw: open_raw, name: open_name } = &toks[i] {
        if let XmlTok::Text(text_raw) = &toks[i + 1] {
            let trimmed = trim(text_raw.as_str());
            let no_newlines = !contains_char(trimmed, '\n');
            if no_newlines && !trimmed.is_empty() {
                if let XmlTok::CloseTag { raw: close_raw, name: close_name } = &toks[i + 2] {
                    if *open_name == *close_name {
                        let mut line = open_raw.clone();
                        line.append(trimmed);
                        line.append(close_raw.as_str());
                        return Some(line);
                    }
                }
            }
        }
    }
    None
}

/// Writes out the tokens `toks`, one indented line each.
pub fn format_tokens(toks: &Vec<XmlTok>, indent: &str) -> (out: String)
    ensures
        out@ == formatted_tokens(tok_views(toks@), indent@),
{
    let ghost views = tok_views(toks@);
    let mut out = String::new();
    let mut depth: usize = 0;
    let mut i: usize = 0;
    while i < toks.len()
        invariant
            i <= toks.len(),
            views == tok_views(toks@),
            format_from(views, 0, 0, indent@) == out@ + format_from(
                views,
                i as int,
                depth as nat,
                indent@,
            ),
        decreases toks.len() - i,
    {
        let ghost before = out@;
        let ghost rest = format_from(views, i as int, depth as nat, indent@);
        assert(views[i as int] == toks@[i as int]@);
        match inline_line(toks, i) {
            Some(line) => {
                writeln_indented(&mut out, depth, indent, line.as_str());
                proof {
                    assert(rest == indented_line(depth as nat, indent@, line@) + format_from(
                        views,
                        i + 3,
                        depth as nat,
                        indent@,
                    ));
                    assert(before + rest =~= out@ + format_from(
                        views,
                        i + 3,
                        depth as nat,
                        indent@,
                    ));
                }
                i += 3;
            },
            None => {
                match &toks[i] {
                    XmlTok::OpenTag { raw, .. } => {
                        writeln_indented(&mut out, depth, indent, raw.as_str());
                        let ghost old_depth = depth;
                        depth = depth.saturating_add(1);
                        assert(depth as nat == deeper(old_depth as nat));
                        assert(before + rest =~= out@ + format_from(
                            views,
                            i + 1,
                            depth as nat,
                            indent@,
                        ));
                    },
                    XmlTok::CloseTag { raw, .. } => {
                        let ghost old_depth = depth;
                        depth = depth.saturating_sub(1);
                        assert(depth as nat == shallower(old_depth as nat));
                        writeln_indented(&mut out, depth, indent, raw.as_str());
                        assert(before + rest =~= out@ + format_from(
                            views,
                            i + 1,
                            depth as nat,
                            indent@,
                        ));
                    },
                    XmlTok::SelfCloseTag(raw) | XmlTok::Comment(raw) | XmlTok::ProcInst(raw)
                    | XmlTok::Doctype(raw) | XmlTok::CData(raw) | XmlTok::Template(raw) => {
                        writeln_indented(&mut out, depth, indent, raw.as_str());
                        assert(before + rest =~= out@ + format_from(
                            views,
                            i + 1,
                            depth as nat,
                            indent@,
                        ));
                    },
                    XmlTok::Text(text_raw) => {
                        let trimmed = trim(text_raw.as_str());
                        proof {
                            lemma_trimmed_empty(text_raw@);
                        }
                        if !trimmed.is_empty() {
                            writeln_indented(&mut out, depth, indent, trimmed);
                        }
                        assert(before + rest =~= out@ + format_from(
                            views,
                            i + 1,
                            depth as nat,
                            indent@,
                        ));
                    },
                }
                i += 1;
            },
        }
    }
    proof {
        lemma_format_from_ends_line(views, 0, 0, indent@);
        assert(out@ =~= format_from(views, 0, 0, indent@));
    }
    if !out.as_str().is_empty() {
        out.pop();
    }
    out
}

/// Writes the markup `input` out again, one token per line, each line indented by
/// `indent` once for every tag that is open around it.
pub fn format_xml(input: &str, indent: &str) -> (out: String)
    ensures
        out@ == formatted_xml(input@, indent@),
{
    let tokens = tokenize_with_templates(input);
    format_tokens(&tokens, indent)
}

/// `whole` is `before`, then `text` on a line of its own at the depth `at`,
/// then `after`.
pub open spec fn holds_line(
    whole: Seq<char>,
    before: Seq<char>,
    at: nat,
    indent: Seq<char>,
    text: Seq<char>,
    after: Seq<char>,
) -> bool {
    whole == before + indented_line(at, indent, text) + after
}

/// `whole` is `before`, then `text` behind its indentation at the depth `at`,
/// then `after`.
pub open spec fn holds_text(
    whole: Seq<char>,
    before: Seq<char>,
    at: nat,
    indent: Seq<char>,
    text: Seq<char>,
    after: Seq<char>,
) -> bool {
    whole == before + repeated(indent, at) + text + after
}

/// The line of the template tag at `i` stands in what is written for the tokens
/// from `k` on, wherever `k` is not behind `i`.
proof fn lemma_template_line_from(
    toks: Seq<XmlTokView>,
    indent: Seq<char>,
    i: int,
    k: int,
    depth: nat,
)
    requires
        0 <= k <= i < toks.len(),
        toks[i] is Template,
    ensures
        exists|before: Seq<char>, at: nat, after: Seq<char>| #[trigger]
            holds_line(
                format_from(toks, k, depth, indent),
                before,
                at,
                indent,
                toks[i].raw(),
                after,
            ),
    decreases i - k,
{
    let whole = format_from(toks, k, depth, indent);
    let raw = toks[i].raw();
    if k == i {
        let after = format_from(toks, i + 1, depth, indent);
        assert(whole == Seq::<char>::empty() + indented_line(depth, indent, raw) + after);
        assert(holds_line(whole, Seq::empty(), depth, indent, raw, after));
    } else {
        let (first, next, next_depth) = if inlines_text(toks, k) {
            (
                indented_line(
                    depth,
                    indent,
                    toks[k].raw() + trimmed(toks[k + 1].raw()) + toks[k + 2].raw(),
                ),
                k + 3,
                depth,
            )
        } else {
            match toks[k] {
                XmlTokView::OpenTag { raw, .. } => (
                    indented_line(depth, indent, raw),
                    k + 1,
                    deeper(depth),
                ),
                XmlTokView::CloseTag { raw, .. } => (
                    indented_line(shallower(depth), indent, raw),
                    k + 1,
                    shallower(depth),
                ),
                XmlTokView::Text(text) => (
                    if has_visible_char(text) {
                        indented_line(depth, indent, trimmed(text))
                    } else {
                        Seq::empty()
                    },
                    k + 1,
                    depth,
                ),
                other => (indented_line(depth, indent, other.raw()), k + 1, depth),
            }
        };
        let rest = format_from(toks, next, next_depth, indent);
        assert(whole == first + rest);
        lemma_template_line_from(toks, indent, i, next, next_depth);
        let (before, at, after) = choose|before: Seq<char>, at: nat, after: Seq<char>| #[trigger]
            holds_line(rest, before, at, indent, raw, after);
        assert(whole =~= (first + before) + indented_line(at, indent, raw) + after);
        assert(holds_line(whole, first + before, at, indent, raw, after));
    }
}

/// A template tag is never changed and never split: every template tag among
/// the tokens stands in what is written as it is, behind its indentation, with
/// nothing put inside it.
pub proof fn lemma_template_stands_whole(toks: Seq<XmlTokView>, indent: Seq<char>, i: int)
    requires
        0 <= i < toks.len(),
        toks[i] is Template,
    ensures
        exists|before: Seq<char>, at: nat, after: Seq<char>| #[trigger]
            holds_text(formatted_tokens(toks, indent), before, at, indent, toks[i].raw(), after),
{
    lemma_template_line_from(toks, indent, i, 0, 0);
    lemma_format_from_ends_line(toks, 0, 0, indent);
    let whole = format_from(toks, 0, 0, indent);
    let raw = toks[i].raw();
    let (before, at, after) = choose|before: Seq<char>, at: nat, after: Seq<char>| #[trigger]
        holds_line(whole, before, at, indent, raw, after);
    let head = before + repeated(indent, at) + raw;
    assert(whole =~= head + seq!['\n'] + after);
    if after.len() == 0 {
        assert(formatted_tokens(toks, indent) =~= head + Seq::<char>::empty());
        assert(holds_text(formatted_tokens(toks, indent), before, at, indent, raw, Seq::empty()));
    } else {
        assert(whole.last() == after.last());
        let tail = seq!['\n'] + after.drop_last();
        assert(formatted_tokens(toks, indent) =~= head + tail);
        assert(holds_text(formatted_tokens(toks, indent), before, at, indent, raw, tail));
    }
}

} // verus!
