//! Splitting XML-like markup into tokens, with template tags kept whole.
use vstd::prelude::*;
use crate::text::{chars_of, is_whitespace, is_whitespace_char, string_from_range};

verus! {

/// One piece of markup. `raw` is the piece as it stands in the source.
#[derive(Debug, Clone, PartialEq, Eq)]
pub enum XmlTok {
    /// `<tag ...>`
    OpenTag { raw: String, name: String },
    /// `</tag>`
    CloseTag { raw: String, name: String },
    /// `<tag .../>`
    SelfCloseTag(String),
    /// `<!-- ... -->`
    Comment(String),
    /// `<![CDATA[ ... ]]>`
    CData(String),
    /// `<?xml ...?>`
    ProcInst(String),
    /// `<!DOCTYPE ...>`
    Doctype(String),
    /// the text between tags
    Text(String),
    /// `${[ ... ]}`
    Template(String),
}

/// An `XmlTok` as a mathematical value.
pub enum XmlTokView {
    OpenTag { raw: Seq<char>, name: Seq<char> },
    CloseTag { raw: Seq<char>, name: Seq<char> },
    SelfCloseTag(Seq<char>),
    Comment(Seq<char>),
    CData(Seq<char>),
    ProcInst(Seq<char>),
    Doctype(Seq<char>),
    Text(Seq<char>),
    Template(Seq<char>),
}

impl View for XmlTok {
    type V = XmlTokView;

    open spec fn view(&self) -> XmlTokView {
        match self {
            XmlTok::OpenTag { raw, name } => XmlTokView::OpenTag { raw: raw@, name: name@ },
            XmlTok::CloseTag { raw, name } => XmlTokView::CloseTag { raw: raw@, name: name@ },
            XmlTok::SelfCloseTag(raw) => XmlTokView::SelfCloseTag(raw@),
            XmlTok::Comment(raw) => XmlTokView::Comment(raw@),
            XmlTok::CData(raw) => XmlTokView::CData(raw@),
            XmlTok::ProcInst(raw) => XmlTokView::ProcInst(raw@),
            XmlTok::Doctype(raw) => XmlTokView::Doctype(raw@),
            XmlTok::Text(raw) => XmlTokView::Text(raw@),
            XmlTok::Template(raw) => XmlTokView::Template(raw@),
        }
    }
}

impl XmlTokView {
    /// The token as it stands in the source.
    pub open spec fn raw(self) -> Seq<char> {
        match self {
            XmlTokView::OpenTag { raw, .. } => raw,
            XmlTokView::CloseTag { raw, .. } => raw,
            XmlTokView::SelfCloseTag(raw) => raw,
            XmlTokView::Comment(raw) => raw,
            XmlTokView::CData(raw) => raw,
            XmlTokView::ProcInst(raw) => raw,
            XmlTokView::Doctype(raw) => raw,
            XmlTokView::Text(raw) => raw,
            XmlTokView::Template(raw) => raw,
        }
    }
}

/// The views of the tokens of `toks`, in order.
pub open spec fn tok_views(toks: Seq<XmlTok>) -> Seq<XmlTokView> {
    toks.map_values(|t: XmlTok| t@)
}

/// The marker that opens a template tag.
pub open spec fn template_open() -> Seq<char> {
    seq!['$', '{', '[']
}

/// The marker that closes a template tag.
pub open spec fn template_close() -> Seq<char> {
    seq![']', '}']
}

/// What opens a comment.
pub open spec fn comment_open() -> Seq<char> {
    seq!['<', '!', '-', '-']
}

/// What closes a comment.
pub open spec fn comment_close() -> Seq<char> {
    seq!['-', '-', '>']
}

/// What opens a CDATA section.
pub open spec fn cdata_open() -> Seq<char> {
    seq!['<', '!', '[', 'C', 'D', 'A', 'T', 'A', '[']
}

/// What closes a CDATA section.
pub open spec fn cdata_close() -> Seq<char> {
    seq![']', ']', '>']
}

/// What opens a processing instruction.
pub open spec fn instruction_open() -> Seq<char> {
    seq!['<', '?']
}

/// What closes a processing instruction.
pub open spec fn instruction_close() -> Seq<char> {
    seq!['?', '>']
}

/// What opens a declaration such as `<!DOCTYPE ...>`.
pub open spec fn declaration_open() -> Seq<char> {
    seq!['<', '!']
}

/// What closes a declaration, and a tag.
pub open spec fn declaration_close() -> Seq<char> {
    seq!['>']
}

/// `pat` stands in `s` at index `i`.
pub open spec fn starts_with_at(s: Seq<char>, i: int, pat: Seq<char>) -> bool {
    0 <= i && i + pat.len() <= s.len() && s.subrange(i, i + pat.len()) == pat
}

/// The first index from `i` on at which `pat` stands; the length of `s` if there is none.
pub open spec fn find_pattern(s: Seq<char>, i: int, pat: Seq<char>) -> int
    decreases s.len() - i,
{
    if i >= s.len() {
        s.len() as int
    } else if starts_with_at(s, i, pat) {
        i
    } else {
        find_pattern(s, i + 1, pat)
    }
}

/// The index behind the first occurrence of `pat` from `i` on; the length of `s`
/// if there is none.
pub open spec fn end_after_pattern(s: Seq<char>, i: int, pat: Seq<char>) -> int {
    let j = find_pattern(s, i, pat);
    if starts_with_at(s, j, pat) {
        j + pat.len()
    } else {
        j
    }
}

/// The index behind the `>` that ends a tag, read from `j` on. A `>` between
/// quotes does not end the tag; `quote` is the quote that is open at `j`.
pub open spec fn tag_end(s: Seq<char>, j: int, quote: Option<char>) -> int
    decreases s.len() - j,
{
    if j < 0 || j >= s.len() {
        j
    } else {
        match quote {
            Some(q) => tag_end(
                s,
                j + 1,
                if s[j] == q {
                    None
                } else {
                    Some(q)
                },
            ),
            None => if s[j] == '\'' || s[j] == '"' {
                tag_end(s, j + 1, Some(s[j]))
            } else if s[j] == '>' {
                j + 1
            } else {
                tag_end(s, j + 1, None)
            },
        }
    }
}

/// The end of the text that starts at `j`: the next `<` or template tag.
pub open spec fn text_end(s: Seq<char>, j: int) -> int
    decreases s.len() - j,
{
    if 0 <= j < s.len() && s[j] != '<' && !starts_with_at(s, j, template_open()) {
        text_end(s, j + 1)
    } else {
        j
    }
}

/// A character that ends the name of an opening tag.
pub open spec fn ends_open_name(c: char) -> bool {
    is_whitespace_char(c) || c == '>' || c == '/'
}

/// The first index from `j` on that holds a character ending a tag's name.
pub open spec fn name_end(s: Seq<char>, j: int) -> int
    decreases s.len() - j,
{
    if 0 <= j < s.len() && !ends_open_name(s[j]) {
        name_end(s, j + 1)
    } else {
        j
    }
}

/// The name of the opening tag `raw`: what stands between its `<` and the first
/// whitespace, `>` or `/`.
pub open spec fn open_name(raw: Seq<char>) -> Seq<char> {
    let s = raw.skip(1);
    s.take(name_end(s, 0))
}

/// The name of the closing tag `raw`: what stands between its `</` and the first `>`.
pub open spec fn close_name(raw: Seq<char>) -> Seq<char> {
    let s = raw.skip(2);
    s.take(find_pattern(s, 0, declaration_close()))
}

/// The tag's last byte but one, in UTF-8, is `/`: its last character takes one
/// byte and the character before it is `/`.
pub open spec fn is_self_closing(raw: Seq<char>) -> bool {
    &&& raw.len() >= 2
    &&& (raw[raw.len() - 1] as u32) < 0x80
    &&& raw[raw.len() - 2] == '/'
}

/// A closing tag starts at `i`.
pub open spec fn is_close_at(s: Seq<char>, i: int) -> bool {
    i + 1 < s.len() && s[i + 1] == '/'
}

/// The index behind the token that starts at `i`.
pub open spec fn token_end(s: Seq<char>, i: int) -> int {
    if starts_with_at(s, i, template_open()) {
        end_after_pattern(s, i + 3, template_close())
    } else if s[i] == '<' {
        if starts_with_at(s, i, comment_open()) {
            end_after_pattern(s, i + 4, comment_close())
        } else if starts_with_at(s, i, cdata_open()) {
            end_after_pattern(s, i + 9, cdata_close())
        } else if starts_with_at(s, i, instruction_open()) {
            end_after_pattern(s, i + 2, instruction_close())
        } else if starts_with_at(s, i, declaration_open()) {
            end_after_pattern(s, i + 2, declaration_close())
        } else if is_close_at(s, i) {
            tag_end(s, i + 2, None)
        } else {
            tag_end(s, i + 1, None)
        }
    } else {
        text_end(s, i)
    }
}

/// The token that starts at `i`.
pub open spec fn token_at(s: Seq<char>, i: int) -> XmlTokView {
    let raw = s.subrange(i, token_end(s, i));
    if starts_with_at(s, i, template_open()) {
        XmlTokView::Template(raw)
    } else if s[i] == '<' {
        if starts_with_at(s, i, comment_open()) {
            XmlTokView::Comment(raw)
        } else if starts_with_at(s, i, cdata_open()) {
            XmlTokView::CData(raw)
        } else if starts_with_at(s, i, instruction_open()) {
            XmlTokView::ProcInst(raw)
        } else if starts_with_at(s, i, declaration_open()) {
            XmlTokView::Doctype(raw)
        } else if is_close_at(s, i) {
            XmlTokView::CloseTag { raw, name: close_name(raw) }
        } else if is_self_closing(raw) {
            XmlTokView::SelfCloseTag(raw)
        } else {
            XmlTokView::OpenTag { raw, name: open_name(raw) }
        }
    } else {
        XmlTokView::Text(raw)
    }
}

/// The tokens of `s` from index `i` on.
pub open spec fn xml_tokens_from(s: Seq<char>, i: int) -> Seq<XmlTokView>
    decreases s.len() - i,
{
    if 0 <= i < s.len() {
        proof {
            lemma_token_end(s, i);
        }
        seq![token_at(s, i)] + xml_tokens_from(s, token_end(s, i))
    } else {
        Seq::empty()
    }
}

/// The tokens of the markup `s`.
pub open spec fn xml_tokens(s: Seq<char>) -> Seq<XmlTokView> {
    xml_tokens_from(s, 0)
}

/// A pattern is found inside the text, or not at all.
pub proof fn lemma_find_pattern(s: Seq<char>, i: int, pat: Seq<char>)
    requires
        0 <= i <= s.len(),
    ensures
        i <= find_pattern(s, i, pat) <= s.len(),
        i <= end_after_pattern(s, i, pat) <= s.len(),
    decreases s.len() - i,
{
    if i < s.len() && !starts_with_at(s, i, pat) {
        lemma_find_pattern(s, i + 1, pat);
    }
}

/// A tag ends inside the text.
pub proof fn lemma_tag_end(s: Seq<char>, j: int, quote: Option<char>)
    requires
        0 <= j <= s.len(),
    ensures
        j <= tag_end(s, j, quote) <= s.len(),
    decreases s.len() - j,
{
    if j < s.len() {
        match quote {
            Some(q) => {
                lemma_tag_end(
                    s,
                    j + 1,
                    if s[j] == q {
                        None
                    } else {
                        Some(q)
                    },
                );
            },
            None => {
                if s[j] == '\'' || s[j] == '"' {
                    lemma_tag_end(s, j + 1, Some(s[j]));
                } else if s[j] != '>' {
                    lemma_tag_end(s, j + 1, None);
                }
            },
        }
    }
}

/// A text ends inside the markup.
pub proof fn lemma_text_end(s: Seq<char>, j: int)
    requires
        0 <= j <= s.len(),
    ensures
        j <= text_end(s, j) <= s.len(),
    decreases s.len() - j,
{
    if j < s.len() && s[j] != '<' && !starts_with_at(s, j, template_open()) {
        lemma_text_end(s, j + 1);
    }
}

/// A name ends inside the tag.
pub proof fn lemma_name_end(s: Seq<char>, j: int)
    requires
        0 <= j <= s.len(),
    ensures
        j <= name_end(s, j) <= s.len(),
    decreases s.len() - j,
{
    if j < s.len() && !ends_open_name(s[j]) {
        lemma_name_end(s, j + 1);
    }
}

/// Every token holds at least one character and ends inside the source.
pub proof fn lemma_token_end(s: Seq<char>, i: int)
    requires
        0 <= i < s.len(),
    ensures
        i < token_end(s, i) <= s.len(),
{
    if starts_with_at(s, i, template_open()) {
        lemma_find_pattern(s, i + 3, template_close());
    } else if s[i] == '<' {
        if starts_with_at(s, i, comment_open()) {
            lemma_find_pattern(s, i + 4, comment_close());
        } else if starts_with_at(s, i, cdata_open()) {
            lemma_find_pattern(s, i + 9, cdata_close());
        } else if starts_with_at(s, i, instruction_open()) {
            lemma_find_pattern(s, i + 2, instruction_close());
        } else if starts_with_at(s, i, declaration_open()) {
            lemma_find_pattern(s, i + 2, declaration_close());
        } else if is_close_at(s, i) {
            lemma_tag_end(s, i + 2, None);
        } else {
            lemma_tag_end(s, i + 1, None);
        }
    } else {
        lemma_text_end(s, i + 1);
    }
}

/// Whether `pat` stands in `chars` at index `i`.
pub fn starts_with(chars: &Vec<char>, i: usize, pat: &[char]) -> (b: bool)
    ensures
        b == starts_with_at(chars@, i as int, pat@),
{
    if i > chars.len() || pat.len() > chars.len() - i {
        return false;
    }
    let mut k: usize = 0;
    while k < pat.len()
        invariant
            k <= pat.len(),
            i + pat.len() <= chars.len(),
            forall|j: int| 0 <= j < k ==> chars@[i + j] == pat@[j],
        decreases pat.len() - k,
    {
        if chars[i + k] != pat[k] {
            assert(chars@.subrange(i as int, i + pat.len())[k as int] != pat@[k as int]);
            return false;
        }
        k += 1;
    }
    assert(chars@.subrange(i as int, i + pat.len()) =~= pat@);
    true
}

/// The index behind the first occurrence of `pat` from `i` on, or the length of
/// `chars` if there is none.
pub fn scan_past(chars: &Vec<char>, i: usize, pat: &[char]) -> (end: usize)
    requires
        i <= chars.len(),
    ensures
        end == end_after_pattern(chars@, i as int, pat@),
        i <= end <= chars.len(),
{
    let mut j: usize = i;
    while j < chars.len() && !starts_with(chars, j, pat)
        invariant
            i <= j <= chars.len(),
            find_pattern(chars@, i as int, pat@) == find_pattern(chars@, j as int, pat@),
        decreases chars.len() - j,
    {
        j += 1;
    }
    if starts_with(chars, j, pat) {
        j + pat.len()
    } else {
        j
    }
}

/// The index behind the `>` that ends the tag read from `start` on.
pub fn scan_tag(chars: &Vec<char>, start: usize) -> (end: usize)
    requires
        start <= chars.len(),
    ensures
        end == tag_end(chars@, start as int, None),
        start <= end <= chars.len(),
{
    let mut i: usize = start;
    let mut in_quote: Option<char> = None;
    proof {
        lemma_tag_end(chars@, start as int, None);
    }
    while i < chars.len()
        invariant
            start <= i <= chars.len(),
            tag_end(chars@, start as int, None) == tag_end(chars@, i as int, in_quote),
            start <= tag_end(chars@, start as int, None) <= chars.len(),
        decreases chars.len() - i,
    {
        let c = chars[i];
        match in_quote {
            Some(q) => {
                if c == q {
                    in_quote = None;
                }
                i += 1;
            },
            None => {
                if c == '\'' || c == '"' {
                    in_quote = Some(c);
                    i += 1;
                } else if c == '>' {
                    i += 1;
                    return i;
                } else {
                    i += 1;
                }
            },
        }
    }
    i
}

/// The name of an opening tag: what stands between its `<` and the first
/// whitespace, `>` or `/`.
pub fn parse_open_name(raw: &str) -> (name: &str)
    requires
        raw@.len() >= 1,
    ensures
        name@ == open_name(raw@),
{
    let chars = chars_of(raw);
    let ghost s = chars@.skip(1);
    let mut end: usize = 1;
    proof {
        lemma_name_end(s, 0);
    }
    while end < chars.len() && !(is_whitespace(chars[end]) || chars[end] == '>' || chars[end]
        == '/')
        invariant
            1 <= end <= chars.len(),
            s == chars@.skip(1),
            name_end(s, 0) == name_end(s, end - 1),
        decreases chars.len() - end,
    {
        assert(s[end - 1] == chars@[end as int]);
        end += 1;
    }
    proof {
        if end < chars.len() {
            assert(s[end - 1] == chars@[end as int]);
        }
        assert(s.take(end - 1) =~= chars@.subrange(1, end as int));
    }
    raw.substring_char(1, end)
}

/// The name of a closing tag: what stands between its `</` and the first `>`.
pub fn parse_close_name(raw: &str) -> (name: &str)
    requires
        raw@.len() >= 2,
    ensures
        name@ == close_name(raw@),
{
    let chars = chars_of(raw);
    let ghost s = chars@.skip(2);
    let mut end: usize = 2;
    while end < chars.len() && chars[end] != '>'
        invariant
            2 <= end <= chars.len(),
            s == chars@.skip(2),
            find_pattern(s, 0, declaration_close()) == find_pattern(
                s,
                end - 2,
                declaration_close(),
            ),
        decreases chars.len() - end,
    {
        assert(s[end - 2] == chars@[end as int]);
        assert(!starts_with_at(s, end - 2, declaration_close())) by {
            if starts_with_at(s, end - 2, declaration_close()) {
                assert(s.subrange(end - 2, end - 1)[0] == '>');
            }
        }
        end += 1;
    }
    proof {
        if end < chars.len() {
            assert(s[end - 2] == chars@[end as int]);
            assert(s.subrange(end - 2, end - 1) =~= declaration_close());
        }
        assert(s.take(end - 2) =~= chars@.subrange(2, end as int));
    }
    raw.substring_char(2, end)
}

/// Reads the token that starts at `i` and returns it with the index behind it.
pub fn next_token(chars: &Vec<char>, i: usize) -> (r: (XmlTok, usize))
    requires
        i < chars.len(),
    ensures
        r.0@ == token_at(chars@, i as int),
        r.1 == token_end(chars@, i as int),
        i < r.1 <= chars.len(),
{
    let template_open_pat = ['$', '{', '['];
    let template_close_pat = [']', '}'];
    let comment_open_pat = ['<', '!', '-', '-'];
    let comment_close_pat = ['-', '-', '>'];
    let cdata_open_pat = ['<', '!', '[', 'C', 'D', 'A', 'T', 'A', '['];
    let cdata_close_pat = [']', ']', '>'];
    let instruction_open_pat = ['<', '?'];
    let instruction_close_pat = ['?', '>'];
    let declaration_open_pat = ['<', '!'];
    let declaration_close_pat = ['>'];
    proof {
        assert(template_open_pat@ =~= template_open());
        assert(template_close_pat@ =~= template_close());
        assert(comment_open_pat@ =~= comment_open());
        assert(comment_close_pat@ =~= comment_close());
        assert(cdata_open_pat@ =~= cdata_open());
        assert(cdata_close_pat@ =~= cdata_close());
        assert(instruction_open_pat@ =~= instruction_open());
        assert(instruction_close_pat@ =~= instruction_close());
        assert(declaration_open_pat@ =~= declaration_open());
        assert(declaration_close_pat@ =~= declaration_close());
        lemma_token_end(chars@, i as int);
    }
    if starts_with(chars, i, &template_open_pat) {
        let end = scan_past(chars, i + 3, &template_close_pat);
        return (XmlTok::Template(string_from_range(chars, i, end)), end);
    }
    if chars[i] == '<' {
        if starts_with(chars, i, &comment_open_pat) {
            let end = scan_past(chars, i + 4, &comment_close_pat);
            return (XmlTok::Comment(string_from_range(chars, i, end)), end);
        }
        if starts_with(chars, i, &cdata_open_pat) {
            let end = scan_past(chars, i + 9, &cdata_close_pat);
            return (XmlTok::CData(string_from_range(chars, i, end)), end);
        }
        if starts_with(chars, i, &instruction_open_pat) {
            let end = scan_past(chars, i + 2, &instruction_close_pat);
            return (XmlTok::ProcInst(string_from_range(chars, i, end)), end);
        }
        if starts_with(chars, i, &declaration_open_pat) {
            let end = scan_past(chars, i + 2, &declaration_close_pat);
            return (XmlTok::Doctype(string_from_range(chars, i, end)), end);
        }
        let is_close = i + 1 < chars.len() && chars[i + 1] == '/';
        let end = if is_close {
            scan_tag(chars, i + 2)
        } else {
            scan_tag(chars, i + 1)
        };
        let raw = string_from_range(chars, i, end);
        let is_self = end - i >= 2 && (chars[end - 1] as u32) < 0x80 && chars[end - 2] == '/';
        if is_close {
            let name = parse_close_name(raw.as_str()).to_owned();
            return (XmlTok::CloseTag { raw, name }, end);
        } else if is_self {
            return (XmlTok::SelfCloseTag(raw), end);
        } else {
            let name = parse_open_name(raw.as_str()).to_owned();
            return (XmlTok::OpenTag { raw, name }, end);
        }
    }
    let mut end: usize = i;
    while end < chars.len() && chars[end] != '<' && !starts_with(chars, end, &template_open_pat)
        invariant
            i <= end <= chars.len(),
            template_open_pat@ == template_open(),
            text_end(chars@, i as int) == text_end(chars@, end as int),
        decreases chars.len() - end,
    {
        end += 1;
    }
    (XmlTok::Text(string_from_range(chars, i, end)), end)
}

/// Splits markup into its tokens. A template tag outside of a markup tag is one
/// token, whatever stands inside it.
pub fn tokenize_with_templates(input: &str) -> (toks: Vec<XmlTok>)
    ensures
        tok_views(toks@) == xml_tokens(input@),
{
    let chars = chars_of(input);
    let mut toks: Vec<XmlTok> = Vec::new();
    let mut i: usize = 0;
    assert(tok_views(toks@) =~= Seq::empty());
    while i < chars.len()
        invariant
            i <= chars.len(),
            chars@ == input@,
            xml_tokens(chars@) == tok_views(toks@) + xml_tokens_from(chars@, i as int),
        decreases chars.len() - i,
    {
        let (tok, end) = next_token(&chars, i);
        proof {
            assert(tok_views(toks@.push(tok)) =~= tok_views(toks@).push(tok@));
            assert(tok_views(toks@) + (seq![tok@] + xml_tokens_from(chars@, end as int))
                =~= tok_views(toks@).push(tok@) + xml_tokens_from(chars@, end as int));
        }
        toks.push(tok);
        i = end;
    }
    assert(tok_views(toks@) + Seq::<XmlTokView>::empty() =~= tok_views(toks@));
    toks
}

} // verus!
