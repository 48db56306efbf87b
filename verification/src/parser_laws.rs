//! Writing a parsed template out again gives the template back.
use vstd::prelude::*;
use crate::escape::{backslashes_before, escaped, is_open_at, is_unescaped_open, unescaped};
use crate::escape_laws::{all_opens_escaped, lemma_escape_unescape};
use crate::parser::{
    lemma_next_tag_start, lemma_parse_tag_advances, next_tag_start, parse_from, parse_tag, parsed,
    raw_tokens,
};
use crate::tokens::{token_text, tokens_text, tokens_text_prefix, TokenView};

verus! {

/// The text of a token list is the text of its first part, then of its second.
pub proof fn lemma_tokens_text_concat(a: Seq<TokenView>, b: Seq<TokenView>)
    ensures
        tokens_text(a + b) == tokens_text(a) + tokens_text(b),
    decreases b.len(),
{
    if b.len() == 0 {
        assert(a + b =~= a);
        assert(tokens_text(a) + tokens_text(b) =~= tokens_text(a));
    } else {
        let b0 = b.drop_last();
        lemma_tokens_text_concat(a, b0);
        assert((a + b).drop_last() =~= a + b0);
        lemma_tokens_text_prefix_of_prefix(a + b, (a + b).len() - 1);
        lemma_tokens_text_prefix_of_prefix(b, b.len() - 1);
        assert(tokens_text(a + b) =~= tokens_text(a + b0) + token_text(b.last()));
        assert(tokens_text(b) =~= tokens_text(b0) + token_text(b.last()));
    }
}

/// The text of the first `n` tokens does not depend on the tokens behind them.
proof fn lemma_tokens_text_prefix_of_prefix(toks: Seq<TokenView>, n: int)
    requires
        0 <= n <= toks.len(),
    ensures
        tokens_text_prefix(toks, n) == tokens_text(toks.take(n)),
    decreases n,
{
    if n > 0 {
        lemma_tokens_text_prefix_of_prefix(toks, n - 1);
        lemma_tokens_text_prefix_of_prefix(toks.take(n), n - 1);
        assert(toks.take(n).take(n - 1) =~= toks.take(n - 1));
    }
}

/// Inside a stretch of text that does not start behind a backslash, the run of
/// backslashes before a character is the same as in the whole text.
proof fn lemma_run_in_segment(s: Seq<char>, lo: int, t: int, k: int)
    requires
        0 <= lo <= t <= s.len(),
        lo == 0 || s[lo - 1] != '\\',
        0 <= k <= t - lo,
    ensures
        backslashes_before(s.subrange(lo, t), k) == backslashes_before(s, lo + k),
    decreases k,
{
    if k > 0 {
        lemma_run_in_segment(s, lo, t, k - 1);
    }
}

/// In the literal text before a tag every occurrence of the marker is escaped.
proof fn lemma_segment_escaped(s: Seq<char>, lo: int, t: int)
    requires
        0 <= lo <= t <= s.len(),
        lo == 0 || s[lo - 1] != '\\',
        forall|j: int| lo <= j < t ==> !is_unescaped_open(s, j),
    ensures
        all_opens_escaped(s.subrange(lo, t)),
{
    let seg = s.subrange(lo, t);
    assert forall|k: int| #[trigger] is_open_at(seg, k) implies backslashes_before(seg, k) % 2
        == 1 by {
        lemma_run_in_segment(s, lo, t, k);
        assert(is_open_at(s, lo + k));
        assert(!is_unescaped_open(s, lo + k));
    }
}

/// The tokens of the text from `lo` on, written out, are the text from `lo` on.
proof fn lemma_parse_from_text(s: Seq<char>, lo: int)
    requires
        0 <= lo <= s.len(),
        lo == 0 || s[lo - 1] != '\\',
        parse_from(s, lo) is Ok,
    ensures
        tokens_text(parse_from(s, lo)->Ok_0) == s.subrange(lo, s.len() as int),
    decreases s.len() - lo,
{
    let len = s.len() as int;
    if lo >= len {
        assert(s.subrange(lo, len) =~= Seq::<char>::empty());
    } else {
        let t = next_tag_start(s, lo);
        lemma_next_tag_start(s, lo);
        let raw = raw_tokens(s, lo, t);
        let seg = s.subrange(lo, t);
        assert(tokens_text(raw) == seg) by {
            if lo < t {
                lemma_segment_escaped(s, lo, t);
                lemma_escape_unescape(seg);
                assert(tokens_text_prefix(raw, 1) =~= tokens_text_prefix(raw, 0) + token_text(
                    raw[0],
                ));
                assert(tokens_text(raw) =~= escaped(unescaped(seg)));
            } else {
                assert(seg =~= Seq::<char>::empty());
            }
        }
        if t >= len {
        } else {
            lemma_parse_tag_advances(s, t);
            let (val, end) = parse_tag(s, t)->Ok_0;
            let tag = seq![TokenView::Tag { val, source: s.subrange(t, end) }];
            let more = parse_from(s, end)->Ok_0;
            lemma_parse_from_text(s, end);
            assert(tokens_text(tag) =~= s.subrange(t, end)) by {
                assert(tokens_text_prefix(tag, 1) =~= tokens_text_prefix(tag, 0) + token_text(
                    tag[0],
                ));
            }
            lemma_tokens_text_concat(raw, tag);
            lemma_tokens_text_concat(raw + tag, more);
            assert(seg + s.subrange(t, end) + s.subrange(end, len) =~= s.subrange(lo, len));
        }
    }
}

/// Every template that parses is what its tokens, written out again, give:
/// character for character.
pub proof fn lemma_parse_round_trip(s: Seq<char>)
    requires
        parsed(s) is Ok,
    ensures
        tokens_text(parsed(s)->Ok_0) == s,
{
    lemma_parse_from_text(s, 0);
    assert(s.subrange(0, s.len() as int) =~= s);
}

} // verus!
