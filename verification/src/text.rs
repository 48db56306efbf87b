//! Strings as sequences of characters: conversion, whitespace and trimming.
use vstd::prelude::*;
use vstd::utf8::{decode_utf8, valid_utf8};

verus! {

/// `String::push` appends one character to the end of the string.
pub assume_specification[ std::string::String::push ](s: &mut std::string::String, c: char)
    ensures
        final(s)@ == old(s)@.push(c),
;

/// `String::pop` takes the last character off the string and returns it; on the
/// empty string it returns `None` and changes nothing.
pub assume_specification[ std::string::String::pop ](s: &mut std::string::String) -> (c: Option<
    char,
>)
    ensures
        old(s)@.len() == 0 ==> c is None && final(s)@ == old(s)@,
        old(s)@.len() > 0 ==> c == Some(old(s)@.last()) && final(s)@ == old(s)@.drop_last(),
;

/// The characters of `s`, in order.
pub fn chars_of(s: &str) -> (v: Vec<char>)
    ensures
        v@ == s@,
{
    let mut v: Vec<char> = Vec::new();
    for c in it: s.chars()
        invariant
            v@ == it.seq().take(it.index()),
    {
        v.push(c);
    }
    v
}

/// The string made of the characters of `chars` from index `from` up to `to`.
pub fn string_from_range(chars: &Vec<char>, from: usize, to: usize) -> (s: String)
    requires
        from <= to <= chars.len(),
    ensures
        s@ == chars@.subrange(from as int, to as int),
{
    let mut s = String::new();
    let mut i: usize = from;
    while i < to
        invariant
            from <= i <= to <= chars.len(),
            s@ == chars@.subrange(from as int, i as int),
        decreases to - i,
    {
        s.push(chars[i]);
        i += 1;
    }
    s
}

/// The characters with the Unicode property `White_Space`.
pub open spec fn is_whitespace_char(c: char) -> bool {
    let u = c as u32;
    ||| 0x09 <= u <= 0x0D
    ||| u == 0x20
    ||| u == 0x85
    ||| u == 0xA0
    ||| u == 0x1680
    ||| 0x2000 <= u <= 0x200A
    ||| u == 0x2028
    ||| u == 0x2029
    ||| u == 0x202F
    ||| u == 0x205F
    ||| u == 0x3000
}

/// Whether `c` has the Unicode property `White_Space`.
pub fn is_whitespace(c: char) -> (b: bool)
    ensures
        b == is_whitespace_char(c),
{
    let u = c as u32;
    (0x09 <= u && u <= 0x0D) || u == 0x20 || u == 0x85 || u == 0xA0 || u == 0x1680 || (0x2000 <= u
        && u <= 0x200A) || u == 0x2028 || u == 0x2029 || u == 0x202F || u == 0x205F || u
        == 0x3000
}

/// The first index from `i` on that holds no whitespace; the length of `s` if there is none.
pub open spec fn skip_whitespace(s: Seq<char>, i: int) -> int
    decreases s.len() - i,
{
    if 0 <= i < s.len() && is_whitespace_char(s[i]) {
        skip_whitespace(s, i + 1)
    } else {
        i
    }
}

/// The end of the text that is left of `s[lo..j]` when the whitespace at its end is cut off.
pub open spec fn skip_whitespace_back(s: Seq<char>, lo: int, j: int) -> int
    decreases j,
{
    if 0 <= lo < j <= s.len() && is_whitespace_char(s[j - 1]) {
        skip_whitespace_back(s, lo, j - 1)
    } else {
        j
    }
}

/// `s` without the whitespace at its start and at its end.
pub open spec fn trimmed(s: Seq<char>) -> Seq<char> {
    let a = skip_whitespace(s, 0);
    let b = skip_whitespace_back(s, a, s.len() as int);
    s.subrange(a, b)
}

/// Some character of `s` is not whitespace.
pub open spec fn has_visible_char(s: Seq<char>) -> bool {
    exists|k: int| 0 <= k < s.len() && !is_whitespace_char(#[trigger] s[k])
}

/// Skipping whitespace stops inside the text, at the first character that is none.
pub proof fn lemma_skip_whitespace(s: Seq<char>, i: int)
    requires
        0 <= i <= s.len(),
    ensures
        i <= skip_whitespace(s, i) <= s.len(),
        forall|k: int| i <= k < skip_whitespace(s, i) ==> is_whitespace_char(s[k]),
        skip_whitespace(s, i) < s.len() ==> !is_whitespace_char(s[skip_whitespace(s, i)]),
    decreases s.len() - i,
{
    if i < s.len() && is_whitespace_char(s[i]) {
        lemma_skip_whitespace(s, i + 1);
    }
}

/// Cutting whitespace off the end stops between `lo` and `j`.
pub proof fn lemma_skip_whitespace_back(s: Seq<char>, lo: int, j: int)
    requires
        0 <= lo <= j <= s.len(),
    ensures
        lo <= skip_whitespace_back(s, lo, j) <= j,
    decreases j,
{
    if lo < j && is_whitespace_char(s[j - 1]) {
        lemma_skip_whitespace_back(s, lo, j - 1);
    }
}

/// A text has a visible character exactly when trimming leaves something of it.
pub proof fn lemma_trimmed_empty(s: Seq<char>)
    ensures
        has_visible_char(s) <==> trimmed(s).len() > 0,
        has_visible_char(s) <==> skip_whitespace(s, 0) < s.len(),
{
    let a = skip_whitespace(s, 0);
    lemma_skip_whitespace(s, 0);
    lemma_skip_whitespace_back(s, a, s.len() as int);
    if a < s.len() {
        assert(!is_whitespace_char(s[a]));
        let b = skip_whitespace_back(s, a, s.len() as int);
        if b == a {
            assert(skip_whitespace_back(s, a, a + 1) == a + 1);
            lemma_skip_back_stops(s, a, s.len() as int, a + 1);
        }
    } else {
        if has_visible_char(s) {
            let k = choose|k: int| 0 <= k < s.len() && !is_whitespace_char(#[trigger] s[k]);
            assert(is_whitespace_char(s[k]));
        }
    }
}

/// Cutting whitespace off the end never goes back past a visible character.
proof fn lemma_skip_back_stops(s: Seq<char>, lo: int, j: int, stop: int)
    requires
        0 <= lo < stop <= j <= s.len(),
        !is_whitespace_char(s[stop - 1]),
    ensures
        skip_whitespace_back(s, lo, j) >= stop,
    decreases j,
{
    if stop < j && is_whitespace_char(s[j - 1]) {
        lemma_skip_back_stops(s, lo, j - 1, stop);
    }
}

/// `s` without the whitespace at its start and at its end.
pub fn trim(s: &str) -> (r: &str)
    ensures
        r@ == trimmed(s@),
{
    let chars = chars_of(s);
    let mut a: usize = 0;
    while a < chars.len() && is_whitespace(chars[a])
        invariant
            a <= chars.len(),
            skip_whitespace(chars@, 0) == skip_whitespace(chars@, a as int),
        decreases chars.len() - a,
    {
        a += 1;
    }
    let mut b: usize = chars.len();
    while b > a && is_whitespace(chars[b - 1])
        invariant
            a <= b <= chars.len(),
            skip_whitespace_back(chars@, a as int, chars.len() as int) == skip_whitespace_back(
                chars@,
                a as int,
                b as int,
            ),
        decreases b,
    {
        b -= 1;
    }
    s.substring_char(a, b)
}

/// Whether the character `c` occurs in `s`.
pub fn contains_char(s: &str, c: char) -> (b: bool)
    ensures
        b == s@.contains(c),
{
    let chars = chars_of(s);
    let mut i: usize = 0;
    while i < chars.len()
        invariant
            i <= chars.len(),
            chars@ == s@,
            forall|k: int| 0 <= k < i ==> chars@[k] != c,
        decreases chars.len() - i,
    {
        if chars[i] == c {
            return true;
        }
        i += 1;
    }
    false
}

/// `prefix` stands at the start of `text`.
pub open spec fn is_prefix_of(prefix: Seq<char>, text: Seq<char>) -> bool {
    prefix.len() <= text.len() && text.subrange(0, prefix.len() as int) == prefix
}

/// Whether the two texts are the same.
pub fn str_equal(a: &str, b: &str) -> (same: bool)
    ensures
        same == (a@ == b@),
{
    let x = chars_of(a);
    let y = chars_of(b);
    if x.len() != y.len() {
        return false;
    }
    let mut i: usize = 0;
    while i < x.len()
        invariant
            i <= x.len(),
            x.len() == y.len(),
            x@ == a@,
            y@ == b@,
            forall|k: int| 0 <= k < i ==> x@[k] == y@[k],
        decreases x.len() - i,
    {
        if x[i] != y[i] {
            return false;
        }
        i += 1;
    }
    assert(x@ =~= y@);
    true
}

/// Whether `prefix` stands at the start of `chars`.
pub fn starts_with_str(chars: &Vec<char>, prefix: &str) -> (b: bool)
    ensures
        b == is_prefix_of(prefix@, chars@),
{
    let p = chars_of(prefix);
    if p.len() > chars.len() {
        return false;
    }
    let mut i: usize = 0;
    while i < p.len()
        invariant
            i <= p.len() <= chars.len(),
            p@ == prefix@,
            forall|k: int| 0 <= k < i ==> chars@[k] == p@[k],
        decreases p.len() - i,
    {
        if chars[i] != p[i] {
            assert(chars@.subrange(0, p.len() as int)[i as int] != p@[i as int]);
            return false;
        }
        i += 1;
    }
    assert(chars@.subrange(0, p.len() as int) =~= p@);
    true
}

/// The words in which `String::from_utf8` says why `bytes` are not UTF-8.
pub uninterp spec fn utf8_error_text(bytes: Seq<u8>) -> Seq<char>;

/// Calls `String::from_utf8`: the text that `bytes` encode, or, where they are
/// not UTF-8, the words of the error.
#[verifier::external_body]
pub(crate) fn string_from_utf8(bytes: Vec<u8>) -> (r: Result<String, String>)
    ensures
        match r {
            Ok(text) => valid_utf8(bytes@) && text@ == decode_utf8(bytes@),
            Err(message) => !valid_utf8(bytes@) && message@ == utf8_error_text(bytes@),
        },
{
    match String::from_utf8(bytes) {
        Ok(text) => Ok(text),
        Err(e) => Err(e.to_string()),
    }
}

} // verus!
