//! Escaping of the tag-opening marker `${[`.
//!
//! An occurrence of the marker is *escaped* when an odd number of backslashes
//! stands immediately before it. `escape_template` puts a backslash before every
//! occurrence that is not escaped; `unescape_template` takes the escaping
//! backslash away again.
use vstd::prelude::*;
use crate::text::chars_of;

verus! {

/// The marker `${[` stands in `s` at index `i`, with all three characters inside `s`.
pub open spec fn is_open_at(s: Seq<char>, i: int) -> bool {
    &&& 0 <= i
    &&& i + 2 < s.len()
    &&& s[i] == '$'
    &&& s[i + 1] == '{'
    &&& s[i + 2] == '['
}

/// The length of the run of backslashes that ends immediately before index `i`.
pub open spec fn backslashes_before(s: Seq<char>, i: int) -> nat
    decreases i,
{
    if 0 < i <= s.len() && s[i - 1] == '\\' {
        1 + backslashes_before(s, i - 1)
    } else {
        0
    }
}

/// An occurrence of the marker starts at `i` and is not escaped.
pub open spec fn is_unescaped_open(s: Seq<char>, i: int) -> bool {
    is_open_at(s, i) && backslashes_before(s, i) % 2 == 0
}

/// The character at `i` is a backslash that escapes the marker following it.
pub open spec fn is_escaping_backslash(s: Seq<char>, i: int) -> bool {
    &&& 0 <= i < s.len()
    &&& s[i] == '\\'
    &&& is_open_at(s, i + 1)
    &&& backslashes_before(s, i) % 2 == 0
}

/// What `escape_template` writes for the character at index `i`.
pub open spec fn escaped_piece(s: Seq<char>, i: int) -> Seq<char> {
    if is_unescaped_open(s, i) {
        seq!['\\', s[i]]
    } else {
        seq![s[i]]
    }
}

/// What `escape_template` has written once the first `n` characters are read.
pub open spec fn escaped_prefix(s: Seq<char>, n: int) -> Seq<char>
    decreases n,
{
    if n <= 0 {
        Seq::empty()
    } else {
        escaped_prefix(s, n - 1) + escaped_piece(s, n - 1)
    }
}

/// `s` with a backslash put before every occurrence of the marker that is not escaped.
pub open spec fn escaped(s: Seq<char>) -> Seq<char> {
    escaped_prefix(s, s.len() as int)
}

/// What `unescape_template` writes for the character at index `i`.
pub open spec fn unescaped_piece(s: Seq<char>, i: int) -> Seq<char> {
    if is_escaping_backslash(s, i) {
        Seq::empty()
    } else {
        seq![s[i]]
    }
}

/// What `unescape_template` has written once the first `n` characters are read.
pub open spec fn unescaped_prefix(s: Seq<char>, n: int) -> Seq<char>
    decreases n,
{
    if n <= 0 {
        Seq::empty()
    } else {
        unescaped_prefix(s, n - 1) + unescaped_piece(s, n - 1)
    }
}

/// `s` without the backslashes that escape an occurrence of the marker.
pub open spec fn unescaped(s: Seq<char>) -> Seq<char> {
    unescaped_prefix(s, s.len() as int)
}

/// A run of backslashes from `j` up to `i` extends the run that ends before `j`.
pub proof fn lemma_backslash_run(s: Seq<char>, j: int, i: int)
    requires
        0 <= j <= i <= s.len(),
        forall|k: int| j <= k < i ==> s[k] == '\\',
    ensures
        backslashes_before(s, i) == (i - j) + backslashes_before(s, j),
    decreases i - j,
{
    if j < i {
        lemma_backslash_run(s, j, i - 1);
    }
}

/// Counts the backslashes that stand immediately before index `i`.
pub fn count_backslashes_before(chars: &Vec<char>, i: usize) -> (n: usize)
    requires
        i <= chars.len(),
    ensures
        n == backslashes_before(chars@, i as int),
{
    let mut j: usize = i;
    while j > 0 && chars[j - 1] == '\\'
        invariant
            j <= i <= chars.len(),
            forall|k: int| j <= k < i ==> chars@[k] == '\\',
        decreases j,
    {
        j -= 1;
    }
    proof {
        lemma_backslash_run(chars@, j as int, i as int);
    }
    i - j
}

/// Whether the marker `${[` stands at index `i`.
pub fn open_at(chars: &Vec<char>, i: usize) -> (b: bool)
    ensures
        b == is_open_at(chars@, i as int),
{
    i < chars.len() && chars.len() - i > 2 && chars[i] == '$' && chars[i + 1] == '{' && chars[i
        + 2] == '['
}

/// Puts a backslash before every occurrence of `${[` that is not yet escaped.
pub fn escape_template(text: &str) -> (result: String)
    ensures
        result@ == escaped(text@),
{
    let chars = chars_of(text);
    let mut result = String::new();
    let mut i: usize = 0;
    while i < chars.len()
        invariant
            i <= chars.len(),
            chars@ == text@,
            result@ == escaped_prefix(chars@, i as int),
        decreases chars.len() - i,
    {
        if open_at(&chars, i) {
            let backslash_count = count_backslashes_before(&chars, i);
            let already_escaped = backslash_count % 2 == 1;
            if already_escaped {
                result.push(chars[i]);
            } else {
                result.push('\\');
                result.push(chars[i]);
            }
        } else {
            result.push(chars[i]);
        }
        i += 1;
    }
    result
}

/// Removes the backslash from every escaped occurrence of `${[`.
pub fn unescape_template(text: &str) -> (result: String)
    ensures
        result@ == unescaped(text@),
{
    let chars = chars_of(text);
    let mut result = String::new();
    let mut i: usize = 0;
    while i < chars.len()
        invariant
            i <= chars.len(),
            chars@ == text@,
            result@ == unescaped_prefix(chars@, i as int),
        decreases chars.len() - i,
    {
        if chars[i] == '\\' && open_at(&chars, i + 1) {
            let backslash_count = count_backslashes_before(&chars, i);
            let escapes_dollar = backslash_count % 2 == 0;
            if escapes_dollar {
                // the backslash is dropped and the `$` behind it is written
                assert(unescaped_prefix(chars@, i + 1) == unescaped_prefix(chars@, i as int)
                    + unescaped_piece(chars@, i as int));
                assert(unescaped_prefix(chars@, i + 2) == unescaped_prefix(chars@, i + 1)
                    + unescaped_piece(chars@, i + 1));
                result.push(chars[i + 1]);
                i += 1;
            } else {
                result.push(chars[i]);
            }
        } else {
            result.push(chars[i]);
        }
        i += 1;
    }
    result
}

} // verus!
