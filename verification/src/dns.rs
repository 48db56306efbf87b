//! Names that stand for this machine.
use vstd::prelude::*;
use crate::text::chars_of;

verus! {

/// `text` in lower case, as `str::to_lowercase` gives it.
pub uninterp spec fn lowercased(text: Seq<char>) -> Seq<char>;

/// Calls `str::to_lowercase`.
#[verifier::external_body]
fn to_lowercase(text: &str) -> (lower: String)
    ensures
        lower@ == lowercased(text@),
{
    text.to_lowercase()
}

/// `suffix` stands at the end of `text`.
pub open spec fn is_suffix_of(suffix: Seq<char>, text: Seq<char>) -> bool {
    suffix.len() <= text.len() && text.subrange(text.len() - suffix.len(), text.len() as int)
        == suffix
}

/// Whether `suffix` stands at the end of `text`.
pub fn ends_with(text: &str, suffix: &str) -> (b: bool)
    ensures
        b == is_suffix_of(suffix@, text@),
{
    let t = chars_of(text);
    let s = chars_of(suffix);
    if s.len() > t.len() {
        return false;
    }
    let start = t.len() - s.len();
    let mut i: usize = 0;
    while i < s.len()
        invariant
            i <= s.len() <= t.len(),
            start == t.len() - s.len(),
            t@ == text@,
            s@ == suffix@,
            forall|k: int| 0 <= k < i ==> t@[start + k] == s@[k],
        decreases s.len() - i,
    {
        if t[start + i] != s[i] {
            assert(t@.subrange(start as int, t.len() as int)[i as int] != s@[i as int]);
            return false;
        }
        i += 1;
    }
    assert(t@.subrange(start as int, t.len() as int) =~= s@);
    true
}

/// Whether the host name is one below `localhost`, whatever its case: such a
/// name is resolved to this machine.
pub fn is_localhost_name(host: &str) -> (b: bool)
    ensures
        b == is_suffix_of(".localhost"@, lowercased(host@)),
{
    let host = to_lowercase(host);
    ends_with(host.as_str(), ".localhost")
}

} // verus!
