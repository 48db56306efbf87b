//! What holds between `escape_template` and `unescape_template`.
use vstd::prelude::*;
use crate::escape::{
    backslashes_before, escaped, escaped_piece, escaped_prefix, is_escaping_backslash, is_open_at,
    is_unescaped_open, unescaped, unescaped_piece, unescaped_prefix,
};

verus! {

/// No occurrence of the marker in `s` is escaped.
pub open spec fn no_escaped_open(s: Seq<char>) -> bool {
    forall|i: int| #[trigger] is_open_at(s, i) ==> backslashes_before(s, i) % 2 == 0
}

/// Every occurrence of the marker in `s` is escaped.
pub open spec fn all_opens_escaped(s: Seq<char>) -> bool {
    forall|i: int| #[trigger] is_open_at(s, i) ==> backslashes_before(s, i) % 2 == 1
}

/// How many characters `escape_template` has written after reading `n`.
pub open spec fn escaped_len(s: Seq<char>, n: int) -> int {
    escaped_prefix(s, n).len() as int
}

/// How many characters `unescape_template` has written after reading `n`.
pub open spec fn unescaped_len(s: Seq<char>, n: int) -> int {
    unescaped_prefix(s, n).len() as int
}

/// What is written for fewer characters stands at the start of what is written for more.
proof fn lemma_escaped_prefix_grows(s: Seq<char>, n: int, m: int)
    requires
        0 <= n <= m,
    ensures
        escaped_len(s, n) <= escaped_len(s, m),
        n <= escaped_len(s, n),
        escaped_prefix(s, m).take(escaped_len(s, n)) =~= escaped_prefix(s, n),
    decreases m,
{
    if n < m {
        lemma_escaped_prefix_grows(s, n, m - 1);
    } else if n > 0 {
        lemma_escaped_prefix_grows(s, n - 1, n - 1);
    }
}

/// What is written for fewer characters stands at the start of what is written for more.
proof fn lemma_unescaped_prefix_grows(s: Seq<char>, n: int, m: int)
    requires
        0 <= n <= m,
    ensures
        unescaped_len(s, n) <= unescaped_len(s, m),
        unescaped_len(s, n) <= n,
        unescaped_prefix(s, m).take(unescaped_len(s, n)) =~= unescaped_prefix(s, n),
    decreases m,
{
    if n < m {
        lemma_unescaped_prefix_grows(s, n, m - 1);
    } else if n > 0 {
        lemma_unescaped_prefix_grows(s, n - 1, n - 1);
    }
}

/// Where the piece written for `s[n]` stands in `escaped(s)`.
proof fn lemma_escaped_piece_at(s: Seq<char>, n: int)
    requires
        0 <= n < s.len(),
    ensures
        escaped_len(s, n + 1) == escaped_len(s, n) + escaped_piece(s, n).len(),
        escaped_len(s, n + 1) <= escaped(s).len(),
        escaped(s)[escaped_len(s, n + 1) - 1] == s[n],
        is_unescaped_open(s, n) ==> escaped(s)[escaped_len(s, n)] == '\\',
        escaped(s).take(escaped_len(s, n)) =~= escaped_prefix(s, n),
        escaped(s).take(escaped_len(s, n + 1)) =~= escaped_prefix(s, n + 1),
{
    lemma_escaped_prefix_grows(s, n + 1, s.len() as int);
    lemma_escaped_prefix_grows(s, n, s.len() as int);
    let y = escaped(s);
    let a = escaped_len(s, n);
    let b = escaped_len(s, n + 1);
    assert(y.take(b)[b - 1] == s[n]);
    if is_unescaped_open(s, n) {
        assert(y.take(b)[a] == '\\');
    }
}

/// Where the piece written for `s[n]` stands in `unescaped(s)`.
proof fn lemma_unescaped_piece_at(s: Seq<char>, n: int)
    requires
        0 <= n < s.len(),
    ensures
        unescaped_len(s, n + 1) == unescaped_len(s, n) + unescaped_piece(s, n).len(),
        unescaped_len(s, n + 1) <= unescaped(s).len(),
        !is_escaping_backslash(s, n) ==> unescaped(s)[unescaped_len(s, n)] == s[n],
        unescaped(s).take(unescaped_len(s, n)) =~= unescaped_prefix(s, n),
        unescaped(s).take(unescaped_len(s, n + 1)) =~= unescaped_prefix(s, n + 1),
{
    lemma_unescaped_prefix_grows(s, n + 1, s.len() as int);
    lemma_unescaped_prefix_grows(s, n, s.len() as int);
    let y = unescaped(s);
    let a = unescaped_len(s, n);
    let b = unescaped_len(s, n + 1);
    if !is_escaping_backslash(s, n) {
        assert(y.take(b)[a] == s[n]);
    }
}

/// The run of backslashes before a piece of `escaped(s)` is the run before its character in `s`.
proof fn lemma_escaped_run(s: Seq<char>, n: int)
    requires
        0 <= n <= s.len(),
    ensures
        backslashes_before(escaped(s), escaped_len(s, n)) == backslashes_before(s, n),
    decreases n,
{
    if n > 0 {
        lemma_escaped_run(s, n - 1);
        lemma_escaped_piece_at(s, n - 1);
    }
}

/// The marker stands at the image of `s[n]` in `escaped(s)` exactly when it stands at `n` in `s`.
proof fn lemma_escaped_open(s: Seq<char>, n: int)
    requires
        0 <= n < s.len(),
    ensures
        is_open_at(escaped(s), escaped_len(s, n + 1) - 1) <==> is_open_at(s, n),
{
    let y = escaped(s);
    let q = escaped_len(s, n + 1) - 1;
    lemma_escaped_piece_at(s, n);
    lemma_escaped_prefix_grows(s, n, n);
    if n + 1 < s.len() {
        lemma_escaped_piece_at(s, n + 1);
        if n + 2 < s.len() {
            lemma_escaped_piece_at(s, n + 2);
        }
    }
}

/// In the output of `escape_template` every occurrence of the marker is escaped.
pub proof fn lemma_escaped_has_no_unescaped_open(s: Seq<char>, n: int)
    requires
        0 <= n <= s.len(),
    ensures
        forall|q: int| 0 <= q < escaped_len(s, n) ==> !is_unescaped_open(escaped(s), q),
    decreases n,
{
    if n > 0 {
        lemma_escaped_has_no_unescaped_open(s, n - 1);
        lemma_escaped_piece_at(s, n - 1);
        lemma_escaped_run(s, n - 1);
        lemma_escaped_open(s, n - 1);
        lemma_escaped_prefix_grows(s, n - 1, n - 1);
        let y = escaped(s);
        let a = escaped_len(s, n - 1);
        if is_unescaped_open(s, n - 1) {
            assert(!is_open_at(y, a));
            assert(backslashes_before(y, a + 1) == 1 + backslashes_before(y, a));
        }
    }
}

/// Escaping changes nothing where no occurrence of the marker is unescaped.
proof fn lemma_escape_fixed(y: Seq<char>, m: int)
    requires
        0 <= m <= y.len(),
        forall|q: int| 0 <= q < y.len() ==> !is_unescaped_open(y, q),
    ensures
        escaped_prefix(y, m) =~= y.take(m),
    decreases m,
{
    if m > 0 {
        lemma_escape_fixed(y, m - 1);
    }
}

/// Escaping an already escaped text changes nothing: `escape_template` is idempotent.
pub proof fn lemma_escape_idempotent(s: Seq<char>)
    ensures
        escaped(escaped(s)) == escaped(s),
{
    let y = escaped(s);
    lemma_escaped_has_no_unescaped_open(s, s.len() as int);
    lemma_escape_fixed(y, y.len() as int);
    assert(y.take(y.len() as int) =~= y);
}

/// Unescaping what was written for the first `n` characters gives these characters back.
proof fn lemma_unescape_escaped_prefix(s: Seq<char>, n: int)
    requires
        0 <= n <= s.len(),
        no_escaped_open(s),
    ensures
        unescaped_prefix(escaped(s), escaped_len(s, n)) =~= s.take(n),
    decreases n,
{
    if n > 0 {
        let k = n - 1;
        lemma_unescape_escaped_prefix(s, k);
        lemma_escaped_piece_at(s, k);
        lemma_escaped_run(s, k);
        lemma_escaped_open(s, k);
        lemma_escaped_prefix_grows(s, k, k);
        let y = escaped(s);
        let a = escaped_len(s, k);
        if is_unescaped_open(s, k) {
            assert(is_escaping_backslash(y, a));
            assert(!is_escaping_backslash(y, a + 1));
            assert(unescaped_prefix(y, a + 1) =~= unescaped_prefix(y, a));
            assert(unescaped_prefix(y, a + 2) =~= unescaped_prefix(y, a + 1) + seq![s[k]]);
        } else {
            assert(is_open_at(s, k) ==> backslashes_before(s, k) % 2 == 0);
            assert(!is_open_at(s, k));
            if is_escaping_backslash(y, a) {
                // the marker would then stand behind an unescaped backslash of `s`
                assert(k + 1 < s.len());
                lemma_escaped_piece_at(s, k + 1);
                lemma_escaped_open(s, k + 1);
                assert(is_open_at(s, k + 1));
                assert(is_open_at(s, k + 1) ==> backslashes_before(s, k + 1) % 2 == 0);
                assert(false);
            }
            assert(unescaped_prefix(y, a + 1) =~= unescaped_prefix(y, a) + seq![s[k]]);
        }
    }
}

/// Unescaping undoes escaping on every text in which no occurrence of the marker
/// was escaped beforehand.
pub proof fn lemma_unescape_escape(s: Seq<char>)
    requires
        no_escaped_open(s),
    ensures
        unescaped(escaped(s)) == s,
{
    lemma_unescape_escaped_prefix(s, s.len() as int);
    assert(s.take(s.len() as int) =~= s);
}

/// 1 where the character before `n` is a backslash that `unescape_template` drops, else 0.
pub open spec fn dropped_before(s: Seq<char>, n: int) -> int {
    if n > 0 && is_escaping_backslash(s, n - 1) {
        1
    } else {
        0
    }
}

/// The run of backslashes before a piece of `unescaped(s)` is the run before its
/// character in `s`, less the backslash that was dropped from its end.
proof fn lemma_unescaped_run(s: Seq<char>, n: int)
    requires
        0 <= n <= s.len(),
    ensures
        backslashes_before(unescaped(s), unescaped_len(s, n)) == backslashes_before(s, n)
            - dropped_before(s, n),
    decreases n,
{
    if n > 0 {
        lemma_unescaped_run(s, n - 1);
        lemma_unescaped_piece_at(s, n - 1);
    }
}

/// The marker stands at the image of `s[n]` in `unescaped(s)` exactly when it stands at `n` in `s`.
proof fn lemma_unescaped_open(s: Seq<char>, n: int)
    requires
        0 <= n < s.len(),
        !is_escaping_backslash(s, n),
    ensures
        is_open_at(unescaped(s), unescaped_len(s, n)) <==> is_open_at(s, n),
{
    lemma_unescaped_piece_at(s, n);
    lemma_unescaped_prefix_grows(s, n, n);
    if n + 1 < s.len() {
        lemma_unescaped_piece_at(s, n + 1);
        if n + 2 < s.len() {
            lemma_unescaped_piece_at(s, n + 2);
            if n + 3 < s.len() {
                lemma_unescaped_piece_at(s, n + 3);
            }
        }
    }
}

/// Escaping what was written for the first `n` characters gives these characters
/// back, but for a backslash that was just dropped.
proof fn lemma_escape_unescaped_prefix(s: Seq<char>, n: int)
    requires
        0 <= n <= s.len(),
        all_opens_escaped(s),
    ensures
        escaped_prefix(unescaped(s), unescaped_len(s, n)) =~= s.take(n - dropped_before(s, n)),
    decreases n,
{
    if n > 0 {
        let k = n - 1;
        lemma_escape_unescaped_prefix(s, k);
        lemma_unescaped_piece_at(s, k);
        lemma_unescaped_run(s, k);
        lemma_unescaped_prefix_grows(s, k, k);
        let z = unescaped(s);
        let a = unescaped_len(s, k);
        if is_escaping_backslash(s, k) {
            assert(dropped_before(s, k) == 0);
        } else {
            lemma_unescaped_open(s, k);
            if dropped_before(s, k) == 1 {
                assert(is_open_at(s, k));
                assert(is_unescaped_open(z, a));
                assert(escaped_prefix(z, a + 1) =~= escaped_prefix(z, a) + seq!['\\', s[k]]);
                assert(s.take(k - 1) + seq!['\\', s[k]] =~= s.take(n));
            } else {
                assert(is_open_at(s, k) ==> backslashes_before(s, k) % 2 == 1);
                assert(!is_unescaped_open(z, a));
                assert(escaped_prefix(z, a + 1) =~= escaped_prefix(z, a) + seq![s[k]]);
            }
        }
    }
}

/// Escaping undoes unescaping on every text in which each occurrence of the marker
/// is escaped.
pub proof fn lemma_escape_unescape(s: Seq<char>)
    requires
        all_opens_escaped(s),
    ensures
        escaped(unescaped(s)) == s,
{
    lemma_escape_unescaped_prefix(s, s.len() as int);
    assert(dropped_before(s, s.len() as int) == 0);
    assert(s.take(s.len() as int) =~= s);
}

} // verus!
