//! Character-level text helpers: the lexicographic order on character
//! sequences used by the directory listing, last-occurrence scans used
//! by the path computations, and the case-folding of names.

use vstd::prelude::*;
use vstd::string::StrSliceExecFns;

verus! {

/// Lexicographic "at or before" on two character sequences, read from
/// position `i` on: the shorter sequence wins a tie of characters, and
/// the first differing character decides by scalar value.
pub open spec fn lex_le_from(a: Seq<char>, b: Seq<char>, i: int) -> bool
    decreases a.len() - i,
{
    if i >= a.len() {
        true
    } else if i >= b.len() {
        false
    } else if (a[i] as u32) == (b[i] as u32) {
        lex_le_from(a, b, i + 1)
    } else {
        (a[i] as u32) < (b[i] as u32)
    }
}

/// Lexicographic "at or before" on two whole character sequences.
pub open spec fn lex_le(a: Seq<char>, b: Seq<char>) -> bool {
    lex_le_from(a, b, 0)
}

/// The lexicographic order is total: of any two sequences, one stands
/// at or before the other.
pub proof fn lemma_lex_le_from_total(a: Seq<char>, b: Seq<char>, i: int)
    ensures
        lex_le_from(a, b, i) || lex_le_from(b, a, i),
    decreases a.len() - i,
{
    if i < a.len() && i < b.len() && (a[i] as u32) == (b[i] as u32) {
        lemma_lex_le_from_total(a, b, i + 1);
    }
}

/// The lexicographic order is transitive.
pub proof fn lemma_lex_le_from_trans(a: Seq<char>, b: Seq<char>, c: Seq<char>, i: int)
    requires
        lex_le_from(a, b, i),
        lex_le_from(b, c, i),
    ensures
        lex_le_from(a, c, i),
    decreases a.len() - i,
{
    if i < a.len() && i < b.len() && i < c.len() && (a[i] as u32) == (b[i] as u32) && (b[i] as u32)
        == (c[i] as u32) {
        lemma_lex_le_from_trans(a, b, c, i + 1);
    }
}

/// Totality of [`lex_le`], stated on whole sequences.
pub proof fn lemma_lex_le_total(a: Seq<char>, b: Seq<char>)
    ensures
        lex_le(a, b) || lex_le(b, a),
{
    lemma_lex_le_from_total(a, b, 0);
}

/// Transitivity of [`lex_le`], stated on whole sequences.
pub proof fn lemma_lex_le_trans(a: Seq<char>, b: Seq<char>, c: Seq<char>)
    requires
        lex_le(a, b),
        lex_le(b, c),
    ensures
        lex_le(a, c),
{
    lemma_lex_le_from_trans(a, b, c, 0);
}

/// Decides [`lex_le`] on two strings by walking their characters.
pub fn str_lex_le(a: &str, b: &str) -> (r: bool)
    ensures
        r == lex_le(a@, b@),
{
    let alen = a.unicode_len();
    let blen = b.unicode_len();
    let mut i: usize = 0;
    while i < alen && i < blen
        invariant
            i <= alen,
            i <= blen,
            alen == a@.len(),
            blen == b@.len(),
            lex_le(a@, b@) == lex_le_from(a@, b@, i as int),
        decreases alen - i,
    {
        let ca = a.get_char(i) as u32;
        let cb = b.get_char(i) as u32;
        if ca != cb {
            return ca < cb;
        }
        i = i + 1;
    }
    i == alen
}

/// Decides whether two strings hold the same characters.
pub fn str_eq(a: &str, b: &str) -> (r: bool)
    ensures
        r == (a@ == b@),
{
    let alen = a.unicode_len();
    let blen = b.unicode_len();
    if alen != blen {
        return false;
    }
    let mut i: usize = 0;
    while i < alen
        invariant
            i <= alen,
            alen == a@.len(),
            alen == b@.len(),
            forall|k: int| 0 <= k < i ==> a@[k] == b@[k],
        decreases alen - i,
    {
        if a.get_char(i) != b.get_char(i) {
            return false;
        }
        i = i + 1;
    }
    proof {
        assert(a@ =~= b@);
    }
    true
}

/// The position of the last occurrence of `c` in `s`, or -1 when `c`
/// does not occur in `s`.
pub open spec fn last_index_of(s: Seq<char>, c: char) -> int
    decreases s.len(),
{
    if s.len() == 0 {
        -1
    } else if s[s.len() - 1] == c {
        s.len() - 1
    } else {
        last_index_of(s.drop_last(), c)
    }
}

/// What [`last_index_of`] returns: an in-range position that holds `c`
/// and is followed by no further `c`, or -1 when `c` is absent.
pub proof fn lemma_last_index_of(s: Seq<char>, c: char)
    ensures
        -1 <= last_index_of(s, c) < s.len(),
        last_index_of(s, c) >= 0 ==> s[last_index_of(s, c)] == c,
        forall|j: int| last_index_of(s, c) < j < s.len() ==> s[j] != c,
        last_index_of(s, c) == -1 ==> forall|j: int| 0 <= j < s.len() ==> s[j] != c,
    decreases s.len(),
{
    if s.len() == 0 {
    } else if s[s.len() - 1] == c {
    } else {
        lemma_last_index_of(s.drop_last(), c);
        assert forall|j: int| last_index_of(s, c) < j < s.len() implies s[j] != c by {
            if j < s.len() - 1 {
                assert(s.drop_last()[j] == s[j]);
            }
        }
    }
}

/// Finds the position of the last occurrence of `c` in `s`, if any.
pub fn find_last(s: &str, c: char) -> (r: Option<usize>)
    ensures
        match r {
            Some(k) => last_index_of(s@, c) == k as int,
            None => last_index_of(s@, c) == -1,
        },
{
    let n = s.unicode_len();
    let mut i: usize = n;
    proof {
        assert(s@.subrange(0, n as int) =~= s@);
    }
    while i > 0
        invariant
            i <= n,
            n == s@.len(),
            last_index_of(s@, c) == last_index_of(s@.subrange(0, i as int), c),
        decreases i,
    {
        let ch = s.get_char(i - 1);
        if ch == c {
            proof {
                assert(s@.subrange(0, i as int)[i - 1] == c);
            }
            return Some(i - 1);
        }
        proof {
            assert(s@.subrange(0, i as int).drop_last() =~= s@.subrange(0, i - 1));
            assert(s@.subrange(0, i as int)[i - 1] != c);
        }
        i = i - 1;
    }
    None
}

/// The case-folded form of a character sequence.  Its value is given
/// only by the host's case folding; contracts relate results to it by
/// name.
pub uninterp spec fn lower_of(s: Seq<char>) -> Seq<char>;

/// Relies on str::to_lowercase: the result depends on the input's
/// characters alone, and an empty string stays empty.
#[verifier::external_body]
pub(crate) fn lowercase(s: &str) -> (r: String)
    ensures
        r@ == lower_of(s@),
        s@.len() == 0 ==> r@.len() == 0,
{
    s.to_lowercase()
}

} // verus!
