//! Directory listings: classification of probed children, the listing
//! order (directories first, then case-insensitive name order), and the
//! fail-fast assembly of a whole listing from per-child probe results.

use crate::error::{kind_of_class, FsError, HostError};
use crate::text::{
    lemma_lex_le_total, lemma_lex_le_trans, lex_le, lower_of, lowercase, str_lex_le,
};
use vstd::multiset::Multiset;
use vstd::prelude::*;

verus! {

/// One child of a listed directory.  `size` is populated for regular
/// files only; directories and special entries carry no size.
#[derive(Clone, Debug, PartialEq)]
pub struct DirectoryEntry {
    pub name: String,
    pub path: String,
    pub is_dir: bool,
    pub size: Option<u64>,
}

/// What the host reported about one successfully probed child: its
/// name, its full path, its classification, and its byte length.
#[derive(Clone, Debug)]
pub struct RawEntry {
    pub name: String,
    pub path: String,
    pub is_dir: bool,
    pub is_file: bool,
    pub size: u64,
}

/// The listing entry that one probed child yields: a regular file
/// carries its byte length, anything else carries none.
pub open spec fn entry_of_raw(r: RawEntry) -> DirectoryEntry {
    DirectoryEntry {
        name: r.name,
        path: r.path,
        is_dir: r.is_dir,
        size: if r.is_file {
            Some(r.size)
        } else {
            None
        },
    }
}

/// The listing order: a directory stands before any file, and within
/// one classification the case-folded names decide lexicographically.
/// Entries whose case-folded names tie are mutually unordered.
pub open spec fn entry_le(a: DirectoryEntry, b: DirectoryEntry) -> bool {
    if a.is_dir != b.is_dir {
        a.is_dir
    } else {
        lex_le(lower_of(a.name@), lower_of(b.name@))
    }
}

/// A sequence of entries that stands in the listing order.
pub open spec fn entries_sorted(s: Seq<DirectoryEntry>) -> bool {
    forall|i: int, j: int| 0 <= i < j < s.len() ==> entry_le(s[i], s[j])
}

/// The listing order is total.
pub proof fn lemma_entry_le_total(a: DirectoryEntry, b: DirectoryEntry)
    ensures
        entry_le(a, b) || entry_le(b, a),
{
    if a.is_dir == b.is_dir {
        lemma_lex_le_total(lower_of(a.name@), lower_of(b.name@));
    }
}

/// The listing order is transitive.
pub proof fn lemma_entry_le_trans(a: DirectoryEntry, b: DirectoryEntry, c: DirectoryEntry)
    requires
        entry_le(a, b),
        entry_le(b, c),
    ensures
        entry_le(a, c),
{
    if a.is_dir == b.is_dir && b.is_dir == c.is_dir {
        lemma_lex_le_trans(lower_of(a.name@), lower_of(b.name@), lower_of(c.name@));
    }
}

/// Decides the listing order between two entries by case-folding their
/// names.
pub fn entry_leq(a: &DirectoryEntry, b: &DirectoryEntry) -> (r: bool)
    ensures
        r == entry_le(*a, *b),
{
    if a.is_dir != b.is_dir {
        a.is_dir
    } else {
        let la = lowercase(a.name.as_str());
        let lb = lowercase(b.name.as_str());
        str_lex_le(la.as_str(), lb.as_str())
    }
}

/// The position of an entry that stands at or before every entry of
/// `v` in the listing order.
fn min_entry_index(v: &Vec<DirectoryEntry>) -> (k: usize)
    requires
        v@.len() > 0,
    ensures
        k < v@.len(),
        forall|j: int| 0 <= j < v@.len() ==> entry_le(v@[k as int], v@[j]),
{
    let mut best: usize = 0;
    let mut j: usize = 1;
    proof {
        lemma_entry_le_total(v@[0], v@[0]);
    }
    while j < v.len()
        invariant
            best < j <= v@.len(),
            forall|t: int| 0 <= t < j ==> entry_le(v@[best as int], v@[t]),
        decreases v@.len() - j,
    {
        if !entry_leq(&v[best], &v[j]) {
            proof {
                lemma_entry_le_total(v@[best as int], v@[j as int]);
                assert forall|t: int| 0 <= t <= j implies entry_le(v@[j as int], v@[t]) by {
                    if t < j {
                        lemma_entry_le_trans(v@[j as int], v@[best as int], v@[t]);
                    } else {
                        lemma_entry_le_total(v@[j as int], v@[j as int]);
                    }
                }
            }
            best = j;
        }
        j = j + 1;
    }
    best
}

/// Sorts a listing into the listing order.  The result holds exactly
/// the given entries; directories stand before all files, and within
/// each classification the case-folded names ascend.
pub fn sort_entries(entries: Vec<DirectoryEntry>) -> (r: Vec<DirectoryEntry>)
    ensures
        entries_sorted(r@),
        r@.to_multiset() == entries@.to_multiset(),
        r@.len() == entries@.len(),
        forall|i: int, j: int| 0 <= i < j < r@.len() && r@[j].is_dir ==> r@[i].is_dir,
{
    let mut rest = entries;
    let mut out: Vec<DirectoryEntry> = Vec::new();
    proof {
        broadcast use vstd::seq_lib::group_to_multiset_ensures;
        broadcast use vstd::multiset::group_multiset_axioms;

        assert(out@.to_multiset().add(rest@.to_multiset()) =~= entries@.to_multiset());
    }
    while rest.len() > 0
        invariant
            out@.to_multiset().add(rest@.to_multiset()) == entries@.to_multiset(),
            entries_sorted(out@),
            forall|i: int, j: int|
                0 <= i < out@.len() && 0 <= j < rest@.len() ==> entry_le(out@[i], rest@[j]),
        decreases rest@.len(),
    {
        let ghost out0 = out@;
        let ghost rest0 = rest@;
        let k = min_entry_index(&rest);
        let x = rest.remove(k);
        proof {
            broadcast use vstd::seq_lib::group_to_multiset_ensures;
            broadcast use vstd::multiset::group_multiset_axioms;

            assert(rest0[k as int] == x);
            assert(rest0.contains(x));
            assert(rest0.remove(k as int).to_multiset() =~= rest0.to_multiset().remove(x));
            assert(out0.push(x).to_multiset() =~= out0.to_multiset().insert(x));
            assert(out0.push(x).to_multiset().add(rest@.to_multiset()) =~= entries@.to_multiset());
            assert forall|i: int, j: int|
                0 <= i < out0.push(x).len() && 0 <= j < rest@.len() implies entry_le(
                out0.push(x)[i],
                rest@[j],
            ) by {
                if j < k {
                    assert(rest@[j] == rest0[j]);
                } else {
                    assert(rest@[j] == rest0[j + 1]);
                }
            }
        }
        out.push(x);
    }
    proof {
        broadcast use vstd::seq_lib::group_to_multiset_ensures;
        broadcast use vstd::multiset::group_multiset_axioms;

        assert(rest@ =~= Seq::<DirectoryEntry>::empty());
        assert(rest@.to_multiset().len() == 0);
        assert(rest@.to_multiset() =~= Multiset::<DirectoryEntry>::empty());
        assert(out@.to_multiset().add(rest@.to_multiset()) =~= out@.to_multiset());
        assert(out@.len() == out@.to_multiset().len());
        assert(entries@.len() == entries@.to_multiset().len());
        assert forall|i: int, j: int|
            0 <= i < j < out@.len() && out@[j].is_dir implies out@[i].is_dir by {
            assert(entry_le(out@[i], out@[j]));
        }
    }
    out
}

/// The earliest failed probe at or after position `i`, if any.
pub open spec fn first_failure_from(
    s: Seq<Result<RawEntry, HostError>>,
    i: int,
) -> Option<HostError>
    decreases s.len() - i,
{
    if i >= s.len() {
        None
    } else if s[i] is Err {
        Some(s[i]->Err_0)
    } else {
        first_failure_from(s, i + 1)
    }
}

/// The earliest failed probe of the whole sequence, if any.
pub open spec fn first_failure(s: Seq<Result<RawEntry, HostError>>) -> Option<HostError> {
    first_failure_from(s, 0)
}

/// The entries that a fully successful probe sequence yields, in
/// enumeration order.
pub open spec fn entries_of(s: Seq<Result<RawEntry, HostError>>) -> Seq<DirectoryEntry> {
    Seq::new(s.len(), |i: int| entry_of_raw(s[i]->Ok_0))
}

/// Scanning for the first failure can begin after any all-successful
/// prefix.
proof fn lemma_first_failure_skip(s: Seq<Result<RawEntry, HostError>>, i: int)
    requires
        0 <= i <= s.len(),
        forall|j: int| 0 <= j < i ==> s[j] is Ok,
    ensures
        first_failure_from(s, 0) == first_failure_from(s, i),
    decreases i,
{
    if i > 0 {
        lemma_first_failure_skip(s, i - 1);
    }
}

/// The fail-fast law of listings: a probe sequence has no first
/// failure exactly when every probe succeeded, and when one failed,
/// the first failure is the earliest failed probe.
pub proof fn lemma_first_failure_characterization(s: Seq<Result<RawEntry, HostError>>)
    ensures
        first_failure(s) is None <==> (forall|i: int| 0 <= i < s.len() ==> s[i] is Ok),
        first_failure(s) is Some ==> exists|i: int|
            0 <= i < s.len() && s[i] is Err && first_failure(s) == Some(s[i]->Err_0) && (forall|
                j: int,
            |
                0 <= j < i ==> s[j] is Ok),
{
    lemma_first_failure_witness(s, 0);
}

/// Helper for the characterization: walks to the first failed probe.
proof fn lemma_first_failure_witness(s: Seq<Result<RawEntry, HostError>>, i: int)
    requires
        0 <= i <= s.len(),
    ensures
        first_failure_from(s, i) is None <==> (forall|j: int| i <= j < s.len() ==> s[j] is Ok),
        first_failure_from(s, i) is Some ==> exists|k: int|
            i <= k < s.len() && s[k] is Err && first_failure_from(s, i) == Some(s[k]->Err_0) && (
            forall|j: int| i <= j < k ==> s[j] is Ok),
    decreases s.len() - i,
{
    if i < s.len() && !(s[i] is Err) {
        lemma_first_failure_witness(s, i + 1);
    }
}

/// Assembles a directory listing from the per-child probe results, in
/// the order the directory was enumerated.  Fail-fast: if any probe
/// failed, the whole listing fails with the earliest failure,
/// classified under the error taxonomy; otherwise every child becomes
/// an entry and the entries come back in the listing order.
pub fn build_listing(probes: Vec<Result<RawEntry, HostError>>) -> (r: Result<
    Vec<DirectoryEntry>,
    FsError,
>)
    ensures
        match r {
            Ok(list) => {
                &&& first_failure(probes@) is None
                &&& entries_sorted(list@)
                &&& list@.to_multiset() == entries_of(probes@).to_multiset()
                &&& list@.len() == probes@.len()
            },
            Err(e) => {
                &&& first_failure(probes@) is Some
                &&& e.kind == kind_of_class(first_failure(probes@)->Some_0.class)
                &&& e.message@ == first_failure(probes@)->Some_0.message@
            },
        },
{
    let ghost all = probes@;
    let mut rest = probes;
    let mut found: Vec<DirectoryEntry> = Vec::new();
    proof {
        assert(rest@ =~= all.skip(0));
        assert(found@ =~= entries_of(all).subrange(0, 0));
    }
    while rest.len() > 0
        invariant
            all == probes@,
            found@.len() + rest@.len() == all.len(),
            rest@ =~= all.skip(found@.len() as int),
            found@ =~= entries_of(all).subrange(0, found@.len() as int),
            forall|j: int| 0 <= j < found@.len() ==> all[j] is Ok,
        decreases rest@.len(),
    {
        let ghost idx = found@.len() as int;
        let ghost rest0 = rest@;
        let p = rest.remove(0);
        proof {
            assert(rest0[0] == all[idx]);
            assert(rest@ =~= all.skip(idx + 1));
        }
        match p {
            Ok(raw) => {
                let size = if raw.is_file {
                    Some(raw.size)
                } else {
                    None
                };
                let entry = DirectoryEntry { name: raw.name, path: raw.path, is_dir: raw.is_dir, size };
                proof {
                    assert(entry == entries_of(all)[idx]);
                    assert(found@.push(entry) =~= entries_of(all).subrange(0, idx + 1));
                }
                found.push(entry);
            },
            Err(h) => {
                proof {
                    lemma_first_failure_skip(all, idx);
                    assert(all[idx] is Err);
                    assert(first_failure_from(all, idx) == Some(all[idx]->Err_0));
                    assert(first_failure(all) == Some(h));
                }
                return Err(FsError::from_host(h));
            },
        }
    }
    proof {
        lemma_first_failure_skip(all, found@.len() as int);
        assert(found@ =~= entries_of(all));
    }
    Ok(sort_entries(found))
}

} // verus!
