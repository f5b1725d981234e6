//! The launch-argument scan: at process start, the arguments after the
//! executable token are probed in order, and the first existing regular
//! file whose extension is on the document allow-list becomes the one
//! document to open.  At most one candidate is ever produced.

use crate::paths::path_extension;
use crate::text::str_eq;
use vstd::prelude::*;

verus! {

/// One probed launch argument: the argument text and what a probe of
/// it found on the host filesystem.
#[derive(Clone, Debug)]
pub struct ArgProbe {
    pub arg: String,
    pub present: bool,
    pub is_regular_file: bool,
}

/// The extension allow-list of launch documents.  The match is
/// case-sensitive, on the extension as given.
pub open spec fn allowed_extension(e: Seq<char>) -> bool {
    e == "md"@ || e == "markdown"@ || e == "txt"@
}

/// Decides [`allowed_extension`] on an extension string.
pub fn is_allowed_extension(e: &str) -> (r: bool)
    ensures
        r == allowed_extension(e@),
{
    str_eq(e, "md") || str_eq(e, "markdown") || str_eq(e, "txt")
}

/// Whether one argument names a launch document: it exists, it is a
/// regular file, and its extension is on the allow-list.
pub open spec fn launch_candidate(p: Seq<char>, present: bool, is_regular_file: bool) -> bool {
    present && is_regular_file && match path_extension(p) {
        Some(e) => allowed_extension(e),
        None => false,
    }
}

/// [`launch_candidate`] of one probed argument.
pub open spec fn probe_is_candidate(a: ArgProbe) -> bool {
    launch_candidate(a.arg@, a.present, a.is_regular_file)
}

/// Decides [`launch_candidate`] on one probed argument.
pub fn is_launch_candidate(arg: &str, present: bool, is_regular_file: bool) -> (r: bool)
    ensures
        r == launch_candidate(arg@, present, is_regular_file),
{
    if !present || !is_regular_file {
        return false;
    }
    match crate::paths::extension_of(arg) {
        Some(e) => is_allowed_extension(e.as_str()),
        None => false,
    }
}

/// The first launch document among the probed arguments at or after
/// position `i`, if any.
pub open spec fn first_candidate_from(s: Seq<ArgProbe>, i: int) -> Option<Seq<char>>
    decreases s.len() - i,
{
    if i >= s.len() {
        None
    } else if probe_is_candidate(s[i]) {
        Some(s[i].arg@)
    } else {
        first_candidate_from(s, i + 1)
    }
}

/// Resolves the one document to open at launch: the first candidate
/// among the arguments after the leading executable token, or none.
pub fn resolve_launch_candidate(args: &Vec<ArgProbe>) -> (r: Option<String>)
    ensures
        match r {
            Some(p) => first_candidate_from(args@, 1) == Some(p@),
            None => first_candidate_from(args@, 1) is None,
        },
{
    let mut i: usize = 1;
    while i < args.len()
        invariant
            1 <= i,
            i <= args@.len() || i == 1,
            first_candidate_from(args@, 1) == first_candidate_from(args@, i as int),
        decreases args@.len() - i,
    {
        let a = &args[i];
        if is_launch_candidate(a.arg.as_str(), a.present, a.is_regular_file) {
            return Some(a.arg.clone());
        }
        i = i + 1;
    }
    None
}

/// The law of the launch scan: no candidate is produced exactly when
/// no argument after the executable token qualifies, and a produced
/// candidate is the earliest qualifying argument — so at most one
/// document is ever surfaced per process start.
pub proof fn lemma_first_candidate_characterization(s: Seq<ArgProbe>)
    ensures
        first_candidate_from(s, 1) is None <==> (forall|i: int|
            1 <= i < s.len() ==> !probe_is_candidate(s[i])),
        first_candidate_from(s, 1) is Some ==> exists|i: int|
            1 <= i < s.len() && probe_is_candidate(s[i]) && first_candidate_from(s, 1) == Some(
                s[i].arg@,
            ) && (forall|j: int| 1 <= j < i ==> !probe_is_candidate(s[j])),
{
    lemma_first_candidate_witness(s, 1);
}

/// Helper for the characterization: walks to the first candidate.
proof fn lemma_first_candidate_witness(s: Seq<ArgProbe>, i: int)
    requires
        1 <= i,
    ensures
        first_candidate_from(s, i) is None <==> (forall|j: int|
            i <= j < s.len() ==> !probe_is_candidate(s[j])),
        first_candidate_from(s, i) is Some ==> exists|k: int|
            i <= k < s.len() && probe_is_candidate(s[k]) && first_candidate_from(s, i) == Some(
                s[k].arg@,
            ) && (forall|j: int| i <= j < k ==> !probe_is_candidate(s[j])),
    decreases s.len() - i,
{
    if i < s.len() && !probe_is_candidate(s[i]) {
        lemma_first_candidate_witness(s, i + 1);
    }
}

} // verus!
