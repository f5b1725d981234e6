//! Single-path operations: the pre-checks that decide whether a read,
//! delete, rename or listing may proceed on a probed path, and the
//! path-text computations of the create operation (parent directory,
//! default content) and of the launch scan (extension).

use crate::error::{FsError, FsErrorKind};
use crate::text::{find_last, last_index_of, lemma_last_index_of};
use vstd::prelude::*;
use vstd::string::StrSliceExecFns;

verus! {

/// What a probe of a path found on the host filesystem.
#[derive(Clone, Copy, Debug, PartialEq, Eq, Structural)]
pub enum PathKind {
    /// No entry exists under the path.
    Missing,
    /// The path names a regular file.
    File,
    /// The path names a directory.
    Directory,
    /// The path names an entry that is neither a regular file nor a
    /// directory (a device, a socket, ...).
    Other,
}

/// Decides whether a file may be read: a missing path is reported as
/// not found, a directory as a kind mismatch; anything else is left to
/// the host read.
pub fn precheck_read(kind: PathKind) -> (r: Result<(), FsError>)
    ensures
        r is Ok <==> (kind == PathKind::File || kind == PathKind::Other),
        kind == PathKind::Missing ==> r->Err_0.kind == FsErrorKind::NotFound,
        kind == PathKind::Directory ==> r->Err_0.kind == FsErrorKind::IsADirectory,
{
    match kind {
        PathKind::Missing => Err(
            FsError::new(FsErrorKind::NotFound, "no file exists under the path".to_owned()),
        ),
        PathKind::Directory => Err(
            FsError::new(FsErrorKind::IsADirectory, "the path names a directory".to_owned()),
        ),
        _ => Ok(()),
    }
}

/// Decides whether a delete may proceed: it removes exactly one file,
/// so a missing path is reported as not found and a directory as a
/// kind mismatch, never as a plain host failure.
pub fn precheck_delete(kind: PathKind) -> (r: Result<(), FsError>)
    ensures
        r is Ok <==> (kind == PathKind::File || kind == PathKind::Other),
        kind == PathKind::Missing ==> r->Err_0.kind == FsErrorKind::NotFound,
        kind == PathKind::Directory ==> r->Err_0.kind == FsErrorKind::IsADirectory,
{
    match kind {
        PathKind::Missing => Err(
            FsError::new(FsErrorKind::NotFound, "no file exists under the path".to_owned()),
        ),
        PathKind::Directory => Err(
            FsError::new(FsErrorKind::IsADirectory, "the path names a directory".to_owned()),
        ),
        _ => Ok(()),
    }
}

/// Decides whether a rename may proceed: a missing source is reported
/// as not found; everything else is left to the host rename.
pub fn precheck_rename_source(kind: PathKind) -> (r: Result<(), FsError>)
    ensures
        r is Ok <==> kind != PathKind::Missing,
        kind == PathKind::Missing ==> r->Err_0.kind == FsErrorKind::NotFound,
{
    match kind {
        PathKind::Missing => Err(
            FsError::new(FsErrorKind::NotFound, "the source path does not exist".to_owned()),
        ),
        _ => Ok(()),
    }
}

/// Decides whether a directory may be listed: a missing path is
/// reported as not found and anything that is not a directory as a
/// kind mismatch.
pub fn precheck_listing(kind: PathKind) -> (r: Result<(), FsError>)
    ensures
        r is Ok <==> kind == PathKind::Directory,
        kind == PathKind::Missing ==> r->Err_0.kind == FsErrorKind::NotFound,
        (kind == PathKind::File || kind == PathKind::Other) ==> r->Err_0.kind
            == FsErrorKind::NotADirectory,
{
    match kind {
        PathKind::Missing => Err(
            FsError::new(FsErrorKind::NotFound, "no directory exists under the path".to_owned()),
        ),
        PathKind::Directory => Ok(()),
        _ => Err(
            FsError::new(FsErrorKind::NotADirectory, "the path does not name a directory".to_owned()),
        ),
    }
}

/// The directory prefix a create has to provide: what stands before
/// the last separator, when that prefix is non-empty.  A path without
/// a separator, and a path whose only separator leads it, need no
/// directory created.
pub open spec fn parent_dir_of(s: Seq<char>) -> Option<Seq<char>> {
    let k = last_index_of(s, '/');
    if k <= 0 {
        None
    } else {
        Some(s.subrange(0, k))
    }
}

/// Computes [`parent_dir_of`]: the directory prefix of the path, if
/// any ancestor directories may have to be created for it.
pub fn parent_of(path: &str) -> (r: Option<String>)
    ensures
        match r {
            Some(p) => parent_dir_of(path@) == Some(p@),
            None => parent_dir_of(path@) is None,
        },
{
    match find_last(path, '/') {
        Some(k) => {
            if k > 0 {
                proof {
                    lemma_last_index_of(path@, '/');
                }
                Some(path.substring_char(0, k).to_owned())
            } else {
                None
            }
        },
        None => None,
    }
}

/// The content a create writes: the given content, or empty when none
/// was given.
pub fn effective_content(content: Option<String>) -> (r: String)
    ensures
        match content {
            Some(c) => r@ == c@,
            None => r@ == Seq::<char>::empty(),
        },
{
    match content {
        Some(c) => c,
        None => String::new(),
    }
}

/// The extension of the path's final component: what follows the last
/// dot of that component, unless no dot occurs in it or its only dot
/// leads it.
pub open spec fn path_extension(s: Seq<char>) -> Option<Seq<char>> {
    let name = s.skip(last_index_of(s, '/') + 1);
    let d = last_index_of(name, '.');
    if d <= 0 {
        None
    } else {
        Some(name.skip(d + 1))
    }
}

/// Computes [`path_extension`]: the extension of the path's final
/// component, if it has one.
pub fn extension_of(path: &str) -> (r: Option<String>)
    ensures
        match r {
            Some(e) => path_extension(path@) == Some(e@),
            None => path_extension(path@) is None,
        },
{
    let name: &str = match find_last(path, '/') {
        Some(k) => {
            proof {
                lemma_last_index_of(path@, '/');
            }
            let n = path.unicode_len();
            let sub = path.substring_char(k + 1, n);
            proof {
                assert(sub@ =~= path@.skip(k as int + 1));
            }
            sub
        },
        None => {
            proof {
                assert(path@ =~= path@.skip(0));
            }
            path
        },
    };
    match find_last(name, '.') {
        Some(d) => {
            if d > 0 {
                proof {
                    lemma_last_index_of(name@, '.');
                }
                let m = name.unicode_len();
                let ext = name.substring_char(d + 1, m);
                proof {
                    assert(ext@ =~= name@.skip(d as int + 1));
                }
                Some(ext.to_owned())
            } else {
                None
            }
        },
        None => None,
    }
}

} // verus!
