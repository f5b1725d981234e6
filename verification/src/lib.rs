//! Local filesystem access layer for a note/markdown editor.
//!
//! The crate holds the decision logic of the layer: error
//! classification, the pre-checks of each single-file operation,
//! path-text computations (parent directory, extension), the
//! assembly and ordering of directory listings, and the scan of
//! process launch arguments for a document to open.  The host
//! calls that actually touch the filesystem stay outside; they
//! hand these functions plain observations (does the path exist,
//! is it a directory, what did the host report) and perform the
//! actions these functions decide on.

pub mod error;
pub mod launch;
pub mod listing;
pub mod paths;
pub mod text;
