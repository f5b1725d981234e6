//! The error taxonomy of the layer.
//!
//! Every operation reports its first failure as an [`FsError`]: a kind a
//! caller can branch on, plus a human-readable message.  Host failures
//! reach the layer as an [`HostError`], a plain transcription of what the
//! host call reported, and are classified here.

use vstd::prelude::*;
use vstd::string::StringExecFns;

verus! {

/// The kind of a reported failure.
#[derive(Clone, Copy, Debug, PartialEq, Eq, Structural)]
pub enum FsErrorKind {
    /// The named path does not exist.
    NotFound,
    /// The host refused access to the path.
    PermissionDenied,
    /// A file was expected, but the path is a directory.
    IsADirectory,
    /// A directory was expected, but the path is not one.
    NotADirectory,
    /// Any other host-level failure (device, encoding, disk full, ...).
    IoFailure,
}

/// A structured failure: a kind to branch on and a message to display.
#[derive(Clone, Debug)]
pub struct FsError {
    pub kind: FsErrorKind,
    pub message: String,
}

/// The coarse class of a failed host call, as plain values.  The caller
/// that performs the host call translates the host's error class
/// variant-for-variant into this enum; anything outside the taxonomy
/// becomes [`HostErrorClass::Other`].
#[derive(Clone, Copy, Debug, PartialEq, Eq, Structural)]
pub enum HostErrorClass {
    NotFound,
    PermissionDenied,
    IsADirectory,
    NotADirectory,
    Other,
}

/// What one failed host call reported: its class and its own message.
#[derive(Clone, Debug)]
pub struct HostError {
    pub class: HostErrorClass,
    pub message: String,
}

/// The failure kind under which each host error class is reported.
pub open spec fn kind_of_class(c: HostErrorClass) -> FsErrorKind {
    match c {
        HostErrorClass::NotFound => FsErrorKind::NotFound,
        HostErrorClass::PermissionDenied => FsErrorKind::PermissionDenied,
        HostErrorClass::IsADirectory => FsErrorKind::IsADirectory,
        HostErrorClass::NotADirectory => FsErrorKind::NotADirectory,
        HostErrorClass::Other => FsErrorKind::IoFailure,
    }
}

impl FsError {
    /// Builds a failure of the given kind carrying the given message.
    pub fn new(kind: FsErrorKind, message: String) -> (e: FsError)
        ensures
            e.kind == kind,
            e.message@ == message@,
    {
        FsError { kind, message }
    }

    /// Classifies a failed host call: the kind follows the host's error
    /// class, the host's message is kept.
    pub fn from_host(h: HostError) -> (e: FsError)
        ensures
            e.kind == kind_of_class(h.class),
            e.message@ == h.message@,
    {
        let kind = match h.class {
            HostErrorClass::NotFound => FsErrorKind::NotFound,
            HostErrorClass::PermissionDenied => FsErrorKind::PermissionDenied,
            HostErrorClass::IsADirectory => FsErrorKind::IsADirectory,
            HostErrorClass::NotADirectory => FsErrorKind::NotADirectory,
            HostErrorClass::Other => FsErrorKind::IoFailure,
        };
        FsError { kind, message: h.message }
    }

    /// Renders the failure as one display line: the kind's label, a
    /// separator, and the message.
    pub fn describe(&self) -> (r: String)
        ensures
            r@ == self.kind.label_spec() + ": "@ + self.message@,
    {
        let mut s = self.kind.label().to_owned();
        s.append(": ");
        s.append(self.message.as_str());
        s
    }
}

impl FsErrorKind {
    /// The text under which each failure kind is displayed.
    pub open spec fn label_spec(self) -> Seq<char> {
        match self {
            FsErrorKind::NotFound => "not found"@,
            FsErrorKind::PermissionDenied => "permission denied"@,
            FsErrorKind::IsADirectory => "is a directory"@,
            FsErrorKind::NotADirectory => "not a directory"@,
            FsErrorKind::IoFailure => "i/o failure"@,
        }
    }

    /// Returns the display label of this failure kind.
    pub fn label(&self) -> (r: &'static str)
        ensures
            r@ == self.label_spec(),
    {
        match self {
            FsErrorKind::NotFound => "not found",
            FsErrorKind::PermissionDenied => "permission denied",
            FsErrorKind::IsADirectory => "is a directory",
            FsErrorKind::NotADirectory => "not a directory",
            FsErrorKind::IoFailure => "i/o failure",
        }
    }
}

} // verus!
