use notefs::error::{FsError, FsErrorKind, HostError, HostErrorClass};

fn host(class: HostErrorClass, message: &str) -> HostError {
    HostError { class, message: message.to_string() }
}

#[test]
fn classification_follows_the_host_class() {
    let cases = [
        (HostErrorClass::NotFound, FsErrorKind::NotFound),
        (HostErrorClass::PermissionDenied, FsErrorKind::PermissionDenied),
        (HostErrorClass::IsADirectory, FsErrorKind::IsADirectory),
        (HostErrorClass::NotADirectory, FsErrorKind::NotADirectory),
        (HostErrorClass::Other, FsErrorKind::IoFailure),
    ];
    for (class, kind) in cases {
        let e = FsError::from_host(host(class, "boom"));
        assert_eq!(e.kind, kind);
        assert_eq!(e.message, "boom");
    }
}

#[test]
fn unclassified_host_failures_become_io_failures() {
    let e = FsError::from_host(host(HostErrorClass::Other, "device not ready"));
    assert_eq!(e.kind, FsErrorKind::IoFailure);
    assert_eq!(e.message, "device not ready");
}

#[test]
fn describe_joins_label_and_message() {
    let e = FsError::new(FsErrorKind::NotFound, "no such entry".to_string());
    assert_eq!(e.describe(), "not found: no such entry");
    let e = FsError::new(FsErrorKind::IoFailure, "disk full".to_string());
    assert_eq!(e.describe(), "i/o failure: disk full");
}

#[test]
fn labels_name_each_kind() {
    assert_eq!(FsErrorKind::NotFound.label(), "not found");
    assert_eq!(FsErrorKind::PermissionDenied.label(), "permission denied");
    assert_eq!(FsErrorKind::IsADirectory.label(), "is a directory");
    assert_eq!(FsErrorKind::NotADirectory.label(), "not a directory");
    assert_eq!(FsErrorKind::IoFailure.label(), "i/o failure");
}
