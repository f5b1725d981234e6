use notefs::launch::{is_allowed_extension, is_launch_candidate, resolve_launch_candidate, ArgProbe};

fn probe(arg: &str, present: bool, is_regular_file: bool) -> ArgProbe {
    ArgProbe { arg: arg.to_string(), present, is_regular_file }
}

#[test]
fn the_first_matching_document_wins() {
    let args = vec![
        probe("exe", true, true),
        probe("/tmp/notes.pdf", true, true),
        probe("/tmp/readme.md", true, true),
    ];
    assert_eq!(resolve_launch_candidate(&args), Some("/tmp/readme.md".to_string()));
}

#[test]
fn a_missing_document_is_no_candidate() {
    let args = vec![probe("exe", true, true), probe("/tmp/missing.md", false, false)];
    assert_eq!(resolve_launch_candidate(&args), None);
}

#[test]
fn only_one_candidate_is_produced() {
    let args = vec![
        probe("exe", true, true),
        probe("first.md", true, true),
        probe("second.md", true, true),
    ];
    assert_eq!(resolve_launch_candidate(&args), Some("first.md".to_string()));
}

#[test]
fn the_executable_token_is_never_a_candidate() {
    let args = vec![probe("editor.md", true, true)];
    assert_eq!(resolve_launch_candidate(&args), None);
    let args = vec![probe("editor.md", true, true), probe("x.pdf", true, true)];
    assert_eq!(resolve_launch_candidate(&args), None);
}

#[test]
fn candidates_must_be_existing_regular_files() {
    assert!(is_launch_candidate("a.md", true, true));
    assert!(!is_launch_candidate("a.md", false, false));
    assert!(!is_launch_candidate("a.md", true, false));
}

#[test]
fn the_allow_list_is_case_sensitive_and_exact() {
    assert!(is_allowed_extension("md"));
    assert!(is_allowed_extension("markdown"));
    assert!(is_allowed_extension("txt"));
    assert!(!is_allowed_extension("MD"));
    assert!(!is_allowed_extension("pdf"));
    assert!(!is_allowed_extension(""));
    assert!(!is_launch_candidate("README.MD", true, true));
    assert!(is_launch_candidate("guide.markdown", true, true));
    assert!(!is_launch_candidate("README", true, true));
}
