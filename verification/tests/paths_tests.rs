use rust_agent::errors::AgentError;
use rust_agent::paths::{is_path_within_project, safe_resolve_path};

#[test]
fn relative_path_joins_under_project_root() {
    let r = safe_resolve_path("/proj", "notes.txt");
    assert_eq!(r.unwrap(), "/proj/notes.txt");
    let r = safe_resolve_path("/proj/", "sub/notes.txt");
    assert_eq!(r.unwrap(), "/proj/sub/notes.txt");
}

#[test]
fn absolute_path_inside_project_passes_through() {
    let r = safe_resolve_path("/proj", "/proj/a/b.txt");
    assert_eq!(r.unwrap(), "/proj/a/b.txt");
}

#[test]
fn traversal_outside_project_is_rejected() {
    let r = safe_resolve_path("/proj", "../../etc/passwd");
    match r {
        Err(AgentError::RuntimeError(m)) => {
            assert!(m.contains("/proj/../../etc/passwd"));
            assert!(m.contains("operation denied"));
        }
        other => panic!("expected a runtime error, got {:?}", other),
    }
}

#[test]
fn absolute_path_outside_project_is_rejected() {
    assert!(safe_resolve_path("/proj", "/etc/passwd").is_err());
}

#[test]
fn dotted_segments_resolve_lexically() {
    // `.` and doubled separators change nothing
    assert!(is_path_within_project("/proj", "/proj/./a//b"));
    // `..` that stays inside the project is fine
    assert!(safe_resolve_path("/proj", "a/../b.txt").is_ok());
    // `..` that climbs out is not
    assert!(safe_resolve_path("/proj", "a/../../b.txt").is_err());
}

#[test]
fn within_check_compares_components() {
    assert!(is_path_within_project("/proj", "/proj"));
    assert!(is_path_within_project("/proj", "/proj/x"));
    assert!(!is_path_within_project("/proj", "/proj2/x"));
    assert!(!is_path_within_project("/proj", "/etc"));
    assert!(!is_path_within_project("/proj", "relative/x"));
}
