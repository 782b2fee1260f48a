use stylesense::diagnostics::{Diagnostic, DiagnosticSeverity};
use stylesense::session::SessionManager;

fn sample_diagnostic(message: &str) -> Diagnostic {
    Diagnostic {
        start_line: 0,
        start_col: 0,
        end_line: 0,
        end_col: 1,
        severity: DiagnosticSeverity::Warning,
        source_tag: "style-engine".to_string(),
        message: message.to_string(),
    }
}

#[test]
fn test_open_starts_at_revision_zero() {
    let mut sessions = SessionManager::new();
    let uri = "file:///a.c".to_string();
    let opened = sessions.open_document(uri.clone(), "c", "int x;".to_string());
    assert_eq!(opened, Some(0));
    assert_eq!(sessions.revision_of(&uri), Some(0));
}

#[test]
fn test_open_unsupported_language_creates_no_state() {
    let mut sessions = SessionManager::new();
    let uri = "file:///a.rs".to_string();
    let opened = sessions.open_document(uri.clone(), "rust", "fn main() {}".to_string());
    assert_eq!(opened, None);
    assert_eq!(sessions.revision_of(&uri), None);
}

#[test]
fn test_change_increments_revision() {
    let mut sessions = SessionManager::new();
    let uri = "file:///a.c".to_string();
    sessions.open_document(uri.clone(), "c", "int x;".to_string());
    assert_eq!(sessions.change_document(&uri, "int y;".to_string()), Some(1));
    assert_eq!(sessions.change_document(&uri, "int z;".to_string()), Some(2));
    assert_eq!(sessions.revision_of(&uri), Some(2));
}

#[test]
fn test_change_of_unopened_document_does_nothing() {
    let mut sessions = SessionManager::new();
    let uri = "file:///nowhere.c".to_string();
    assert_eq!(sessions.change_document(&uri, "int y;".to_string()), None);
    assert_eq!(sessions.revision_of(&uri), None);
}

#[test]
fn test_reopen_replaces_state() {
    let mut sessions = SessionManager::new();
    let uri = "file:///a.c".to_string();
    sessions.open_document(uri.clone(), "c", "int x;".to_string());
    sessions.change_document(&uri, "int y;".to_string());
    assert_eq!(sessions.revision_of(&uri), Some(1));
    // Opening the same URI again replaces, rather than duplicates, the state.
    assert_eq!(sessions.open_document(uri.clone(), "c", "int z;".to_string()), Some(0));
    assert_eq!(sessions.revision_of(&uri), Some(0));
}

#[test]
fn test_close_drops_state() {
    let mut sessions = SessionManager::new();
    let uri = "file:///a.c".to_string();
    sessions.open_document(uri.clone(), "c", "int x;".to_string());
    assert!(sessions.close_document(&uri));
    assert_eq!(sessions.revision_of(&uri), None);
    assert!(!sessions.close_document(&uri));
}

#[test]
fn test_current_analysis_is_published() {
    let mut sessions = SessionManager::new();
    let uri = "file:///a.c".to_string();
    sessions.open_document(uri.clone(), "c", "a=5".to_string());
    let published = sessions.complete_analysis(&uri, 0, vec![sample_diagnostic("first")]);
    assert!(published);
    let stored = sessions.diagnostics_of(&uri).unwrap();
    assert_eq!(stored.len(), 1);
    assert_eq!(stored[0].message, "first");
}

#[test]
fn test_stale_analysis_is_discarded() {
    let mut sessions = SessionManager::new();
    let uri = "file:///a.c".to_string();
    sessions.open_document(uri.clone(), "c", "a=5".to_string());

    // Two change events arrive before either analysis pass publishes.
    let first_revision = sessions.change_document(&uri, "a =5".to_string()).unwrap();
    let second_revision = sessions.change_document(&uri, "a = 5".to_string()).unwrap();
    assert_eq!(first_revision, 1);
    assert_eq!(second_revision, 2);

    // The pass for the older revision finishes late: it is discarded whole.
    let stale = sessions.complete_analysis(&uri, first_revision, vec![sample_diagnostic("stale")]);
    assert!(!stale);
    assert_eq!(sessions.diagnostics_of(&uri).unwrap().len(), 0);

    // Only the newest pass is published.
    let current =
        sessions.complete_analysis(&uri, second_revision, vec![sample_diagnostic("current")]);
    assert!(current);
    let stored = sessions.diagnostics_of(&uri).unwrap();
    assert_eq!(stored.len(), 1);
    assert_eq!(stored[0].message, "current");
}

#[test]
fn test_diagnostics_of_unopened_document_is_none() {
    let sessions = SessionManager::new();
    assert!(sessions.diagnostics_of(&"file:///a.c".to_string()).is_none());
}

#[test]
fn test_analysis_for_closed_document_is_discarded() {
    let mut sessions = SessionManager::new();
    let uri = "file:///a.c".to_string();
    sessions.open_document(uri.clone(), "c", "a=5".to_string());
    sessions.close_document(&uri);
    assert!(!sessions.complete_analysis(&uri, 0, vec![sample_diagnostic("late")]));
}
