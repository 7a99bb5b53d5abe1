use filebrowser::cursor::Cursor;
use filebrowser::directory::{ScanError, ScannedEntry};
use filebrowser::session::{Effect, Intent, Modal, NavError, Session};

fn file(name: &str) -> ScannedEntry {
    ScannedEntry { name: name.to_string(), path: format!("/d/{name}"), is_dir: false, size: None }
}

fn subdir(name: &str) -> ScannedEntry {
    ScannedEntry { name: name.to_string(), path: format!("/d/{name}"), is_dir: true, size: None }
}

/// A session showing /d with entries ["z/", "a.rs", "b.txt"].
fn session() -> Session {
    let mut s = Session::new(false);
    let raw = vec![file("b.txt"), file("a.rs"), subdir("z")];
    s.apply_navigation("d".to_string(), "/d".to_string(), Some(raw)).unwrap();
    s
}

#[test]
fn navigation_selects_the_first_entry() {
    let s = session();
    assert_eq!(s.cursor.selected, Some(0));
    assert_eq!(s.dir.entries(), vec!["z/", "a.rs", "b.txt"]);
}

#[test]
fn cursor_wraps_after_full_round() {
    let mut s = session();
    for _ in 0..3 {
        s.handle_intent(Intent::MoveDown);
    }
    assert_eq!(s.cursor.selected, Some(0));
    s.handle_intent(Intent::MoveUp);
    assert_eq!(s.cursor.selected, Some(2));
    s.handle_intent(Intent::MoveDown);
    assert_eq!(s.cursor.selected, Some(0));
}

#[test]
fn empty_directory_cursor_stays_clear() {
    let mut s = Session::new(false);
    s.apply_navigation("e".to_string(), "/e".to_string(), Some(vec![])).unwrap();
    assert_eq!(s.cursor.selected, None);
    s.handle_intent(Intent::MoveDown);
    assert_eq!(s.cursor.selected, None);
    s.handle_intent(Intent::MoveUp);
    assert_eq!(s.cursor.selected, None);
}

#[test]
fn bare_cursor_moves_wrap_circularly() {
    let mut c = Cursor::new();
    c.next(3);
    c.next(3);
    assert_eq!(c.selected, Some(2));
    c.next(3);
    assert_eq!(c.selected, Some(0));
    c.previous(3);
    assert_eq!(c.selected, Some(2));
    c.clamp(2);
    assert_eq!(c.selected, Some(1));
    c.clamp(0);
    assert_eq!(c.selected, None);
}

#[test]
fn enter_targets_the_selected_subdirectory() {
    let mut s = session();
    match s.enter_directory() {
        Ok(Effect::Navigate { name, path }) => {
            assert_eq!(name, "z");
            assert_eq!(path, "/d/z");
        },
        other => panic!("expected navigation, got {other:?}"),
    }
    match s.handle_intent(Intent::Enter) {
        Effect::Navigate { name, path } => {
            assert_eq!(name, "z");
            assert_eq!(path, "/d/z");
        },
        other => panic!("expected navigation, got {other:?}"),
    }
}

#[test]
fn enter_on_a_file_does_nothing() {
    let mut s = session();
    s.handle_intent(Intent::MoveDown);
    assert!(matches!(s.enter_directory(), Err(NavError::NotADirectory)));
    let eff = s.handle_intent(Intent::Enter);
    assert!(matches!(eff, Effect::Done));
    assert_eq!(s.dir.path, "/d");
}

#[test]
fn parent_of_nested_path_is_computed() {
    let mut s = Session::new(false);
    s.apply_navigation("b".to_string(), "/a/b".to_string(), Some(vec![])).unwrap();
    match s.handle_intent(Intent::Parent) {
        Effect::Navigate { name, path } => {
            assert_eq!(name, "a");
            assert_eq!(path, "/a");
        },
        other => panic!("expected navigation, got {other:?}"),
    }
}

#[test]
fn parent_of_root_is_refused() {
    let mut s = Session::new(false);
    s.apply_navigation("".to_string(), "/".to_string(), Some(vec![])).unwrap();
    assert!(matches!(s.go_to_parent(), Err(NavError::AtRoot)));
    let eff = s.handle_intent(Intent::Parent);
    assert!(matches!(eff, Effect::Done));
}

#[test]
fn open_and_yank_report_the_selected_path() {
    let mut s = session();
    match s.handle_intent(Intent::Open) {
        Effect::OpenPath { path } => assert_eq!(path, "/d/z/"),
        other => panic!("expected an open request, got {other:?}"),
    }
    s.handle_intent(Intent::MoveDown);
    match s.handle_intent(Intent::Yank) {
        Effect::YankPath { path } => assert_eq!(path, "/d/a.rs"),
        other => panic!("expected a yank request, got {other:?}"),
    }
}

#[test]
fn delete_asks_for_confirmation_first() {
    let mut s = session();
    let eff = s.handle_intent(Intent::Delete);
    assert!(matches!(eff, Effect::Done));
    match &s.modal {
        Modal::ConfirmDelete { target_name } => assert_eq!(target_name, "z/"),
        other => panic!("expected the delete confirmation, got {other:?}"),
    }
    match s.handle_intent(Intent::Confirm) {
        Effect::DeletePath { path } => assert_eq!(path, "/d/z"),
        other => panic!("expected a delete request, got {other:?}"),
    }
    assert!(matches!(s.modal, Modal::Browsing));
}

#[test]
fn cancel_discards_the_confirmation() {
    let mut s = session();
    s.handle_intent(Intent::Delete);
    let eff = s.handle_intent(Intent::Cancel);
    assert!(matches!(eff, Effect::Done));
    assert!(matches!(s.modal, Modal::Browsing));
}

#[test]
fn modal_exclusivity_suppresses_navigation() {
    let mut s = session();
    s.handle_intent(Intent::MoveDown);
    s.handle_intent(Intent::Rename);
    assert!(matches!(s.modal, Modal::Rename { .. }));
    let cursor_before = s.cursor.selected;
    let listing_before = s.dir.entries();
    for intent in [
        Intent::MoveDown,
        Intent::MoveUp,
        Intent::Enter,
        Intent::Parent,
        Intent::Delete,
        Intent::Paste,
        Intent::Quit,
    ] {
        let eff = s.handle_intent(intent);
        assert!(matches!(eff, Effect::Done));
    }
    assert_eq!(s.cursor.selected, cursor_before);
    assert_eq!(s.dir.entries(), listing_before);
    assert!(!s.exit);
    assert!(matches!(s.modal, Modal::Rename { .. }));
}

#[test]
fn rename_prefills_and_commits_the_buffer() {
    let mut s = session();
    s.handle_intent(Intent::MoveDown);
    s.handle_intent(Intent::Rename);
    match &s.modal {
        Modal::Rename { original_name, input_buffer } => {
            assert_eq!(original_name, "a.rs");
            assert_eq!(input_buffer, "a.rs");
        },
        other => panic!("expected the rename dialog, got {other:?}"),
    }
    s.handle_intent(Intent::Backspace);
    s.handle_intent(Intent::Backspace);
    s.handle_intent(Intent::TextInput('p'));
    s.handle_intent(Intent::TextInput('y'));
    match s.handle_intent(Intent::Confirm) {
        Effect::RenamePath { from, to } => {
            assert_eq!(from, "/d/a.rs");
            assert_eq!(to, "/d/a.py");
        },
        other => panic!("expected a rename request, got {other:?}"),
    }
}

#[test]
fn rename_with_blank_name_is_dropped() {
    let mut s = session();
    s.handle_intent(Intent::Rename);
    // the buffer starts as "z"; clear it and leave only whitespace
    s.handle_intent(Intent::Backspace);
    s.handle_intent(Intent::TextInput(' '));
    let eff = s.handle_intent(Intent::Confirm);
    assert!(matches!(eff, Effect::Done));
    assert!(matches!(s.modal, Modal::Browsing));
}

#[test]
fn new_file_commits_the_trimmed_name() {
    let mut s = session();
    s.handle_intent(Intent::NewFile);
    for c in " note.md ".chars() {
        s.handle_intent(Intent::TextInput(c));
    }
    match s.handle_intent(Intent::Confirm) {
        Effect::CreatePath { path } => assert_eq!(path, "/d/note.md"),
        other => panic!("expected a create request, got {other:?}"),
    }
}

#[test]
fn new_file_with_empty_name_is_dropped() {
    let mut s = session();
    s.handle_intent(Intent::NewFile);
    let eff = s.handle_intent(Intent::Confirm);
    assert!(matches!(eff, Effect::Done));
}

#[test]
fn copy_then_paste_keeps_the_source() {
    let mut s = session();
    s.handle_intent(Intent::MoveDown);
    s.handle_intent(Intent::CopyMark);
    match &s.clipboard {
        Some(c) => {
            assert!(!c.cut);
            assert_eq!(c.path, "/d/a.rs");
        },
        None => panic!("expected a pending copy"),
    }
    match s.handle_intent(Intent::Paste) {
        Effect::PastePath { from, to, remove_source } => {
            assert_eq!(from, "/d/a.rs");
            assert_eq!(to, "/d/a.rs");
            assert!(!remove_source);
        },
        other => panic!("expected a paste request, got {other:?}"),
    }
    assert!(s.clipboard.is_none());
}

#[test]
fn cut_paste_moves_between_directories() {
    // mark F as cut in /d, then paste into /e
    let mut s = session();
    s.handle_intent(Intent::MoveDown);
    s.handle_intent(Intent::CutMark);
    s.apply_navigation("e".to_string(), "/e".to_string(), Some(vec![])).unwrap();
    let (from, to, remove_source) = match s.handle_intent(Intent::Paste) {
        Effect::PastePath { from, to, remove_source } => (from, to, remove_source),
        other => panic!("expected a paste request, got {other:?}"),
    };
    assert_eq!(from, "/d/a.rs");
    assert_eq!(to, "/e/a.rs");
    assert!(remove_source);
    // the host performs the move and rescans: a.rs is now under /e ...
    s.apply_rescan(Some(vec![ScannedEntry {
        name: "a.rs".to_string(),
        path: "/e/a.rs".to_string(),
        is_dir: false,
        size: None,
    }]))
        .unwrap();
    assert_eq!(s.dir.entries(), vec!["a.rs"]);
    // ... and gone from /d
    s.apply_navigation("d".to_string(), "/d".to_string(), Some(vec![file("b.txt"), subdir("z")]))
        .unwrap();
    assert!(!s.dir.entries().iter().any(|e| e == "a.rs"));
}

#[test]
fn paste_without_a_mark_is_a_no_op() {
    let mut s = session();
    let eff = s.handle_intent(Intent::Paste);
    assert!(matches!(eff, Effect::Done));
}

#[test]
fn a_new_mark_replaces_the_old_one() {
    let mut s = session();
    s.handle_intent(Intent::CopyMark);
    s.handle_intent(Intent::MoveDown);
    s.handle_intent(Intent::CutMark);
    let c = s.clipboard.as_ref().expect("expected a pending cut");
    assert!(c.cut);
    assert_eq!(c.path, "/d/a.rs");
}

#[test]
fn rescan_clamps_the_selection() {
    let mut s = session();
    s.handle_intent(Intent::MoveDown);
    s.handle_intent(Intent::MoveDown);
    assert_eq!(s.cursor.selected, Some(2));
    s.apply_rescan(Some(vec![file("only")])).unwrap();
    assert_eq!(s.cursor.selected, Some(0));
    s.apply_rescan(Some(vec![])).unwrap();
    assert_eq!(s.cursor.selected, None);
}

#[test]
fn failed_rescan_changes_nothing() {
    let mut s = session();
    let before = s.dir.entries();
    assert_eq!(s.apply_rescan(None), Err(ScanError::Unreadable));
    assert_eq!(s.dir.entries(), before);
    assert_eq!(s.cursor.selected, Some(0));
}

#[test]
fn failed_navigation_keeps_the_directory() {
    let mut s = session();
    let r = s.apply_navigation("x".to_string(), "/d/x".to_string(), None);
    assert_eq!(r, Err(NavError::ScanFailed));
    assert_eq!(s.dir.path, "/d");
}

#[test]
fn preview_follows_the_highlighted_subdirectory() {
    let mut s = session();
    let target = s.preview_target().expect("the cursor sits on z/");
    assert_eq!(target.name, "z");
    assert_eq!(target.path, "/d/z");
    s.apply_preview(target.name, target.path, Some(vec![file("inner.txt")]));
    let p = s.preview.as_ref().expect("preview should be filled");
    assert_eq!(p.entries(), vec!["inner.txt"]);
    s.handle_intent(Intent::MoveDown);
    assert!(s.preview_target().is_none());
    s.clear_preview();
    assert!(s.preview.is_none());
}

#[test]
fn quit_raises_the_exit_flag() {
    let mut s = session();
    assert!(!s.exit);
    let eff = s.handle_intent(Intent::Quit);
    assert!(matches!(eff, Effect::Done));
    assert!(s.exit);
}
