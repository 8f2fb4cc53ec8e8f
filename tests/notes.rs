use nb_rs::note::{Note, NoteCreationError, NoteError, RemoveNoteError, RemoveStep};

fn lines(ls: &[&str]) -> Vec<String> {
    ls.iter().map(|l| l.to_string()).collect()
}

#[test]
fn create_note() {
    let dir = "/tmp/nb-rs_test_dir/create_note";
    let note = Note::new_create(dir, "test.md", false).unwrap();
    assert_eq!(note.get_path(), "/tmp/nb-rs_test_dir/create_note/test.md");
}

#[test]
fn create_note_refused_when_taken() {
    let r = Note::new_create("/tmp/nb", "test.md", true);
    match r {
        Err(NoteCreationError::NoteExists(name)) => assert_eq!(name, "test.md"),
        other => panic!("unexpected {other:?}"),
    }
}

#[test]
fn delete_note() {
    let note = Note::new_create("/tmp/nb-rs_test_dir/delete_note", "test.md", false).unwrap();
    assert_eq!(note.get_path(), "/tmp/nb-rs_test_dir/delete_note/test.md");
    let step = note.remove(true, false).unwrap();
    assert_eq!(step, RemoveStep::Delete);
}

#[test]
fn remove_missing_note_fails() {
    let note = Note { path: "/tmp/nb".to_string(), name: "gone.md".to_string() };
    match note.remove(false, false) {
        Err(RemoveNoteError::NoteDoesNotExist(name)) => assert_eq!(name, "gone.md"),
        other => panic!("unexpected {other:?}"),
    }
}

#[test]
fn remove_asks_when_interactive() {
    let note = Note { path: "/tmp/nb".to_string(), name: "a.md".to_string() };
    assert_eq!(note.remove(true, true).unwrap(), RemoveStep::Confirm);
    assert_eq!(Note::confirm_removal("  y\n"), RemoveStep::Delete);
    assert_eq!(Note::confirm_removal("Y"), RemoveStep::Abort);
    assert_eq!(Note::confirm_removal("yes"), RemoveStep::Abort);
    assert_eq!(Note::confirm_removal(""), RemoveStep::Abort);
}

#[test]
fn new_checks_the_file() {
    let n = Note::new("/d", "x.md", true).unwrap();
    assert_eq!(n.path, "/d");
    assert_eq!(n.name, "x.md");
    match Note::new("/d", "x.md", false) {
        Err(NoteError::NoteDoesNotExist(name)) => assert_eq!(name, "x.md"),
        other => panic!("unexpected {other:?}"),
    }
}

#[test]
fn from_pathbuf_splits_the_token() {
    let n = Note::from_pathbuf("/home/u/.nb-rs/", "sub/dir/x.md", true).unwrap();
    assert_eq!(n.path, "/home/u/.nb-rs/sub/dir");
    assert_eq!(n.name, "x.md");
    let top = Note::from_pathbuf("/d", "x.md", true).unwrap();
    assert_eq!(top.path, "/d");
    assert_eq!(top.name, "x.md");
    match Note::from_pathbuf("/d", "sub/x.md", false) {
        Err(NoteError::NoteDoesNotExist(name)) => assert_eq!(name, "x.md"),
        other => panic!("unexpected {other:?}"),
    }
    match Note::from_pathbuf("", "", true) {
        Err(NoteError::PathBufConversionError) => {}
        other => panic!("unexpected {other:?}"),
    }
}

#[test]
fn get_path_joins_with_one_separator() {
    let a = Note { path: "/d".to_string(), name: "x.md".to_string() };
    assert_eq!(a.get_path(), "/d/x.md");
    let b = Note { path: "/d/".to_string(), name: "x.md".to_string() };
    assert_eq!(b.get_path(), "/d/x.md");
}

#[test]
fn pretty_name_is_first_heading_trimmed() {
    let n = Note { path: "/d/A".to_string(), name: "n.md".to_string() };
    let ls = lines(&["# My Heading", "body"]);
    assert_eq!(n.get_pretty_name(&ls), Some("My Heading".to_string()));
    assert_eq!(n.get_name(&ls), "My Heading");
    let later = lines(&["intro", "#not a heading", "#   Spaced Out \t", "# Second"]);
    assert_eq!(n.get_pretty_name(&later), Some("Spaced Out".to_string()));
}

#[test]
fn pretty_name_absent_without_heading() {
    let n = Note { path: "/d".to_string(), name: "plain.md".to_string() };
    let ls = lines(&["no heading", "## sub heading", "#"]);
    assert_eq!(n.get_pretty_name(&ls), None);
    assert_eq!(n.get_name(&ls), "plain.md");
    assert_eq!(n.get_pretty_name(&Vec::new()), None);
}
