use nb_rs::folder::{DirEntry, EntryKind, Folder, FolderCreationError};
use nb_rs::note::Note;

fn entry(name: &str, kind: EntryKind) -> DirEntry {
    DirEntry { name: name.to_string(), kind }
}

#[test]
fn folder_create() {
    let dir = "/tmp/nb-rs_test_dir/folder_create";
    let folder = Folder::from_pathbuf(dir, "test_folder").unwrap();
    folder.create(false).unwrap();
    assert_eq!(folder.get_path(), "/tmp/nb-rs_test_dir/folder_create/test_folder");
}

#[test]
fn folder_create_refused_when_present() {
    let folder = Folder::from_pathbuf("/d", "A").unwrap();
    match folder.create(true) {
        Err(FolderCreationError::FolderExists(name)) => assert_eq!(name, "A"),
        other => panic!("unexpected {other:?}"),
    }
    let listing = Folder::new("/d", ".").list(&vec![entry("A", EntryKind::Directory)]);
    let names: Vec<&str> = listing.folders.iter().map(|f| f.name.as_str()).collect();
    assert_eq!(names, vec!["A"]);
}

#[test]
fn dot_names_the_parent() {
    let root = Folder::new("/d", ".");
    assert_eq!(root.name, "");
    assert_eq!(root.get_path(), "/d");
    let sub = Folder::new("/d", "A");
    assert_eq!(sub.get_path(), "/d/A");
}

#[test]
fn create_then_list() {
    let a = Folder::from_pathbuf("/data", "A").unwrap();
    let listing = a.list(&vec![entry("one.md", EntryKind::File)]);
    assert!(listing.folders.is_empty());
    assert_eq!(listing.notes.len(), 1);
    assert_eq!(listing.notes[0].name, "one.md");
    assert_eq!(listing.notes[0].path, "/data/A");
}

#[test]
fn list_hides_dot_entries_and_others() {
    let root = Folder::new("/d", ".");
    let entries = vec![
        entry(".git", EntryKind::Directory),
        entry("work", EntryKind::Directory),
        entry("a.md", EntryKind::File),
        entry(".hidden.md", EntryKind::File),
        entry("link", EntryKind::Other),
        entry("home", EntryKind::Directory),
    ];
    let listing = root.list(&entries);
    let folders: Vec<&str> = listing.folders.iter().map(|f| f.name.as_str()).collect();
    let notes: Vec<&str> = listing.notes.iter().map(|n| n.name.as_str()).collect();
    assert_eq!(folders, vec!["work", "home"]);
    assert_eq!(notes, vec!["a.md"]);
    assert!(listing.folders.iter().all(|f| f.path == "/d"));
}

#[test]
fn list_of_empty_directory() {
    let listing = Folder::new("/d", "x").list(&Vec::new());
    assert!(listing.folders.is_empty() && listing.notes.is_empty());
}

#[test]
fn from_note_is_the_parent_folder() {
    let n = Note { path: "/data/project/sub".to_string(), name: "x.md".to_string() };
    let f = Folder::from_note(&n);
    assert_eq!(f.path, "/data/project");
    assert_eq!(f.name, "sub");
    assert_eq!(f.get_path(), "/data/project/sub");
    let top = Note { path: "/".to_string(), name: "x.md".to_string() };
    let g = Folder::from_note(&top);
    assert_eq!(g.path, "/");
    assert_eq!(g.name, "");
}
