use nb_rs::folder::Folder;
use nb_rs::note::{Note, NoteError};
use nb_rs::resolve::{pick_selected, resolve_candidates, Resolution};
use nb_rs::search::{FolderTree, NoteText};

fn text(name: &str, lines: &[&str]) -> NoteText {
    NoteText { name: name.to_string(), lines: lines.iter().map(|l| l.to_string()).collect() }
}

fn leaf(notes: Vec<NoteText>) -> FolderTree {
    FolderTree { notes, folders: Vec::new() }
}

#[test]
fn get_notes_by_name() {
    let dir = "/tmp/nb-rs_test_dir/get_notes_by_name";
    let root_folder = Folder::from_pathbuf(dir, ".").unwrap();
    let tree = FolderTree {
        notes: vec![text("test.md", &[])],
        folders: vec![("a_folder".to_string(), leaf(vec![text("nested_test.md", &[])]))],
    };
    let results = root_folder.get_notes_by_name(&tree, "test");
    assert_eq!(
        format!("{results:?}"),
        r#"[Note { path: "/tmp/nb-rs_test_dir/get_notes_by_name", name: "test.md" }, Note { path: "/tmp/nb-rs_test_dir/get_notes_by_name/a_folder", name: "nested_test.md" }]"#
    )
}

#[test]
fn name_search_uses_lower_cased_display_name() {
    let root = Folder::new("/d", ".");
    let tree = leaf(vec![
        text("a.md", &["# Shopping LIST", "milk"]),
        text("list.md", &["# Groceries"]),
        text("checklist.md", &[]),
    ]);
    let found = root.get_notes_by_name(&tree, "list");
    let names: Vec<&str> = found.iter().map(|n| n.name.as_str()).collect();
    assert_eq!(names, vec!["a.md", "checklist.md"]);
    assert!(root.get_notes_by_name(&tree, "nothing").is_empty());
}

#[test]
fn name_search_goes_parent_first() {
    let root = Folder::new("/d", ".");
    let tree = FolderTree {
        notes: vec![text("todo.md", &[])],
        folders: vec![
            ("folder1".to_string(), FolderTree {
                notes: vec![text("todo.md", &[])],
                folders: vec![("deep".to_string(), leaf(vec![text("todo.md", &[])]))],
            }),
            ("folder2".to_string(), leaf(vec![text("todo.md", &[]), text("other.md", &[])])),
        ],
    };
    let found = root.get_notes_by_name(&tree, "todo.md");
    let paths: Vec<String> = found.iter().map(|n| n.get_path()).collect();
    assert_eq!(
        paths,
        vec!["/d/todo.md", "/d/folder1/todo.md", "/d/folder1/deep/todo.md", "/d/folder2/todo.md"]
    );
}

#[test]
fn content_search_scenario() {
    let root = Folder::new("/d", ".");
    let tree = leaf(vec![
        text("a.md", &["intro", "need HAYSTACK here", "after"]),
        text("b.md", &["irrelevant"]),
    ]);
    let results = root.search_notes_content(&tree, "haystack");
    assert_eq!(results.len(), 1);
    assert_eq!(results[0].note.name, "a.md");
    assert_eq!(results[0].snippets.len(), 1);
    let s = &results[0].snippets[0];
    assert_eq!(s.number, 2);
    assert_eq!(s.context, Some("intro".to_string()));
    assert_eq!(s.text, "need HAYSTACK here");
    assert_eq!((s.start, s.end), (5, 13));
    let rendered = s.render();
    assert!(rendered.contains('1') && rendered.contains("intro"));
    assert!(rendered.contains('2'));
    assert!(rendered.contains("HAYSTACK"));
}

#[test]
fn content_search_context_is_previous_line() {
    let root = Folder::new("/d", ".");
    let tree = leaf(vec![text("n.md", &["key one", "key two", "plain", "KEY four", "key five"])]);
    let results = root.search_notes_content(&tree, "key");
    let s = &results[0].snippets;
    let numbers: Vec<usize> = s.iter().map(|x| x.number).collect();
    assert_eq!(numbers, vec![1, 2, 4, 5]);
    assert_eq!(s[0].context, None);
    assert_eq!(s[1].context, Some("key one".to_string()));
    assert_eq!(s[2].context, Some("plain".to_string()));
    assert_eq!(s[3].context, Some("KEY four".to_string()));
}

#[test]
fn content_search_walks_sub_folders() {
    let root = Folder::new("/d", ".");
    let tree = FolderTree {
        notes: vec![text("top.md", &["nothing"])],
        folders: vec![("sub".to_string(), leaf(vec![text("x.md", &["a", "b", "find me"])]))],
    };
    let results = root.search_notes_content(&tree, "find");
    assert_eq!(results.len(), 1);
    assert_eq!(results[0].note.get_path(), "/d/sub/x.md");
    assert_eq!(results[0].snippets[0].context, Some("b".to_string()));
}

#[test]
fn resolver_offers_all_matches_in_order() {
    let root = Folder::new("/d", ".");
    let tree = FolderTree {
        notes: Vec::new(),
        folders: vec![
            ("folder1".to_string(), leaf(vec![text("todo.md", &[])])),
            ("folder2".to_string(), leaf(vec![text("todo.md", &[])])),
        ],
    };
    let found = root.get_notes_by_name(&tree, "todo.md");
    let cands: Vec<(Note, String)> =
        found.into_iter().map(|n| (n.clone(), n.name.clone())).collect();
    match resolve_candidates("todo.md", &cands).unwrap() {
        Resolution::Choose(labels) => assert_eq!(labels, vec!["todo.md", "todo.md"]),
        other => panic!("unexpected {other:?}"),
    }
    let picked = pick_selected("todo.md", &cands).unwrap();
    assert_eq!(picked.path, "/d/folder2");
    match pick_selected("missing", &cands) {
        Err(NoteError::NoteDoesNotExist(label)) => assert_eq!(label, "missing"),
        other => panic!("unexpected {other:?}"),
    }
}

#[test]
fn resolver_single_and_none() {
    let one = vec![(Note { path: "/d".to_string(), name: "a.md".to_string() }, "A".to_string())];
    match resolve_candidates("a", &one).unwrap() {
        Resolution::Found(n) => assert_eq!(n.name, "a.md"),
        other => panic!("unexpected {other:?}"),
    }
    match resolve_candidates("zzz.md", &Vec::new()) {
        Err(NoteError::NoteDoesNotExist(name)) => assert_eq!(name, "zzz.md"),
        other => panic!("unexpected {other:?}"),
    }
}
