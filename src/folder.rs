//! Folders: a parent directory and a name, their creation and their listing.

use vstd::prelude::*;
use crate::note::Note;
use crate::path::{
    components, is_absolute, join, join_spec, render_prefix, render_spec, split_components,
    starts_with_separator, string_views,
};

verus! {

#[derive(Debug)]
pub enum FolderError {
    PathBufConversionError,
}

#[derive(Debug)]
pub enum FolderCreationError {
    FolderExists(String),
    Create(String),
}

#[derive(Debug)]
pub enum RemoveFolderError {
    Io(String),
}

#[derive(Debug)]
pub enum ListFolderError {
    Io(String),
    NoteError(crate::note::NoteError),
    Folder(FolderError),
}

/// A folder: the directory `name` in `path`. An empty name stands for `path`
/// itself.
#[derive(Clone, Debug)]
pub struct Folder {
    pub path: String,
    pub name: String,
}

/// What a directory entry is.
#[derive(Clone, Copy, Debug, PartialEq, Eq, Structural)]
pub enum EntryKind {
    Directory,
    File,
    Other,
}

/// One entry of a directory as read from disk.
#[derive(Clone, Debug)]
pub struct DirEntry {
    pub name: String,
    pub kind: EntryKind,
}

/// The folders and notes found directly in a folder.
#[derive(Debug)]
pub struct FolderSearchResult {
    pub folders: Vec<Folder>,
    pub notes: Vec<Note>,
}

/// The name `.` stands for the parent itself.
pub open spec fn folder_name_spec(name: Seq<char>) -> Seq<char> {
    if name == seq!['.'] {
        Seq::empty()
    } else {
        name
    }
}

/// A name that starts with `.`, hidden from listings.
pub open spec fn is_hidden(name: Seq<char>) -> bool {
    name.len() > 0 && name[0] == '.'
}

/// The names of the visible entries of kind `kind`, in order.
pub open spec fn visible_names(entries: Seq<DirEntry>, kind: EntryKind) -> Seq<Seq<char>>
    decreases entries.len(),
{
    if entries.len() == 0 {
        Seq::empty()
    } else {
        let prev = visible_names(entries.drop_last(), kind);
        let e = entries.last();
        if e.kind == kind && !is_hidden(e.name@) {
            prev.push(e.name@)
        } else {
            prev
        }
    }
}

pub open spec fn folder_names(fs: Seq<Folder>) -> Seq<Seq<char>> {
    fs.map_values(|f: Folder| f.name@)
}

pub open spec fn note_names(ns: Seq<Note>) -> Seq<Seq<char>> {
    ns.map_values(|n: Note| n.name@)
}

/// The folder that holds the file at `full`: its parent directory and its
/// own name, or the root of `full` with an empty name when `full` has a
/// single component.
pub open spec fn holder_spec(full: Seq<char>) -> (Seq<char>, Seq<char>) {
    let cs = components(full);
    if cs.len() < 2 {
        (render_spec(is_absolute(full), Seq::empty()), Seq::empty())
    } else {
        (
            render_spec(is_absolute(full), cs.subrange(0, cs.len() - 2)),
            folder_name_spec(cs[cs.len() - 2]),
        )
    }
}

fn is_dot(name: &str) -> (r: bool)
    ensures
        r == (name@ == seq!['.']),
{
    let r = name.unicode_len() == 1 && name.get_char(0) == '.';
    assert(r ==> name@ =~= seq!['.']);
    r
}

fn is_hidden_name(name: &str) -> (r: bool)
    ensures
        r == is_hidden(name@),
{
    name.unicode_len() > 0 && name.get_char(0) == '.'
}

impl Folder {
    /// The path of the folder's directory.
    pub open spec fn path_spec(&self) -> Seq<char> {
        join_spec(self.path@, self.name@)
    }

    pub fn new(path: &str, name: &str) -> (r: Folder)
        ensures
            r.path@ == path@,
            r.name@ == folder_name_spec(name@),
    {
        let name = if is_dot(name) {
            String::new()
        } else {
            String::from_str(name)
        };
        Folder { path: String::from_str(path), name }
    }

    /// The folder `name` in `path`.
    pub fn from_pathbuf(path: &str, name: &str) -> (r: Result<Folder, FolderError>)
        ensures
            r matches Ok(f) && f.path@ == path@ && f.name@ == folder_name_spec(name@),
    {
        Ok(Folder::new(path, name))
    }

    /// The path of the folder's directory.
    pub fn get_path(&self) -> (r: String)
        ensures
            r@ == self.path_spec(),
    {
        join(self.path.as_str(), self.name.as_str())
    }

    /// The folder that holds `note`.
    pub fn from_note(note: &Note) -> (r: Folder)
        ensures
            (r.path@, r.name@) == holder_spec(note.path_spec()),
    {
        let full = note.get_path();
        let cs = split_components(full.as_str());
        let absolute = starts_with_separator(full.as_str());
        if cs.len() < 2 {
            let root = render_prefix(absolute, &cs, 0);
            proof {
                assert(string_views(cs@).subrange(0, 0) =~= Seq::<Seq<char>>::empty());
            }
            return Folder { path: root, name: String::new() };
        }
        let parent = render_prefix(absolute, &cs, cs.len() - 2);
        Folder::new(parent.as_str(), cs[cs.len() - 2].as_str())
    }

    /// Whether the folder may be created: not when its path is already taken,
    /// which `exists` tells.
    pub fn create(&self, exists: bool) -> (r: Result<(), FolderCreationError>)
        ensures
            !exists ==> r is Ok,
            exists ==> (r matches Err(FolderCreationError::FolderExists(m)) && m@ == self.name@),
    {
        if exists {
            return Err(FolderCreationError::FolderExists(self.name.clone()));
        }
        Ok(())
    }

    /// Sorts the entries read from the folder's directory into sub-folders
    /// and notes, in the order read, leaving out those whose names start with
    /// `.` and those that are neither directories nor regular files.
    pub fn list(&self, entries: &Vec<DirEntry>) -> (r: FolderSearchResult)
        ensures
            folder_names(r.folders@) == visible_names(entries@, EntryKind::Directory),
            note_names(r.notes@) == visible_names(entries@, EntryKind::File),
            forall|i: int|
                0 <= i < r.folders@.len() ==> (#[trigger] r.folders@[i]).path@ == self.path_spec(),
            forall|i: int|
                0 <= i < r.notes@.len() ==> (#[trigger] r.notes@[i]).path@ == self.path_spec(),
            forall|i: int| 0 <= i < r.folders@.len() ==> !is_hidden((#[trigger] r.folders@[i]).name@),
            forall|i: int| 0 <= i < r.notes@.len() ==> !is_hidden((#[trigger] r.notes@[i]).name@),
    {
        let here = self.get_path();
        let mut folders: Vec<Folder> = Vec::new();
        let mut notes: Vec<Note> = Vec::new();
        let mut i: usize = 0;
        while i < entries.len()
            invariant
                here@ == self.path_spec(),
                i <= entries@.len(),
                folder_names(folders@) == visible_names(
                    entries@.subrange(0, i as int),
                    EntryKind::Directory,
                ),
                note_names(notes@) == visible_names(entries@.subrange(0, i as int), EntryKind::File),
                forall|k: int| 0 <= k < folders@.len() ==> (#[trigger] folders@[k]).path@ == here@,
                forall|k: int| 0 <= k < notes@.len() ==> (#[trigger] notes@[k]).path@ == here@,
                forall|k: int| 0 <= k < folders@.len() ==> !is_hidden((#[trigger] folders@[k]).name@),
                forall|k: int| 0 <= k < notes@.len() ==> !is_hidden((#[trigger] notes@[k]).name@),
            decreases entries@.len() - i,
        {
            let e = &entries[i];
            let ghost prefix = entries@.subrange(0, i + 1);
            assert(prefix.drop_last() == entries@.subrange(0, i as int));
            assert(prefix.last() == *e);
            let ghost fs = folders@;
            let ghost ns = notes@;
            if !is_hidden_name(e.name.as_str()) {
                match e.kind {
                    EntryKind::Directory => {
                        folders.push(Folder { path: here.clone(), name: e.name.clone() });
                        assert(folder_names(folders@) =~= folder_names(fs).push(e.name@));
                    },
                    EntryKind::File => {
                        notes.push(Note { path: here.clone(), name: e.name.clone() });
                        assert(note_names(notes@) =~= note_names(ns).push(e.name@));
                    },
                    EntryKind::Other => {},
                }
            }
            i = i + 1;
        }
        assert(entries@.subrange(0, entries@.len() as int) == entries@);
        FolderSearchResult { folders, notes }
    }
}

/// A copy of a folder handle.
pub fn copy_folder(f: &Folder) -> (r: Folder)
    ensures
        r.path@ == f.path@,
        r.name@ == f.name@,
{
    Folder { path: f.path.clone(), name: f.name.clone() }
}

/// How many times `x` stands in `s`.
pub open spec fn occurrences(s: Seq<Seq<char>>, x: Seq<char>) -> nat
    decreases s.len(),
{
    if s.len() == 0 {
        0
    } else {
        occurrences(s.drop_last(), x) + if s.last() == x {
            1nat
        } else {
            0nat
        }
    }
}

/// How many entries of kind `kind` are named `x`.
pub open spec fn entries_named(entries: Seq<DirEntry>, kind: EntryKind, x: Seq<char>) -> nat
    decreases entries.len(),
{
    if entries.len() == 0 {
        0
    } else {
        entries_named(entries.drop_last(), kind, x) + if entries.last().kind == kind
            && entries.last().name@ == x {
            1nat
        } else {
            0nat
        }
    }
}

/// A listing shows a visible name as often as the directory holds an entry
/// of that kind with that name.
pub proof fn lemma_listing_counts(entries: Seq<DirEntry>, kind: EntryKind, x: Seq<char>)
    requires
        !is_hidden(x),
    ensures
        occurrences(visible_names(entries, kind), x) == entries_named(entries, kind, x),
    decreases entries.len(),
{
    if entries.len() > 0 {
        lemma_listing_counts(entries.drop_last(), kind, x);
        let prev = visible_names(entries.drop_last(), kind);
        let e = entries.last();
        if e.kind == kind && !is_hidden(e.name@) {
            assert(prev.push(e.name@).drop_last() == prev);
        }
    }
}

/// Creating a folder whose directory already exists is refused, and the
/// listing of its parent, whose directory holds that sub-directory once,
/// still shows it exactly once.
pub proof fn lemma_existing_folder_listed_once(folder: Folder, entries: Seq<DirEntry>)
    requires
        !is_hidden(folder.name@),
        entries_named(entries, EntryKind::Directory, folder.name@) == 1,
    ensures
        occurrences(visible_names(entries, EntryKind::Directory), folder.name@) == 1,
{
    lemma_listing_counts(entries, EntryKind::Directory, folder.name@);
}

} // verus!
