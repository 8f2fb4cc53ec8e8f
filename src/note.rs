//! Notes: a directory and a file name, and what their lines say.

use vstd::prelude::*;
use crate::path::{
    components, is_absolute, join, join_spec, render_prefix, render_spec, split_components,
    string_views,
};
use crate::text::{trim, trim_spec};

verus! {

#[derive(Debug)]
pub enum NoteError {
    PathBufConversionError,
    NoteDoesNotExist(String),
    ReadError(String),
}

#[derive(Debug)]
pub enum NoteCreationError {
    NoteExists(String),
    Create(String),
    Note(NoteError),
}

#[derive(Debug)]
pub enum OpenNoteError {
    FailedToRun(String),
    Io(String),
    GitFailure(crate::sync::SyncError),
}

#[derive(Debug)]
pub enum RemoveNoteError {
    Io(String),
    NoteDoesNotExist(String),
    Sync(crate::sync::SyncError),
}

/// What to do next while removing a note.
#[derive(Clone, Copy, Debug, PartialEq, Eq, Structural)]
pub enum RemoveStep {
    /// Ask the user to confirm, and decide on the answer.
    Confirm,
    /// Delete the file, then record the deletion with git.
    Delete,
    /// Leave the note alone; this is no failure.
    Abort,
}

/// A note: the file `name` in the directory `path`.
#[derive(Clone, Debug)]
pub struct Note {
    pub path: String,
    pub name: String,
}

/// A line that opens with the heading marker `# `.
pub open spec fn is_heading(line: Seq<char>) -> bool {
    line.len() >= 2 && line[0] == '#' && line[1] == ' '
}

/// The trimmed text after the marker of the first heading line, if any.
pub open spec fn pretty_name_spec(lines: Seq<Seq<char>>) -> Option<Seq<char>>
    decreases lines.len(),
{
    if lines.len() == 0 {
        None
    } else if is_heading(lines[0]) {
        Some(trim_spec(lines[0].subrange(2, lines[0].len() as int)))
    } else {
        pretty_name_spec(lines.drop_first())
    }
}

/// The pretty name when there is one, else the file name.
pub open spec fn display_name_spec(name: Seq<char>, lines: Seq<Seq<char>>) -> Seq<char> {
    match pretty_name_spec(lines) {
        Some(p) => p,
        None => name,
    }
}

/// Where `Note::from_pathbuf` finds the note that `name` means under `path`:
/// the directory and the file name, or nothing when the joined path has no
/// component.
pub open spec fn locate_spec(path: Seq<char>, name: Seq<char>) -> Option<(Seq<char>, Seq<char>)> {
    let full = join_spec(path, name);
    let cs = components(full);
    if cs.len() == 0 {
        None
    } else {
        Some((render_spec(is_absolute(full), cs.drop_last()), cs.last()))
    }
}

impl Note {
    /// The path of the note's file.
    pub open spec fn path_spec(&self) -> Seq<char> {
        join_spec(self.path@, self.name@)
    }

    /// The handle of the note `name` in `path`; `is_file` tells whether that
    /// path is a regular file.
    pub fn new(path: &str, name: &str, is_file: bool) -> (r: Result<Note, NoteError>)
        ensures
            is_file ==> (r matches Ok(n) && n.path@ == path@ && n.name@ == name@),
            !is_file ==> (r matches Err(NoteError::NoteDoesNotExist(m)) && m@ == name@),
    {
        if !is_file {
            return Err(NoteError::NoteDoesNotExist(String::from_str(name)));
        }
        Ok(Note { path: String::from_str(path), name: String::from_str(name) })
    }

    /// The handle of a note about to be created; `exists` tells whether its
    /// path is already taken, in which case nothing may be created.
    pub fn new_create(path: &str, name: &str, exists: bool) -> (r: Result<
        Note,
        NoteCreationError,
    >)
        ensures
            !exists ==> (r matches Ok(n) && n.path@ == path@ && n.name@ == name@),
            exists ==> (r matches Err(NoteCreationError::NoteExists(m)) && m@ == name@),
    {
        if exists {
            return Err(NoteCreationError::NoteExists(String::from_str(name)));
        }
        Ok(Note { path: String::from_str(path), name: String::from_str(name) })
    }

    /// The note that `name`, which may hold directories, means under `path`;
    /// `is_file` tells whether the joined path is a regular file.
    pub fn from_pathbuf(path: &str, name: &str, is_file: bool) -> (r: Result<Note, NoteError>)
        ensures
            locate_spec(path@, name@) is None ==> (r matches Err(
                NoteError::PathBufConversionError,
            )),
            locate_spec(path@, name@) matches Some(found) ==> (if is_file {
                r matches Ok(n) && n.path@ == found.0 && n.name@ == found.1
            } else {
                r matches Err(NoteError::NoteDoesNotExist(m)) && m@ == found.1
            }),
    {
        let full = join(path, name);
        let cs = split_components(full.as_str());
        if cs.len() == 0 {
            return Err(NoteError::PathBufConversionError);
        }
        let absolute = crate::path::starts_with_separator(full.as_str());
        let dir = render_prefix(absolute, &cs, cs.len() - 1);
        let file = cs[cs.len() - 1].as_str();
        proof {
            assert(string_views(cs@).subrange(0, cs@.len() - 1) == string_views(cs@).drop_last());
        }
        Note::new(dir.as_str(), file, is_file)
    }

    /// The path of the note's file.
    pub fn get_path(&self) -> (r: String)
        ensures
            r@ == self.path_spec(),
    {
        join(self.path.as_str(), self.name.as_str())
    }

    /// The pretty name of the note whose lines are `lines`: the trimmed text
    /// after `# ` on the first line that opens with it.
    pub fn get_pretty_name(&self, lines: &Vec<String>) -> (r: Option<String>)
        ensures
            pretty_name_spec(string_views(lines@)) == (match r {
                Some(p) => Some(p@),
                None => None::<Seq<char>>,
            }),
            r is None <==> forall|i: int|
                0 <= i < lines@.len() ==> !is_heading(#[trigger] lines@[i]@),
    {
        let ghost all = string_views(lines@);
        assert(all.subrange(0, all.len() as int) == all);
        let mut i: usize = 0;
        while i < lines.len()
            invariant
                all == string_views(lines@),
                i <= lines@.len(),
                pretty_name_spec(all) == pretty_name_spec(all.subrange(i as int, all.len() as int)),
                forall|k: int| 0 <= k < i ==> !is_heading(#[trigger] lines@[k]@),
            decreases lines@.len() - i,
        {
            let line = lines[i].as_str();
            let ghost rest = all.subrange(i as int, all.len() as int);
            assert(rest[0] == line@);
            let n = line.unicode_len();
            if n >= 2 && line.get_char(0) == '#' && line.get_char(1) == ' ' {
                let text = line.substring_char(2, n);
                let p = trim(text);
                return Some(p);
            }
            assert(rest.drop_first() == all.subrange(i + 1, all.len() as int));
            i = i + 1;
        }
        assert(all.subrange(i as int, all.len() as int).len() == 0);
        None
    }

    /// The name to show for the note: its pretty name when it has one, else
    /// its file name.
    pub fn get_name(&self, lines: &Vec<String>) -> (r: String)
        ensures
            r@ == display_name_spec(self.name@, string_views(lines@)),
    {
        match self.get_pretty_name(lines) {
            Some(p) => p,
            None => self.name.clone(),
        }
    }
}

/// A copy of a note handle.
pub fn copy_note(n: &Note) -> (r: Note)
    ensures
        r.path@ == n.path@,
        r.name@ == n.name@,
{
    Note { path: n.path.clone(), name: n.name.clone() }
}

impl Note {
    /// The first step of removing this note: refused when its file does not
    /// exist, which `exists` tells; a confirmation first when `interactive`;
    /// else the deletion.
    pub fn remove(&self, exists: bool, interactive: bool) -> (r: Result<RemoveStep, RemoveNoteError>)
        ensures
            !exists ==> (r matches Err(RemoveNoteError::NoteDoesNotExist(m)) && m@ == self.name@),
            exists && interactive ==> r == Ok::<RemoveStep, RemoveNoteError>(RemoveStep::Confirm),
            exists && !interactive ==> r == Ok::<RemoveStep, RemoveNoteError>(RemoveStep::Delete),
    {
        if !exists {
            return Err(RemoveNoteError::NoteDoesNotExist(self.name.clone()));
        }
        if interactive {
            Ok(RemoveStep::Confirm)
        } else {
            Ok(RemoveStep::Delete)
        }
    }

    /// The step after the user answered the confirmation: the deletion only
    /// when the trimmed answer is `y`.
    pub fn confirm_removal(answer: &str) -> (r: RemoveStep)
        ensures
            trim_spec(answer@) == seq!['y'] ==> r == RemoveStep::Delete,
            trim_spec(answer@) != seq!['y'] ==> r == RemoveStep::Abort,
    {
        let trimmed = trim(answer);
        let yes = String::from_str("y");
        proof {
            reveal_strlit("y");
        }
        assert(yes@ =~= seq!['y']);
        if trimmed == yes {
            RemoveStep::Delete
        } else {
            RemoveStep::Abort
        }
    }
}

} // verus!
