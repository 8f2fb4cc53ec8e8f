//! Recursive search through a folder's contents: notes found by name, and
//! lines found by content.

use vstd::prelude::*;
use crate::folder::{folder_name_spec, Folder, ListFolderError};
use crate::note::{copy_note, display_name_spec, Note, NoteError};
use crate::path::{join_spec, string_views};
use crate::text::{
    chars_of, contains_spec, find_chars, first_occurrence, lower_of, to_lower,
};

verus! {

#[derive(Debug)]
pub enum GetNotesByNameError {
    ListFolder(ListFolderError),
    Note(NoteError),
}

#[derive(Debug)]
pub enum SearchNotesError {
    ListFolder(ListFolderError),
    ReadError(NoteError),
}

/// A note of a folder as read from disk: its file name and its lines.
#[derive(Clone, Debug)]
pub struct NoteText {
    pub name: String,
    pub lines: Vec<String>,
}

/// Everything under a folder as read from disk: its notes, and each
/// sub-folder by name with what is under it, in listing order.
#[derive(Debug)]
pub struct FolderTree {
    pub notes: Vec<NoteText>,
    pub folders: Vec<(String, FolderTree)>,
}

/// Every note under a folder whose directory is `dir`, with the directory it
/// stands in: first the folder's own notes, then, sub-folder by sub-folder,
/// all notes under each.
pub open spec fn tree_notes(dir: Seq<char>, t: FolderTree) -> Seq<(Seq<char>, NoteText)>
    decreases t,
{
    t.notes@.map_values(|n: NoteText| (dir, n)) + forest_notes(dir, t.folders@)
}

/// Every note under the sub-folders `fs` of the folder whose directory is
/// `dir`, in order.
pub open spec fn forest_notes(dir: Seq<char>, fs: Seq<(String, FolderTree)>) -> Seq<
    (Seq<char>, NoteText),
>
    decreases fs,
{
    if fs.len() == 0 {
        Seq::empty()
    } else {
        forest_notes(dir, fs.subrange(0, fs.len() - 1)) + tree_notes(
            join_spec(dir, folder_name_spec(fs[fs.len() - 1].0@)),
            fs[fs.len() - 1].1,
        )
    }
}

/// The lower-cased display name of the note contains `needle`.
pub open spec fn name_matches(n: NoteText, needle: Seq<char>) -> bool {
    contains_spec(lower_of(display_name_spec(n.name@, string_views(n.lines@))), needle)
}

/// Keeps a note, as its directory and file name, when its name matches.
pub open spec fn by_name(needle: Seq<char>) -> spec_fn((Seq<char>, NoteText)) -> Option<
    (Seq<char>, Seq<char>),
> {
    |p: (Seq<char>, NoteText)|
        if name_matches(p.1, needle) {
            Some((p.0, p.1.name@))
        } else {
            None
        }
}

pub open spec fn note_views(ns: Seq<Note>) -> Seq<(Seq<char>, Seq<char>)> {
    ns.map_values(|n: Note| (n.path@, n.name@))
}

/// `filter_map` keeps what it keeps from each part of a concatenation.
pub proof fn lemma_filter_map_concat<A, B>(a: Seq<A>, b: Seq<A>, f: spec_fn(A) -> Option<B>)
    ensures
        (a + b).filter_map(f) == a.filter_map(f) + b.filter_map(f),
    decreases b.len(),
{
    if b.len() == 0 {
        assert(a + b =~= a);
        assert(a.filter_map(f) + b.filter_map(f) =~= a.filter_map(f));
    } else {
        lemma_filter_map_concat(a, b.drop_last(), f);
        assert((a + b).drop_last() =~= a + b.drop_last());
        assert((a + b).last() == b.last());
        match f(b.last()) {
            Some(x) => {
                assert((a + b).filter_map(f) =~= a.filter_map(f) + b.filter_map(f));
            },
            None => {},
        }
    }
}

/// `filter_map` keeps what `f` makes of each element it keeps, and only that.
pub proof fn lemma_filter_map_member<A, B>(s: Seq<A>, f: spec_fn(A) -> Option<B>, x: B)
    ensures
        s.filter_map(f).contains(x) <==> exists|i: int| 0 <= i < s.len() && f(s[i]) == Some(x),
    decreases s.len(),
{
    if s.len() > 0 {
        let rest = s.drop_last();
        lemma_filter_map_member(rest, f, x);
        if exists|i: int| 0 <= i < s.len() && f(s[i]) == Some(x) {
            let i = choose|i: int| 0 <= i < s.len() && f(s[i]) == Some(x);
            if i < s.len() - 1 {
                assert(rest[i] == s[i]);
                let k = rest.filter_map(f).index_of(x);
                match f(s.last()) {
                    Some(y) => {
                        assert(s.filter_map(f) == rest.filter_map(f) + seq![y]);
                        assert(s.filter_map(f)[k] == x);
                    },
                    None => {},
                }
            } else {
                assert(s.filter_map(f) == rest.filter_map(f) + seq![x]);
                assert(s.filter_map(f)[rest.filter_map(f).len() as int] == x);
            }
        } else {
            if s.filter_map(f).contains(x) {
                let k = s.filter_map(f).index_of(x);
                match f(s.last()) {
                    Some(y) => {
                        assert(s.filter_map(f) == rest.filter_map(f) + seq![y]);
                        if k < rest.filter_map(f).len() {
                            assert(rest.filter_map(f)[k] == x);
                            let j = choose|j: int| 0 <= j < rest.len() && f(rest[j]) == Some(x);
                            assert(s[j] == rest[j]);
                        } else {
                            assert(f(s[s.len() - 1]) == Some(x));
                        }
                    },
                    None => {
                        assert(rest.filter_map(f).contains(x));
                        let j = choose|j: int| 0 <= j < rest.len() && f(rest[j]) == Some(x);
                        assert(s[j] == rest[j]);
                    },
                }
            }
        }
    }
}

/// A note is found by name exactly when it stands under the folder and its
/// lower-cased display name contains the needle; notes are found in the
/// order of `tree_notes`, a folder's own notes before those of its
/// sub-folders.
pub proof fn lemma_found_by_name(
    dir: Seq<char>,
    contents: FolderTree,
    needle: Seq<char>,
    found: (Seq<char>, Seq<char>),
)
    ensures
        tree_notes(dir, contents).filter_map(by_name(needle)).contains(found) <==> exists|i: int|
            0 <= i < tree_notes(dir, contents).len() && name_matches(
                (#[trigger] tree_notes(dir, contents)[i]).1,
                needle,
            ) && found == (tree_notes(dir, contents)[i].0, tree_notes(dir, contents)[i].1.name@),
{
    lemma_filter_map_member(tree_notes(dir, contents), by_name(needle), found);
}

impl Folder {
    /// Every note under this folder, whose contents are `contents`, whose
    /// display name, lower-cased, contains `name`: the folder's own notes
    /// first, then those under each sub-folder in turn.
    pub fn get_notes_by_name(&self, contents: &FolderTree, name: &str) -> (r: Vec<Note>)
        ensures
            note_views(r@) == tree_notes(self.path_spec(), *contents).filter_map(by_name(name@)),
        decreases contents,
    {
        let here = self.get_path();
        let needle = chars_of(name);
        let ghost f = by_name(name@);
        let ghost own = contents.notes@.map_values(|n: NoteText| (here@, n));
        let mut found: Vec<Note> = Vec::new();
        let mut i: usize = 0;
        while i < contents.notes.len()
            invariant
                here@ == self.path_spec(),
                needle@ == name@,
                f == by_name(name@),
                own == contents.notes@.map_values(|n: NoteText| (here@, n)),
                i <= contents.notes@.len(),
                note_views(found@) == own.subrange(0, i as int).filter_map(f),
            decreases contents.notes@.len() - i,
        {
            let n = &contents.notes[i];
            let hit = n.name_contains(&needle);
            let ghost before = found@;
            proof {
                assert(own.subrange(0, i + 1).drop_last() =~= own.subrange(0, i as int));
                assert(own.subrange(0, i + 1).last() == (here@, *n));
            }
            if hit {
                found.push(Note { path: here.clone(), name: n.name.clone() });
                assert(note_views(found@) =~= note_views(before).push((here@, n.name@)));
            }
            i = i + 1;
        }
        assert(own.subrange(0, own.len() as int) == own);
        let ghost fs = contents.folders@;
        let mut j: usize = 0;
        while j < contents.folders.len()
            invariant
                here@ == self.path_spec(),
                f == by_name(name@),
                fs == contents.folders@,
                j <= fs.len(),
                note_views(found@) == own.filter_map(f) + forest_notes(
                    here@,
                    fs.subrange(0, j as int),
                ).filter_map(f),
            decreases fs.len() - j,
        {
            let entry = &contents.folders[j];
            let sub = Folder::new(here.as_str(), entry.0.as_str());
            assert(decreases_to!(contents => contents.folders@[j as int].1));
            let more = sub.get_notes_by_name(&entry.1, name);
            let ghost before = found@;
            let mut k: usize = 0;
            while k < more.len()
                invariant
                    k <= more@.len(),
                    note_views(found@) == note_views(before) + note_views(more@).subrange(
                        0,
                        k as int,
                    ),
                decreases more@.len() - k,
            {
                let ghost step = found@;
                found.push(copy_note(&more[k]));
                assert(note_views(found@) =~= note_views(step).push(note_views(more@)[k as int]));
                assert(note_views(more@).subrange(0, k + 1) =~= note_views(more@).subrange(
                    0,
                    k as int,
                ).push(note_views(more@)[k as int]));
                k = k + 1;
            }
            proof {
                let prefix = fs.subrange(0, j + 1);
                assert(prefix.subrange(0, prefix.len() - 1) =~= fs.subrange(0, j as int));
                assert(prefix[prefix.len() - 1] == *entry);
                assert(sub.path_spec() == join_spec(here@, folder_name_spec(entry.0@)));
                lemma_filter_map_concat(
                    forest_notes(here@, fs.subrange(0, j as int)),
                    tree_notes(sub.path_spec(), entry.1),
                    f,
                );
                assert(note_views(more@).subrange(0, more@.len() as int) == note_views(more@));
                assert(note_views(found@) =~= own.filter_map(f) + forest_notes(here@, prefix).filter_map(f));
            }
            j = j + 1;
        }
        proof {
            assert(fs.subrange(0, fs.len() as int) == fs);
            lemma_filter_map_concat(own, forest_notes(here@, fs), f);
        }
        found
    }
}

impl NoteText {
    /// Whether the lower-cased display name of this note contains `needle`.
    pub fn name_contains(&self, needle: &Vec<char>) -> (r: bool)
        ensures
            r == name_matches(*self, needle@),
    {
        let shown = self.display_name();
        let low = to_lower(shown.as_str());
        let low_chars = chars_of(low.as_str());
        find_chars(&low_chars, needle).is_some()
    }

    /// The name to show for this note.
    pub fn display_name(&self) -> (r: String)
        ensures
            r@ == display_name_spec(self.name@, string_views(self.lines@)),
    {
        let handle = Note { path: String::new(), name: self.name.clone() };
        handle.get_name(&self.lines)
    }
}

/// A snippet as mathematical values: the 1-based number of a matching line,
/// the line before it when there is one to show, the line itself and the
/// range of it that matched.
pub struct SnippetView {
    pub number: nat,
    pub context: Option<Seq<char>>,
    pub text: Seq<char>,
    pub start: nat,
    pub end: nat,
}

/// One matching line of a note, with the line before it as context, and the
/// range `start..end` of the match within the line.
#[derive(Clone, Debug)]
pub struct Snippet {
    pub number: usize,
    pub context: Option<String>,
    pub text: String,
    pub start: usize,
    pub end: usize,
}

impl View for Snippet {
    type V = SnippetView;

    open spec fn view(&self) -> SnippetView {
        SnippetView {
            number: self.number as nat,
            context: match self.context {
                Some(c) => Some(c@),
                None => None,
            },
            text: self.text@,
            start: self.start as nat,
            end: self.end as nat,
        }
    }
}

/// A note with at least one matching line, and a snippet for each.
#[derive(Debug)]
pub struct SearchNoteResult {
    pub note: Note,
    pub snippets: Vec<Snippet>,
}

pub open spec fn min_spec(a: int, b: int) -> int {
    if a < b {
        a
    } else {
        b
    }
}

/// The lower-cased line contains `term`.
pub open spec fn line_matches(line: Seq<char>, term: Seq<char>) -> bool {
    contains_spec(lower_of(line), term)
}

/// The snippet for the matching line at index `j`: the line before it is
/// shown, when there is one, and the match is placed where it stands in
/// the lower-cased line, cut to the line's length.
pub open spec fn snippet_at(lines: Seq<Seq<char>>, j: int, term: Seq<char>) -> SnippetView {
    let text = lines[j];
    let at = first_occurrence(lower_of(text), term);
    SnippetView {
        number: (j + 1) as nat,
        context: if j >= 1 {
            Some(lines[j - 1])
        } else {
            None
        },
        text: text,
        start: min_spec(at, text.len() as int) as nat,
        end: min_spec(at + term.len(), text.len() as int) as nat,
    }
}

/// The snippets of the matching lines among the first `n`, in order.
pub open spec fn snippets_upto(lines: Seq<Seq<char>>, n: int, term: Seq<char>) -> Seq<SnippetView>
    decreases n,
{
    if n <= 0 {
        Seq::empty()
    } else {
        let prev = snippets_upto(lines, n - 1, term);
        if line_matches(lines[n - 1], term) {
            prev.push(snippet_at(lines, n - 1, term))
        } else {
            prev
        }
    }
}

/// The snippets of all matching lines of a note.
pub open spec fn snippets_spec(lines: Seq<Seq<char>>, term: Seq<char>) -> Seq<SnippetView> {
    snippets_upto(lines, lines.len() as int, term)
}

pub open spec fn snippet_views(s: Seq<Snippet>) -> Seq<SnippetView> {
    s.map_values(|x: Snippet| x@)
}

/// Keeps a note, as its directory, file name and snippets, when one of its
/// lines matches.
pub open spec fn by_content(term: Seq<char>) -> spec_fn((Seq<char>, NoteText)) -> Option<
    (Seq<char>, Seq<char>, Seq<SnippetView>),
> {
    |p: (Seq<char>, NoteText)|
        {
            let s = snippets_spec(string_views(p.1.lines@), term);
            if s.len() > 0 {
                Some((p.0, p.1.name@, s))
            } else {
                None
            }
        }
}

pub open spec fn result_views(rs: Seq<SearchNoteResult>) -> Seq<
    (Seq<char>, Seq<char>, Seq<SnippetView>),
> {
    rs.map_values(
        |r: SearchNoteResult| (r.note.path@, r.note.name@, snippet_views(r.snippets@)),
    )
}

/// Every snippet quotes a matching line of the note by its number, and shows
/// as context exactly the line just before it; only a match on the first
/// line comes alone.
pub proof fn lemma_snippet_quotes_lines(lines: Seq<Seq<char>>, term: Seq<char>, k: int)
    requires
        0 <= k < snippets_spec(lines, term).len(),
    ensures
        ({
            let s = snippets_spec(lines, term)[k];
            &&& 1 <= s.number <= lines.len()
            &&& s.text == lines[s.number - 1]
            &&& line_matches(s.text, term)
            &&& s.context == if s.number >= 2 {
                Some(lines[s.number - 2])
            } else {
                None
            }
        }),
{
    lemma_snippets_upto_quote(lines, lines.len() as int, term, k);
}

proof fn lemma_snippets_upto_quote(lines: Seq<Seq<char>>, n: int, term: Seq<char>, k: int)
    requires
        0 <= n <= lines.len(),
        0 <= k < snippets_upto(lines, n, term).len(),
    ensures
        ({
            let s = snippets_upto(lines, n, term)[k];
            &&& 1 <= s.number <= n
            &&& s.text == lines[s.number - 1]
            &&& line_matches(s.text, term)
            &&& s.context == if s.number >= 2 {
                Some(lines[s.number - 2])
            } else {
                None
            }
        }),
    decreases n,
{
    let prev = snippets_upto(lines, n - 1, term);
    if k < prev.len() {
        lemma_snippets_upto_quote(lines, n - 1, term, k);
    }
}

/// The snippet for the line at index `j`, when it matches.
fn line_snippet(lines: &Vec<String>, j: usize, term: &Vec<char>) -> (r: Option<Snippet>)
    requires
        j < lines@.len(),
    ensures
        r is Some <==> line_matches(lines@[j as int]@, term@),
        r matches Some(s) ==> s@ == snippet_at(string_views(lines@), j as int, term@),
{
    let ghost all = string_views(lines@);
    let line = lines[j].as_str();
    assert(all[j as int] == line@);
    let low = to_lower(line);
    let low_chars = chars_of(low.as_str());
    let low_len = low_chars.len();
    let line_count = lines.len();
    match find_chars(&low_chars, term) {
        Some(at) => {
            assert(at == first_occurrence(lower_of(all[j as int]), term@));
            assert(at + term@.len() <= low_len);
            let len = line.unicode_len();
            let start = if at < len {
                at
            } else {
                len
            };
            let end = if at + term.len() < len {
                at + term.len()
            } else {
                len
            };
            let context = if j >= 1 {
                let before = lines[j - 1].clone();
                assert(before@ == all[j - 1]);
                Some(before)
            } else {
                None
            };
            assert(j < line_count);
            let snippet = Snippet { number: j + 1, context, text: lines[j].clone(), start, end };
            proof {
                let want = snippet_at(all, j as int, term@);
                assert(snippet@.number == want.number);
                assert(snippet@.context == want.context);
                assert(snippet@.text == want.text);
                assert(len == want.text.len());
                assert(snippet@.start == want.start);
                assert(snippet@.end == want.end);
            }
            Some(snippet)
        },
        None => None,
    }
}

/// The snippets of the matching lines of `lines`.
pub fn note_snippets(lines: &Vec<String>, term: &Vec<char>) -> (r: Vec<Snippet>)
    ensures
        snippet_views(r@) == snippets_spec(string_views(lines@), term@),
{
    let ghost all = string_views(lines@);
    let mut r: Vec<Snippet> = Vec::new();
    let mut j: usize = 0;
    while j < lines.len()
        invariant
            all == string_views(lines@),
            j <= lines@.len(),
            snippet_views(r@) == snippets_upto(all, j as int, term@),
        decreases lines@.len() - j,
    {
        let ghost before = r@;
        match line_snippet(lines, j, term) {
            Some(snippet) => {
                r.push(snippet);
                assert(snippet_views(r@) =~= snippet_views(before).push(snippet@));
            },
            None => {},
        }
        j = j + 1;
    }
    r
}

impl Folder {
    /// Every note under this folder, whose contents are `contents`, with a
    /// line whose lower-cased form contains `term`, and a snippet for each
    /// such line: the folder's own notes first, then those under each
    /// sub-folder in turn.
    pub fn search_notes_content(&self, contents: &FolderTree, term: &str) -> (r: Vec<
        SearchNoteResult,
    >)
        ensures
            result_views(r@) == tree_notes(self.path_spec(), *contents).filter_map(
                by_content(term@),
            ),
        decreases contents,
    {
        let here = self.get_path();
        let needle = chars_of(term);
        let ghost f = by_content(term@);
        let ghost own = contents.notes@.map_values(|n: NoteText| (here@, n));
        let mut found: Vec<SearchNoteResult> = Vec::new();
        let mut i: usize = 0;
        while i < contents.notes.len()
            invariant
                here@ == self.path_spec(),
                needle@ == term@,
                f == by_content(term@),
                own == contents.notes@.map_values(|n: NoteText| (here@, n)),
                i <= contents.notes@.len(),
                result_views(found@) == own.subrange(0, i as int).filter_map(f),
            decreases contents.notes@.len() - i,
        {
            let n = &contents.notes[i];
            let snippets = note_snippets(&n.lines, &needle);
            let ghost before = found@;
            proof {
                assert(own.subrange(0, i + 1).drop_last() =~= own.subrange(0, i as int));
                assert(own.subrange(0, i + 1).last() == (here@, *n));
            }
            if snippets.len() > 0 {
                let note = Note { path: here.clone(), name: n.name.clone() };
                let ghost item = (here@, n.name@, snippet_views(snippets@));
                found.push(SearchNoteResult { note, snippets });
                assert(result_views(found@) =~= result_views(before).push(item));
            }
            i = i + 1;
        }
        assert(own.subrange(0, own.len() as int) == own);
        let ghost fs = contents.folders@;
        let mut j: usize = 0;
        while j < contents.folders.len()
            invariant
                here@ == self.path_spec(),
                f == by_content(term@),
                fs == contents.folders@,
                j <= fs.len(),
                result_views(found@) == own.filter_map(f) + forest_notes(
                    here@,
                    fs.subrange(0, j as int),
                ).filter_map(f),
            decreases fs.len() - j,
        {
            let entry = &contents.folders[j];
            let sub = Folder::new(here.as_str(), entry.0.as_str());
            assert(decreases_to!(contents => contents.folders@[j as int].1));
            let mut more = sub.search_notes_content(&entry.1, term);
            let ghost before = found@;
            let ghost added = more@;
            found.append(&mut more);
            proof {
                assert(result_views(found@) =~= result_views(before) + result_views(added));
                let prefix = fs.subrange(0, j + 1);
                assert(prefix.subrange(0, prefix.len() - 1) =~= fs.subrange(0, j as int));
                assert(prefix[prefix.len() - 1] == *entry);
                lemma_filter_map_concat(
                    forest_notes(here@, fs.subrange(0, j as int)),
                    tree_notes(sub.path_spec(), entry.1),
                    f,
                );
                assert(result_views(found@) =~= own.filter_map(f) + forest_notes(here@, prefix).filter_map(f));
            }
            j = j + 1;
        }
        proof {
            assert(fs.subrange(0, fs.len() as int) == fs);
            lemma_filter_map_concat(own, forest_notes(here@, fs), f);
        }
        found
    }
}

} // verus!
