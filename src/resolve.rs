//! Turning a note token that names no file into one note: by a unique name
//! match, or by the user's pick among several.

use vstd::prelude::*;
use crate::note::{copy_note, Note, NoteError};
use crate::path::string_views;

verus! {

/// What a name search for a token came to.
#[derive(Debug)]
pub enum Resolution {
    /// Exactly one note matched.
    Found(Note),
    /// Several notes matched; the user picks one of these labels, their
    /// display names in search order.
    Choose(Vec<String>),
}

pub open spec fn labels_of(cands: Seq<(Note, String)>) -> Seq<Seq<char>> {
    cands.map_values(|c: (Note, String)| c.1@)
}

/// The last candidate labelled `label`: later candidates win over earlier
/// ones with the same label.
pub open spec fn last_labelled(cands: Seq<(Note, String)>, label: Seq<char>) -> Option<int> {
    if exists|i: int| 0 <= i < cands.len() && cands[i].1@ == label {
        Some(
            choose|i: int|
                0 <= i < cands.len() && cands[i].1@ == label && forall|j: int|
                    i < j < cands.len() ==> cands[j].1@ != label,
        )
    } else {
        None
    }
}

/// Decides on the notes a name search found, each with its display name:
/// none means the note `missing` does not exist, one is the answer, and
/// several are offered to choose from by their display names.
pub fn resolve_candidates(missing: &str, cands: &Vec<(Note, String)>) -> (r: Result<
    Resolution,
    NoteError,
>)
    ensures
        cands@.len() == 0 ==> (r matches Err(NoteError::NoteDoesNotExist(m)) && m@ == missing@),
        cands@.len() == 1 ==> (r matches Ok(Resolution::Found(n)) && n.path@ == cands@[0].0.path@
            && n.name@ == cands@[0].0.name@),
        cands@.len() > 1 ==> (r matches Ok(Resolution::Choose(labels)) && string_views(labels@)
            == labels_of(cands@)),
{
    if cands.len() == 0 {
        return Err(NoteError::NoteDoesNotExist(String::from_str(missing)));
    }
    if cands.len() == 1 {
        return Ok(Resolution::Found(copy_note(&cands[0].0)));
    }
    let mut labels: Vec<String> = Vec::new();
    let mut i: usize = 0;
    while i < cands.len()
        invariant
            i <= cands@.len(),
            string_views(labels@) == labels_of(cands@).subrange(0, i as int),
        decreases cands@.len() - i,
    {
        let ghost before = labels@;
        let label = cands[i].1.clone();
        labels.push(label);
        assert(string_views(labels@) =~= string_views(before).push(label@));
        assert(labels_of(cands@).subrange(0, i + 1) =~= labels_of(cands@).subrange(
            0,
            i as int,
        ).push(label@));
        i = i + 1;
    }
    assert(labels_of(cands@).subrange(0, cands@.len() as int) == labels_of(cands@));
    Ok(Resolution::Choose(labels))
}

/// The note the user picked by its label `selected`; the last candidate
/// with that label when several share it, and an error naming the label
/// when none has it.
pub fn pick_selected(selected: &str, cands: &Vec<(Note, String)>) -> (r: Result<Note, NoteError>)
    ensures
        last_labelled(cands@, selected@) is None ==> (r matches Err(
            NoteError::NoteDoesNotExist(m),
        ) && m@ == selected@),
        last_labelled(cands@, selected@) matches Some(i) ==> (r matches Ok(n) && n.path@
            == cands@[i].0.path@ && n.name@ == cands@[i].0.name@),
{
    let wanted = String::from_str(selected);
    let mut i: usize = cands.len();
    while i > 0
        invariant
            i <= cands@.len(),
            wanted@ == selected@,
            forall|j: int| i <= j < cands@.len() ==> cands@[j].1@ != selected@,
        decreases i,
    {
        i = i - 1;
        if cands[i].1 == wanted {
            proof {
                let k = choose|k: int|
                    0 <= k < cands@.len() && cands@[k].1@ == selected@ && forall|j: int|
                        k < j < cands@.len() ==> cands@[j].1@ != selected@;
                assert(k == i);
            }
            return Ok(copy_note(&cands[i].0));
        }
    }
    Err(NoteError::NoteDoesNotExist(wanted))
}

} // verus!
