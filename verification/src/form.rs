//! The field of a form that selects projects.

use vstd::prelude::*;
use crate::text::texts;

verus! {

/// A field that may hold one text or several.
pub enum SelectionField {
    /// The field is not there.
    Missing,
    /// One text.
    One(String),
    /// Any number of texts.
    Many(Vec<String>),
}

/// What is expected of such a field.
pub const SELECTION_EXPECTED: &'static str = "a string or a sequence of strings";

/// The field as a list: a single text is a list of one, a missing field an empty one.
pub open spec fn selection(field: SelectionField) -> Seq<Seq<char>> {
    match field {
        SelectionField::Missing => seq![],
        SelectionField::One(text) => seq![text@],
        SelectionField::Many(list) => texts(list@),
    }
}

/// Reads the field as a list.
pub fn deserialize_selected_projects(field: SelectionField) -> (r: Vec<String>)
    ensures
        texts(r@) == selection(field),
{
    match field {
        SelectionField::Missing => Vec::new(),
        SelectionField::One(text) => {
            let mut r: Vec<String> = Vec::new();
            r.push(text);
            r
        },
        SelectionField::Many(list) => list,
    }
}

/// Nothing is lost of a field and nothing added, however it is given: a list of texts stays as it
/// is, one text reads like a list of just that text, and a missing field like an empty list.
pub proof fn lemma_selection_is_whole(list: Vec<String>, text: String)
    ensures
        selection(SelectionField::Many(list)).len() == list@.len(),
        forall|i: int|
            0 <= i < list@.len() ==> (#[trigger] selection(SelectionField::Many(list))[i])
                == list@[i]@,
        list@ == seq![text] ==> selection(SelectionField::One(text)) == selection(
            SelectionField::Many(list),
        ),
        selection(SelectionField::One(text)).len() == 1,
        selection(SelectionField::One(text))[0] == text@,
        selection(SelectionField::Missing).len() == 0,
{
}

} // verus!
