//! Which cases of a suite take part in a run.
use vstd::prelude::*;
use crate::case_id::{id_text, CaseId, CaseIdView};
use crate::text;

verus! {

/// The cases that a run selects.
#[derive(Debug, PartialEq, Eq)]
pub enum CaseSelection {
    All,
    /// The cases whose identity contains this text.
    Containing(String),
    /// The case with this identity.
    Exact(String),
}

/// A selection, as mathematical values.
pub enum SelectionView {
    All,
    Containing(Seq<char>),
    Exact(Seq<char>),
}

impl View for CaseSelection {
    type V = SelectionView;

    open spec fn view(&self) -> SelectionView {
        match *self {
            CaseSelection::All => SelectionView::All,
            CaseSelection::Containing(pattern) => SelectionView::Containing(pattern@),
            CaseSelection::Exact(full_id) => SelectionView::Exact(full_id@),
        }
    }
}

impl SelectionView {
    /// The selection takes the case with this identity.
    pub open spec fn selects(self, id: CaseIdView) -> bool {
        match self {
            SelectionView::All => true,
            SelectionView::Containing(pattern) => text::contains_text(id_text(id), pattern),
            SelectionView::Exact(full_id) => id_text(id) == full_id,
        }
    }
}

impl Clone for CaseSelection {
    fn clone(&self) -> (copy: CaseSelection)
        ensures
            copy@ == self@,
    {
        match self {
            CaseSelection::All => CaseSelection::All,
            CaseSelection::Containing(pattern) => CaseSelection::Containing(pattern.clone()),
            CaseSelection::Exact(full_id) => CaseSelection::Exact(full_id.clone()),
        }
    }
}

impl Default for CaseSelection {
    fn default() -> (selection: CaseSelection)
        ensures
            selection@ == SelectionView::All,
    {
        CaseSelection::All
    }
}

impl CaseSelection {
    /// Selects every case.
    pub fn all() -> (selection: CaseSelection)
        ensures
            selection@ == SelectionView::All,
    {
        CaseSelection::default()
    }

    /// Selects the cases whose identity contains `pattern`.
    pub fn containing(pattern: &str) -> (selection: CaseSelection)
        ensures
            selection@ == SelectionView::Containing(pattern@),
    {
        CaseSelection::Containing(pattern.to_owned())
    }

    /// Selects the case with this identity.
    pub fn exact(full_id: &str) -> (selection: CaseSelection)
        ensures
            selection@ == SelectionView::Exact(full_id@),
    {
        CaseSelection::Exact(full_id.to_owned())
    }

    /// Whether the selection takes this case.
    pub fn matches(&self, case: &CaseId) -> (result: bool)
        ensures
            result == self@.selects(case@),
    {
        match self {
            CaseSelection::All => true,
            CaseSelection::Containing(pattern) => text::contains(case.full_id().as_str(), pattern.as_str()),
            CaseSelection::Exact(full_id) => case.full_id() == *full_id,
        }
    }
}

/// What an exact selection takes, a selection by containing the same text takes too; and
/// every selection by containing the empty text takes everything.
pub proof fn law_selections_nest(id: CaseIdView, text: Seq<char>)
    ensures
        SelectionView::Exact(text).selects(id) ==> SelectionView::Containing(text).selects(id),
        SelectionView::Containing(text).selects(id) ==> SelectionView::All.selects(id),
        SelectionView::Containing(Seq::empty()).selects(id),
{
    let full_id = id_text(id);
    assert(full_id.subrange(0, full_id.len() as int) =~= full_id);
    assert(text::occurs_at(full_id, full_id, 0));
    assert(full_id.subrange(0, 0) =~= Seq::empty());
    assert(text::occurs_at(full_id, Seq::empty(), 0));
}

/// An exact selection takes at most one identity.
pub proof fn law_exact_selection_is_unique(full_id: Seq<char>, left: CaseIdView, right: CaseIdView)
    requires
        crate::case_id::valid_id(left),
        crate::case_id::valid_id(right),
        SelectionView::Exact(full_id).selects(left),
        SelectionView::Exact(full_id).selects(right),
    ensures
        left == right,
{
    crate::case_id::law_full_id_injective(left, right);
}

/// A selection by containing a text takes exactly the cases in whose identity that text stands
/// somewhere, whatever stands around it.
pub proof fn law_contained_texts_are_selected(id: CaseIdView, pattern: Seq<char>)
    ensures
        SelectionView::Containing(pattern).selects(id) <==> exists|before: Seq<char>, after: Seq<char>|
            id_text(id) == #[trigger] (before + pattern + after),
{
    if SelectionView::Containing(pattern).selects(id) {
        text::law_contained_texts_are_parts(id_text(id), pattern);
    }
    if exists|before: Seq<char>, after: Seq<char>| id_text(id) == #[trigger] (before + pattern + after) {
        let (before, after) = choose|before: Seq<char>, after: Seq<char>|
            id_text(id) == #[trigger] (before + pattern + after);
        text::law_parts_are_contained(before, pattern, after);
    }
}

/// An exact selection takes the case with that identity, and the selection of all takes every
/// case.
pub proof fn law_exact_selections_take_their_case(id: CaseIdView, other: CaseIdView)
    requires
        crate::case_id::valid_id(id),
        crate::case_id::valid_id(other),
    ensures
        SelectionView::Exact(id_text(id)).selects(other) <==> other == id,
        SelectionView::All.selects(other),
{
    if SelectionView::Exact(id_text(id)).selects(other) {
        crate::case_id::law_full_id_injective(id, other);
    }
}

}
