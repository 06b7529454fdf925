use vstd::prelude::*;
use vstd::string::*;
use crate::classify::{get_control_type_name, spec_control_type_name};
use crate::rect::Rect;

verus! {

/// One element of the inspected window: its bounding rectangle and the
/// label drawn for it, "<Category> (<Name>)".
pub struct ElementRecord {
    pub rect: Rect,
    pub label: String,
}

/// The mathematical content of an `ElementRecord`.
pub ghost struct RecordView {
    pub rect: Rect,
    pub label: Seq<char>,
}

impl View for ElementRecord {
    type V = RecordView;

    open spec fn view(&self) -> RecordView {
        RecordView { rect: self.rect, label: self.label@ }
    }
}

/// The views of a sequence of records.
pub open spec fn views_of(s: Seq<ElementRecord>) -> Seq<RecordView> {
    s.map_values(|r: ElementRecord| r@)
}

/// The label text for an element: its category name, then its
/// accessible name in parentheses.
pub open spec fn label_of(type_id: i32, name: Seq<char>) -> Seq<char> {
    spec_control_type_name(type_id) + " ("@ + name + ")"@
}

/// Build the label "<Category> (<Name>)" for an element.
pub fn make_label(type_id: i32, name: &str) -> (s: String)
    ensures
        s@ == label_of(type_id, name@),
{
    let s = String::from_str(get_control_type_name(type_id))
        .concat(" (")
        .concat(name)
        .concat(")");
    proof {
        assert(s@ =~= label_of(type_id, name@));
    }
    s
}

/// Copy a record; the copy has the same rectangle and label text.
pub fn clone_record(r: &ElementRecord) -> (c: ElementRecord)
    ensures
        c@ == r@,
{
    ElementRecord { rect: r.rect, label: r.label.clone() }
}

} // verus!
