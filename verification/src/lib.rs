//! Core of a window-inspection tool: it walks the accessibility tree of
//! a target window into plain records, classifies each element, prints a
//! depth-indented trace, and plans a screen overlay that boxes and
//! labels every element, larger boxes drawn first so smaller ones stay
//! visible.  The host's windowing, accessibility and drawing calls live
//! outside this crate; everything here is pure computation over plain
//! values.

use vstd::prelude::*;

pub mod classify;
pub mod control;
pub mod numfmt;
pub mod record;
pub mod render;
pub mod store;
pub mod trace;
pub mod tree;
pub mod rect;

pub use classify::get_control_type_name;
pub use control::{handle_event, startup_decision, OverlayAction, OverlayEvent, StartupDecision};
pub use numfmt::{i64_to_string, u64_to_string};
pub use rect::Rect;
pub use record::{clone_record, make_label, ElementRecord};
pub use render::{compute_label_rect, render_plan, sort_records_by_area, DrawOp};
pub use store::ElementStore;
pub use trace::{trace_element_info, trace_line};
pub use tree::{collect_element_info, UiNode};

verus! {

} // verus!
