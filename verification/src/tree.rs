use vstd::prelude::*;
use crate::rect::Rect;
use crate::record::{make_label, label_of, views_of, ElementRecord, RecordView};

verus! {

/// A node of the accessibility tree, as plain values: the element's
/// accessible name, its numeric control-type identifier, its bounding
/// rectangle, and its children in provider order.
pub struct UiNode {
    pub name: String,
    pub control_type: i32,
    pub rect: Rect,
    pub children: Vec<UiNode>,
}

/// Number of nodes in the tree rooted at `n`, the root included.
pub open spec fn node_count(n: UiNode) -> nat
    decreases n,
{
    1 + subtree_count(n.children@)
}

/// Total number of nodes in the trees of `s`.
pub open spec fn subtree_count(s: Seq<UiNode>) -> nat
    decreases s,
{
    if s.len() == 0 {
        0
    } else {
        node_count(s[0]) + subtree_count(s.drop_first())
    }
}

/// Height of the tree rooted at `n`: 1 for a leaf.
pub open spec fn node_height(n: UiNode) -> nat
    decreases n,
{
    1 + height_children(n.children@)
}

/// Greatest height among the trees of `s`; 0 when `s` is empty.
pub open spec fn height_children(s: Seq<UiNode>) -> nat
    decreases s,
{
    if s.len() == 0 {
        0
    } else if node_height(s[0]) >= height_children(s.drop_first()) {
        node_height(s[0])
    } else {
        height_children(s.drop_first())
    }
}

/// Every node of the tree rooted at `n` has a displayable rectangle.
pub open spec fn all_displayable(n: UiNode) -> bool
    decreases n,
{
    n.rect.displayable() && all_displayable_seq(n.children@)
}

/// Every node of every tree of `s` has a displayable rectangle.
pub open spec fn all_displayable_seq(s: Seq<UiNode>) -> bool
    decreases s,
{
    s.len() == 0 || (all_displayable(s[0]) && all_displayable_seq(s.drop_first()))
}

/// The record made for one node, were it collected.
pub open spec fn record_of(n: UiNode) -> RecordView {
    RecordView { rect: n.rect, label: label_of(n.control_type, n.name@) }
}

/// The records collected from the tree rooted at `n`, depth-first,
/// pre-order, keeping only nodes with a displayable rectangle.
pub open spec fn collect_spec(n: UiNode) -> Seq<RecordView>
    decreases n,
{
    if n.rect.displayable() {
        seq![record_of(n)] + collect_children(n.children@)
    } else {
        collect_children(n.children@)
    }
}

/// The records collected from the trees of `s`, in order.
pub open spec fn collect_children(s: Seq<UiNode>) -> Seq<RecordView>
    decreases s,
{
    if s.len() == 0 {
        Seq::empty()
    } else {
        collect_spec(s[0]) + collect_children(s.drop_first())
    }
}

proof fn lemma_collect_children_take(s: Seq<UiNode>, i: int)
    requires
        0 <= i < s.len(),
    ensures
        collect_children(s.take(i + 1)) == collect_children(s.take(i)) + collect_spec(s[i]),
    decreases i,
{
    if i == 0 {
        assert(s.take(0) =~= Seq::<UiNode>::empty());
        assert(s.take(1) =~= seq![s[0]]);
        assert(seq![s[0]].drop_first() =~= Seq::<UiNode>::empty());
        assert(collect_children(s.take(i + 1)) =~= collect_children(s.take(i)) + collect_spec(s[i]));
    } else {
        let t = s.drop_first();
        lemma_collect_children_take(t, i - 1);
        assert(s.take(i + 1).drop_first() =~= t.take(i));
        assert(s.take(i).drop_first() =~= t.take(i - 1));
        assert(s.take(i + 1)[0] == s[0]);
        assert(s.take(i)[0] == s[0]);
        assert(collect_children(s.take(i + 1)) =~= collect_children(s.take(i)) + collect_spec(s[i]));
    }
}

/// Visit the tree rooted at `element` depth-first, pre-order, and append
/// a record for each node with a displayable rectangle; degenerate
/// rectangles are left out.
pub fn collect_element_info(element: &UiNode, elements: &mut Vec<ElementRecord>)
    ensures
        views_of(final(elements)@) == views_of(old(elements)@) + collect_spec(*element),
    decreases *element,
{
    let ghost pre = elements@;
    if element.rect.is_displayable() {
        let label = make_label(element.control_type, element.name.as_str());
        elements.push(ElementRecord { rect: element.rect, label });
    }
    let ghost own = if element.rect.displayable() {
        seq![record_of(*element)]
    } else {
        Seq::<RecordView>::empty()
    };
    proof {
        assert(views_of(elements@) =~= views_of(pre) + own);
        assert(element.children@.take(0) =~= Seq::<UiNode>::empty());
    }
    let n = element.children.len();
    let mut i: usize = 0;
    while i < n
        invariant
            n == element.children@.len(),
            i <= n,
            views_of(elements@) == views_of(pre) + own
                + collect_children(element.children@.take(i as int)),
        decreases n - i,
    {
        collect_element_info(&element.children[i], elements);
        proof {
            lemma_collect_children_take(element.children@, i as int);
        }
        i = i + 1;
    }
    proof {
        assert(element.children@.take(n as int) =~= element.children@);
        assert(views_of(elements@) =~= views_of(pre) + collect_spec(*element));
    }
}

/// No more records are collected than the tree has nodes, and exactly as
/// many iff every node's rectangle is displayable.
pub proof fn lemma_collect_bounded(n: UiNode)
    ensures
        collect_spec(n).len() <= node_count(n),
        (collect_spec(n).len() == node_count(n)) <==> all_displayable(n),
    decreases n,
{
    lemma_collect_children_bounded(n.children@);
}

proof fn lemma_collect_children_bounded(s: Seq<UiNode>)
    ensures
        collect_children(s).len() <= subtree_count(s),
        (collect_children(s).len() == subtree_count(s)) <==> all_displayable_seq(s),
    decreases s,
{
    if s.len() == 0 {
    } else {
        lemma_collect_bounded(s[0]);
        lemma_collect_children_bounded(s.drop_first());
    }
}

} // verus!
