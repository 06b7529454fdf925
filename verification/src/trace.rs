use vstd::prelude::*;
use vstd::string::*;
use crate::classify::{get_control_type_name, spec_control_type_name};
use crate::numfmt::{dec_int, i64_to_string};
use crate::rect::Rect;
use crate::tree::{height_children, node_height, subtree_count, node_count, UiNode};

verus! {

/// Two spaces of indentation for each level of depth.
pub open spec fn indent(depth: nat) -> Seq<char>
    decreases depth,
{
    if depth == 0 {
        Seq::empty()
    } else {
        "  "@ + indent((depth - 1) as nat)
    }
}

/// The position field of a trace line:
/// `x=<left>-<right>, y=<top>-<bottom> (<width>x<height>)`.
pub open spec fn position_text(r: Rect) -> Seq<char> {
    "x="@ + dec_int(r.left as int) + "-"@ + dec_int(r.right as int) + ", y="@
        + dec_int(r.top as int) + "-"@ + dec_int(r.bottom as int) + " ("@
        + dec_int(r.right - r.left) + "x"@ + dec_int(r.bottom - r.top) + ")"@
}

/// The full trace line for one node at a given depth:
/// `Type: <Category> (<NumericId>), Name: <Name>, Position: <position>`.
pub open spec fn trace_line_of(n: UiNode, depth: nat) -> Seq<char> {
    indent(depth) + "Type: "@ + spec_control_type_name(n.control_type) + " ("@
        + dec_int(n.control_type as int) + "), Name: "@ + n.name@ + ", Position: "@
        + position_text(n.rect)
}

/// The trace of the tree rooted at `n`: one line per node, depth-first,
/// pre-order, every node included whatever its rectangle.
pub open spec fn trace_spec(n: UiNode, depth: nat) -> Seq<Seq<char>>
    decreases n,
{
    seq![trace_line_of(n, depth)] + trace_children(n.children@, depth + 1)
}

/// The trace lines of the trees of `s`, in order.
pub open spec fn trace_children(s: Seq<UiNode>, depth: nat) -> Seq<Seq<char>>
    decreases s,
{
    if s.len() == 0 {
        Seq::empty()
    } else {
        trace_spec(s[0], depth) + trace_children(s.drop_first(), depth)
    }
}

/// The views of a sequence of owned lines.
pub open spec fn line_views(s: Seq<String>) -> Seq<Seq<char>> {
    s.map_values(|x: String| x@)
}

/// The trace covers the whole tree: one line for every node.
pub proof fn lemma_trace_complete(n: UiNode, depth: nat)
    ensures
        trace_spec(n, depth).len() == node_count(n),
    decreases n,
{
    lemma_trace_children_complete(n.children@, depth + 1);
}

proof fn lemma_trace_children_complete(s: Seq<UiNode>, depth: nat)
    ensures
        trace_children(s, depth).len() == subtree_count(s),
    decreases s,
{
    if s.len() == 0 {
    } else {
        lemma_trace_complete(s[0], depth);
        lemma_trace_children_complete(s.drop_first(), depth);
    }
}

proof fn lemma_indent_snoc(depth: nat)
    ensures
        indent(depth + 1) == indent(depth) + "  "@,
    decreases depth,
{
    if depth == 0 {
        assert(indent(1) =~= indent(0) + "  "@);
    } else {
        lemma_indent_snoc((depth - 1) as nat);
        assert(indent(depth + 1) =~= indent(depth) + "  "@);
    }
}

fn indent_string(depth: usize) -> (s: String)
    ensures
        s@ == indent(depth as nat),
{
    let mut s = String::new();
    let mut i: usize = 0;
    proof {
        assert(s@ =~= indent(0));
    }
    while i < depth
        invariant
            i <= depth,
            s@ == indent(i as nat),
        decreases depth - i,
    {
        s.append("  ");
        proof {
            lemma_indent_snoc(i as nat);
        }
        i = i + 1;
    }
    s
}

/// Build the trace line for one node at the given depth.
pub fn trace_line(element: &UiNode, depth: usize) -> (s: String)
    ensures
        s@ == trace_line_of(*element, depth as nat),
{
    let r = element.rect;
    let w: i64 = (r.right as i64) - (r.left as i64);
    let h: i64 = (r.bottom as i64) - (r.top as i64);
    let s = indent_string(depth)
        .concat("Type: ")
        .concat(get_control_type_name(element.control_type))
        .concat(" (")
        .concat(i64_to_string(element.control_type as i64).as_str())
        .concat("), Name: ")
        .concat(element.name.as_str())
        .concat(", Position: ")
        .concat("x=")
        .concat(i64_to_string(r.left as i64).as_str())
        .concat("-")
        .concat(i64_to_string(r.right as i64).as_str())
        .concat(", y=")
        .concat(i64_to_string(r.top as i64).as_str())
        .concat("-")
        .concat(i64_to_string(r.bottom as i64).as_str())
        .concat(" (")
        .concat(i64_to_string(w).as_str())
        .concat("x")
        .concat(i64_to_string(h).as_str())
        .concat(")");
    proof {
        assert(s@ =~= trace_line_of(*element, depth as nat));
    }
    s
}

proof fn lemma_trace_children_take(s: Seq<UiNode>, depth: nat, i: int)
    requires
        0 <= i < s.len(),
    ensures
        trace_children(s.take(i + 1), depth)
            == trace_children(s.take(i), depth) + trace_spec(s[i], depth),
    decreases i,
{
    if i == 0 {
        assert(s.take(0) =~= Seq::<UiNode>::empty());
        assert(s.take(1) =~= seq![s[0]]);
        assert(seq![s[0]].drop_first() =~= Seq::<UiNode>::empty());
        assert(trace_children(s.take(i + 1), depth)
            =~= trace_children(s.take(i), depth) + trace_spec(s[i], depth));
    } else {
        let t = s.drop_first();
        lemma_trace_children_take(t, depth, i - 1);
        assert(s.take(i + 1).drop_first() =~= t.take(i));
        assert(s.take(i).drop_first() =~= t.take(i - 1));
        assert(s.take(i + 1)[0] == s[0]);
        assert(s.take(i)[0] == s[0]);
        assert(trace_children(s.take(i + 1), depth)
            =~= trace_children(s.take(i), depth) + trace_spec(s[i], depth));
    }
}

proof fn lemma_height_children_ge(s: Seq<UiNode>, i: int)
    requires
        0 <= i < s.len(),
    ensures
        height_children(s) >= node_height(s[i]),
    decreases s,
{
    if i > 0 {
        lemma_height_children_ge(s.drop_first(), i - 1);
    }
}

/// Visit the tree rooted at `element` depth-first, pre-order, and append
/// one trace line per node, indented by its depth.  Nothing is filtered:
/// nodes with degenerate rectangles are traced like any other.
pub fn trace_element_info(element: &UiNode, depth: usize, lines: &mut Vec<String>)
    requires
        depth + node_height(*element) <= usize::MAX,
    ensures
        line_views(final(lines)@) == line_views(old(lines)@) + trace_spec(*element, depth as nat),
    decreases *element,
{
    let ghost pre = lines@;
    let line = trace_line(element, depth);
    lines.push(line);
    proof {
        assert(line_views(lines@) =~= line_views(pre) + seq![trace_line_of(*element, depth as nat)]);
        assert(element.children@.take(0) =~= Seq::<UiNode>::empty());
    }
    let n = element.children.len();
    let mut i: usize = 0;
    while i < n
        invariant
            n == element.children@.len(),
            i <= n,
            depth + node_height(*element) <= usize::MAX,
            line_views(lines@) == line_views(pre)
                + seq![trace_line_of(*element, depth as nat)]
                + trace_children(element.children@.take(i as int), depth as nat + 1),
        decreases n - i,
    {
        proof {
            lemma_height_children_ge(element.children@, i as int);
        }
        trace_element_info(&element.children[i], depth + 1, lines);
        proof {
            lemma_trace_children_take(element.children@, depth as nat + 1, i as int);
        }
        i = i + 1;
    }
    proof {
        assert(element.children@.take(n as int) =~= element.children@);
        assert(line_views(lines@) =~= line_views(pre) + trace_spec(*element, depth as nat));
    }
}

} // verus!
