use vstd::prelude::*;
use vstd::multiset::Multiset;
use vstd::seq_lib::lemma_multiset_commutative;
use vstd::seq_lib::group_to_multiset_ensures;
use vstd::string::*;
use crate::numfmt::{dec_int, i64_to_string};
use crate::rect::Rect;
use crate::record::{views_of, ElementRecord, RecordView};

verus! {

/// The area of a record's bounding rectangle.
pub open spec fn area_of(r: RecordView) -> int {
    r.rect.area()
}

/// The predicate selecting records of one given area.
pub open spec fn area_pred(a: int) -> spec_fn(RecordView) -> bool {
    |r: RecordView| area_of(r) == a
}

/// Insert `e` into `s` before the first element whose area does not
/// exceed `e`'s.  On a sequence sorted by descending area this keeps the
/// order and places `e` before every element of equal area.
pub open spec fn insert_by_area(e: RecordView, s: Seq<RecordView>) -> Seq<RecordView>
    decreases s,
{
    if s.len() == 0 {
        seq![e]
    } else if area_of(s[0]) > area_of(e) {
        seq![s[0]] + insert_by_area(e, s.drop_first())
    } else {
        seq![e] + s
    }
}

/// The position at which `insert_by_area` places its element: the number
/// of leading elements with area strictly greater than `e`'s.
pub open spec fn insert_pos(e: RecordView, s: Seq<RecordView>) -> int
    decreases s,
{
    if s.len() == 0 {
        0
    } else if area_of(s[0]) > area_of(e) {
        1 + insert_pos(e, s.drop_first())
    } else {
        0
    }
}

/// Stable insertion sort by descending area.
pub open spec fn sort_by_area(s: Seq<RecordView>) -> Seq<RecordView>
    decreases s,
{
    if s.len() == 0 {
        Seq::empty()
    } else {
        insert_by_area(s[0], sort_by_area(s.drop_first()))
    }
}

/// Areas never increase along the sequence.
pub open spec fn sorted_desc(s: Seq<RecordView>) -> bool {
    forall|i: int, j: int| 0 <= i < j < s.len() ==> area_of(s[i]) >= area_of(s[j])
}

proof fn lemma_insert_shape(e: RecordView, s: Seq<RecordView>)
    ensures
        0 <= insert_pos(e, s) <= s.len(),
        forall|k: int| 0 <= k < insert_pos(e, s) ==> area_of(s[k]) > area_of(e),
        insert_pos(e, s) < s.len() ==> area_of(s[insert_pos(e, s)]) <= area_of(e),
        insert_by_area(e, s) == s.take(insert_pos(e, s)) + seq![e] + s.skip(insert_pos(e, s)),
    decreases s,
{
    if s.len() == 0 {
        assert(insert_by_area(e, s) =~= s.take(0) + seq![e] + s.skip(0));
    } else if area_of(s[0]) > area_of(e) {
        let t = s.drop_first();
        lemma_insert_shape(e, t);
        let p = insert_pos(e, t);
        assert(seq![s[0]] + (t.take(p) + seq![e] + t.skip(p))
            =~= s.take(1 + p) + seq![e] + s.skip(1 + p));
        assert forall|k: int| 0 <= k < 1 + p implies area_of(s[k]) > area_of(e) by {
            if k > 0 {
                assert(s[k] == t[k - 1]);
            }
        }
        assert(insert_pos(e, s) < s.len() ==> area_of(s[insert_pos(e, s)]) <= area_of(e));
    } else {
        assert(insert_by_area(e, s) =~= s.take(0) + seq![e] + s.skip(0));
    }
}

proof fn lemma_insert_sorted(e: RecordView, s: Seq<RecordView>)
    requires
        sorted_desc(s),
    ensures
        sorted_desc(insert_by_area(e, s)),
{
    lemma_insert_shape(e, s);
    let p = insert_pos(e, s);
    let out = insert_by_area(e, s);
    assert forall|i: int, j: int| 0 <= i < j < out.len() implies
        area_of(out[i]) >= area_of(out[j]) by {
        assert(out[i] == if i < p { s[i] } else if i == p { e } else { s[i - 1] });
        assert(out[j] == if j < p { s[j] } else if j == p { e } else { s[j - 1] });
        if i < p && j == p {
            assert(area_of(s[i]) > area_of(e));
        } else if i < p && j > p {
            if i < j - 1 {
                assert(area_of(s[i]) >= area_of(s[j - 1]));
            }
        } else if i == p && j > p {
            assert(area_of(s[p]) <= area_of(e));
            if p < j - 1 {
                assert(area_of(s[p]) >= area_of(s[j - 1]));
            }
        }
    }
}

proof fn lemma_insert_multiset(e: RecordView, s: Seq<RecordView>)
    ensures
        insert_by_area(e, s).to_multiset() =~= s.to_multiset().insert(e),
{
    broadcast use group_to_multiset_ensures;

    lemma_insert_shape(e, s);
    let p = insert_pos(e, s);
    lemma_multiset_commutative(s.take(p) + seq![e], s.skip(p));
    lemma_multiset_commutative(s.take(p), seq![e]);
    lemma_multiset_commutative(s.take(p), s.skip(p));
    assert(s.take(p) + s.skip(p) =~= s);
    assert(seq![e] =~= Seq::<RecordView>::empty().push(e));
    assert(Seq::<RecordView>::empty().push(e).to_multiset()
        =~= Seq::<RecordView>::empty().to_multiset().insert(e));
    assert(Seq::<RecordView>::empty().to_multiset() =~= Multiset::<RecordView>::empty());
    assert(insert_by_area(e, s).to_multiset() =~= s.to_multiset().insert(e));
}

proof fn lemma_filter_singleton(x: RecordView, p: spec_fn(RecordView) -> bool)
    ensures
        seq![x].filter(p) == (if p(x) { seq![x] } else { Seq::<RecordView>::empty() }),
{
    reveal_with_fuel(Seq::filter, 2);
    assert(seq![x].drop_last() =~= Seq::<RecordView>::empty());
    if p(x) {
        assert(seq![x].filter(p) =~= seq![x]);
    } else {
        assert(seq![x].filter(p) =~= Seq::<RecordView>::empty());
    }
}

proof fn lemma_filter_first(s: Seq<RecordView>, p: spec_fn(RecordView) -> bool)
    requires
        s.len() > 0,
    ensures
        s.filter(p) == (if p(s[0]) { seq![s[0]] } else { Seq::<RecordView>::empty() })
            + s.drop_first().filter(p),
{
    assert(s =~= seq![s[0]] + s.drop_first());
    Seq::filter_distributes_over_add(seq![s[0]], s.drop_first(), p);
    lemma_filter_singleton(s[0], p);
    if !p(s[0]) {
        assert(Seq::<RecordView>::empty() + s.drop_first().filter(p) =~= s.drop_first().filter(p));
    }
}

proof fn lemma_insert_filter(e: RecordView, s: Seq<RecordView>, a: int)
    ensures
        insert_by_area(e, s).filter(area_pred(a)) == (if area_of(e) == a {
            seq![e] + s.filter(area_pred(a))
        } else {
            s.filter(area_pred(a))
        }),
{
    let pred = area_pred(a);
    lemma_insert_shape(e, s);
    let p = insert_pos(e, s);
    let head = s.take(p);
    let tail = s.skip(p);
    Seq::filter_distributes_over_add(head + seq![e], tail, pred);
    Seq::filter_distributes_over_add(head, seq![e], pred);
    Seq::filter_distributes_over_add(head, tail, pred);
    assert(head + tail =~= s);
    lemma_filter_singleton(e, pred);
    if area_of(e) == a {
        // every element before the insertion point is strictly larger,
        // so none of them has area `a`
        head.lemma_all_neg_filter_empty(pred);
        assert(insert_by_area(e, s).filter(pred) =~= seq![e] + s.filter(pred));
    } else {
        assert(insert_by_area(e, s).filter(pred) =~= s.filter(pred));
    }
}

/// The draw-order law.  Sorting by area yields a permutation of the
/// input that is descending by area; records of equal area keep their
/// relative input order (for each area, the subsequence of records of
/// that area is unchanged).
pub proof fn lemma_sort_by_area_correct(s: Seq<RecordView>)
    ensures
        sort_by_area(s).len() == s.len(),
        sorted_desc(sort_by_area(s)),
        sort_by_area(s).to_multiset() =~= s.to_multiset(),
        forall|a: int| #[trigger] sort_by_area(s).filter(area_pred(a)) == s.filter(area_pred(a)),
    decreases s,
{
    broadcast use group_to_multiset_ensures;

    if s.len() == 0 {
        assert(sort_by_area(s).to_multiset() =~= s.to_multiset());
        assert forall|a: int| #[trigger] sort_by_area(s).filter(area_pred(a))
            == s.filter(area_pred(a)) by {
        }
    } else {
        let t = s.drop_first();
        lemma_sort_by_area_correct(t);
        lemma_insert_shape(s[0], sort_by_area(t));
        lemma_insert_sorted(s[0], sort_by_area(t));
        lemma_insert_multiset(s[0], sort_by_area(t));
        assert(s =~= seq![s[0]] + t);
        lemma_multiset_commutative(seq![s[0]], t);
        assert(seq![s[0]] =~= Seq::<RecordView>::empty().push(s[0]));
        assert(sort_by_area(s).to_multiset() =~= s.to_multiset());
        assert forall|a: int| #[trigger] sort_by_area(s).filter(area_pred(a))
            == s.filter(area_pred(a)) by {
            lemma_insert_filter(s[0], sort_by_area(t), a);
            lemma_filter_first(s, area_pred(a));
        }
    }
}

proof fn lemma_insert_pos_unique(e: RecordView, s: Seq<RecordView>, i: int)
    requires
        0 <= i <= s.len(),
        forall|k: int| 0 <= k < i ==> area_of(s[k]) > area_of(e),
        i < s.len() ==> area_of(s[i]) <= area_of(e),
    ensures
        insert_pos(e, s) == i,
    decreases s,
{
    if s.len() == 0 {
    } else if i == 0 {
    } else {
        let t = s.drop_first();
        assert forall|k: int| 0 <= k < i - 1 implies area_of(t[k]) > area_of(e) by {
            assert(t[k] == s[k + 1]);
        }
        assert(i - 1 < t.len() ==> area_of(t[i - 1]) <= area_of(e));
        lemma_insert_pos_unique(e, t, i - 1);
    }
}

fn find_insert_pos(e_area: i128, v: &Vec<ElementRecord>) -> (i: usize)
    ensures
        0 <= i <= v@.len(),
        forall|k: int| 0 <= k < i ==> area_of(views_of(v@)[k]) > e_area,
        i < v@.len() ==> area_of(views_of(v@)[i as int]) <= e_area,
{
    let n = v.len();
    let mut i: usize = 0;
    while i < n
        invariant
            n == v@.len(),
            i <= n,
            forall|k: int| 0 <= k < i ==> area_of(views_of(v@)[k]) > e_area,
        decreases n - i,
    {
        if v[i].rect.area_i128() <= e_area {
            return i;
        }
        i = i + 1;
    }
    i
}

proof fn lemma_views_insert(s: Seq<ElementRecord>, i: int, e: ElementRecord)
    requires
        0 <= i <= s.len(),
    ensures
        views_of(s.insert(i, e)) =~= views_of(s).take(i) + seq![e@] + views_of(s).skip(i),
{
    s.insert_ensures(i, e);
    assert(views_of(s).len() == s.len());
    assert forall|k: int| 0 <= k < s.len() + 1 implies
        views_of(s.insert(i, e))[k]
            == (views_of(s).take(i) + seq![e@] + views_of(s).skip(i))[k] by {
        if k < i {
            assert(s.insert(i, e)[k] == s[k]);
        } else if k == i {
            assert(s.insert(i, e)[k] == e);
        } else {
            assert(s.insert(i, e)[k] == s[k - 1]);
        }
    }
}

fn insert_record_by_area(e: ElementRecord, v: Vec<ElementRecord>) -> (out: Vec<ElementRecord>)
    ensures
        views_of(out@) == insert_by_area(e@, views_of(v@)),
{
    let ghost orig = views_of(v@);
    let ea = e.rect.area_i128();
    let i = find_insert_pos(ea, &v);
    let mut out = v;
    let ghost pre = out@;
    out.insert(i, e);
    proof {
        lemma_insert_pos_unique(e@, orig, i as int);
        lemma_insert_shape(e@, orig);
        lemma_views_insert(pre, i as int, e);
        assert(views_of(out@) =~= insert_by_area(e@, orig));
    }
    out
}

/// Sort records by bounding-box area, largest first; records of equal
/// area keep their relative order.
pub fn sort_records_by_area(records: Vec<ElementRecord>) -> (out: Vec<ElementRecord>)
    ensures
        views_of(out@) == sort_by_area(views_of(records@)),
    decreases records@.len(),
{
    let ghost orig = views_of(records@);
    if records.len() == 0 {
        proof {
            assert(views_of(records@) =~= Seq::<RecordView>::empty());
            assert(sort_by_area(orig) =~= orig);
        }
        records
    } else {
        let mut rest = records;
        let first = rest.remove(0);
        proof {
            assert(views_of(rest@) =~= orig.drop_first());
        }
        let sorted = sort_records_by_area(rest);
        let out = insert_record_by_area(first, sorted);
        proof {
            assert(first@ == orig[0]);
        }
        out
    }
}

/// Clamp a mathematical integer into the `i32` range.
pub open spec fn sat_i32(x: int) -> int {
    if x > i32::MAX as int {
        i32::MAX as int
    } else if x < i32::MIN as int {
        i32::MIN as int
    } else {
        x
    }
}

/// Where the label's top edge goes: inset 5 from the top inside boxes
/// taller than 25 units, else 20 units above the box, never above the
/// screen top (clamped at 0).
pub open spec fn label_top(r: Rect) -> int {
    if r.bottom - r.top > 25 {
        sat_i32(r.top + 5)
    } else if r.top - 20 >= 0 {
        r.top - 20
    } else {
        0
    }
}

/// The label's bottom edge: 25 units under the box top for tall boxes,
/// else the box top itself.
pub open spec fn label_bottom(r: Rect) -> int {
    if r.bottom - r.top > 25 {
        sat_i32(r.top + 25)
    } else {
        r.top as int
    }
}

/// The label placement rectangle for a box: horizontal bounds inset 5
/// units from each side, vertical bounds per `label_top`/`label_bottom`.
pub open spec fn label_rect_of(r: Rect) -> Rect {
    Rect {
        left: sat_i32(r.left + 5) as i32,
        top: label_top(r) as i32,
        right: sat_i32(r.right - 5) as i32,
        bottom: label_bottom(r) as i32,
    }
}

/// The label-placement law: boxes taller than 25 units carry their label
/// 5 units under their top edge; smaller boxes carry it 20 units above,
/// clamped at 0 and never negative.
pub proof fn lemma_label_placement(r: Rect)
    ensures
        r.bottom - r.top > 25 && r.top + 5 <= i32::MAX ==> label_rect_of(r).top == r.top + 5,
        r.bottom - r.top <= 25 ==> label_rect_of(r).top == (if r.top - 20 >= 0 {
            r.top - 20
        } else {
            0
        }),
        r.bottom - r.top <= 25 ==> label_rect_of(r).top >= 0,
{
}

fn clamp_i32(x: i64) -> (r: i32)
    ensures
        r as int == sat_i32(x as int),
{
    if x > i32::MAX as i64 {
        i32::MAX
    } else if x < i32::MIN as i64 {
        i32::MIN
    } else {
        x as i32
    }
}

/// Compute the label placement rectangle for a box.
pub fn compute_label_rect(r: &Rect) -> (lr: Rect)
    ensures
        lr == label_rect_of(*r),
{
    let h: i64 = (r.bottom as i64) - (r.top as i64);
    let left = clamp_i32((r.left as i64) + 5);
    let right = clamp_i32((r.right as i64) - 5);
    if h > 25 {
        let top = clamp_i32((r.top as i64) + 5);
        let bottom = clamp_i32((r.top as i64) + 25);
        Rect { left, top, right, bottom }
    } else {
        let t: i64 = (r.top as i64) - 20;
        let top: i32 = if t >= 0 { t as i32 } else { 0 };
        Rect { left, top, right, bottom: r.top }
    }
}

/// One drawing command of a frame: the outlined box, the label
/// rectangle, and the label text.
pub struct DrawOp {
    pub rect: Rect,
    pub label_rect: Rect,
    pub text: String,
}

/// The mathematical content of a `DrawOp`.
pub ghost struct DrawOpView {
    pub rect: Rect,
    pub label_rect: Rect,
    pub text: Seq<char>,
}

impl View for DrawOp {
    type V = DrawOpView;

    open spec fn view(&self) -> DrawOpView {
        DrawOpView { rect: self.rect, label_rect: self.label_rect, text: self.text@ }
    }
}

/// The views of a sequence of drawing commands.
pub open spec fn op_views(s: Seq<DrawOp>) -> Seq<DrawOpView> {
    s.map_values(|o: DrawOp| o@)
}

/// The text drawn for a record: its label, then "(left,top)".
pub open spec fn op_text(r: RecordView) -> Seq<char> {
    r.label + " ("@ + dec_int(r.rect.left as int) + ","@ + dec_int(r.rect.top as int) + ")"@
}

/// The drawing command for one record.
pub open spec fn op_of(r: RecordView) -> DrawOpView {
    DrawOpView { rect: r.rect, label_rect: label_rect_of(r.rect), text: op_text(r) }
}

/// The predicate selecting records whose box can be drawn.
pub open spec fn displayable_pred() -> spec_fn(RecordView) -> bool {
    |r: RecordView| r.rect.displayable()
}

/// The commands issued for a sequence of records, in issue order.
pub open spec fn plan_of(s: Seq<RecordView>) -> Seq<DrawOpView> {
    s.filter(displayable_pred()).map_values(|r: RecordView| op_of(r))
}

/// The full frame plan: records sorted by descending area, degenerate
/// rectangles left out, one command per remaining record.
pub open spec fn plan_spec(s: Seq<RecordView>) -> Seq<DrawOpView> {
    plan_of(sort_by_area(s))
}

proof fn lemma_plan_of_take_step(s: Seq<RecordView>, i: int)
    requires
        0 <= i < s.len(),
    ensures
        plan_of(s.take(i + 1)) == plan_of(s.take(i)) + (if s[i].rect.displayable() {
            seq![op_of(s[i])]
        } else {
            Seq::<DrawOpView>::empty()
        }),
    decreases i,
{
    let pred = displayable_pred();
    assert(s.take(i + 1) =~= s.take(i) + seq![s[i]]);
    Seq::filter_distributes_over_add(s.take(i), seq![s[i]], pred);
    lemma_filter_singleton(s[i], pred);
    assert(plan_of(s.take(i + 1)) =~= plan_of(s.take(i)) + (if s[i].rect.displayable() {
        seq![op_of(s[i])]
    } else {
        Seq::<DrawOpView>::empty()
    }));
}

/// Build the drawing commands for one frame from the collected records:
/// sort them by descending area, leave out degenerate rectangles, and
/// give each remaining record its box, label rectangle and label text.
pub fn render_plan(records: Vec<ElementRecord>) -> (ops: Vec<DrawOp>)
    ensures
        op_views(ops@) == plan_spec(views_of(records@)),
{
    let ghost orig = views_of(records@);
    let sorted = sort_records_by_area(records);
    let ghost sv = views_of(sorted@);
    let mut ops: Vec<DrawOp> = Vec::new();
    let n = sorted.len();
    let mut i: usize = 0;
    proof {
        assert(sv.take(0) =~= Seq::<RecordView>::empty());
        assert(op_views(ops@) =~= plan_of(sv.take(0)));
    }
    while i < n
        invariant
            n == sorted@.len(),
            i <= n,
            sv == views_of(sorted@),
            op_views(ops@) == plan_of(sv.take(i as int)),
        decreases n - i,
    {
        let ghost pre = ops@;
        let rect = sorted[i].rect;
        proof {
            assert(sv[i as int] == sorted@[i as int]@);
        }
        if rect.is_displayable() {
            let label_rect = compute_label_rect(&rect);
            let text = sorted[i].label.clone()
                .concat(" (")
                .concat(i64_to_string(rect.left as i64).as_str())
                .concat(",")
                .concat(i64_to_string(rect.top as i64).as_str())
                .concat(")");
            proof {
                assert(text@ =~= op_text(sv[i as int]));
            }
            let op = DrawOp { rect, label_rect, text };
            ops.push(op);
            proof {
                assert(ops@ == pre.push(op));
                assert(op_views(pre).len() == pre.len());
                assert forall|k: int| 0 <= k < ops@.len() implies
                    op_views(ops@)[k] == (op_views(pre) + seq![op@])[k] by {
                    if k < pre.len() {
                        assert(ops@[k] == pre[k]);
                    } else {
                        assert(ops@[k] == op);
                    }
                }
                assert(op_views(ops@) =~= op_views(pre) + seq![op_of(sv[i as int])]);
            }
        }
        proof {
            lemma_plan_of_take_step(sv, i as int);
            assert(op_views(ops@) =~= plan_of(sv.take(i as int + 1)));
        }
        i = i + 1;
    }
    proof {
        assert(sv.take(n as int) =~= sv);
        lemma_sort_by_area_correct(orig);
    }
    ops
}

} // verus!
