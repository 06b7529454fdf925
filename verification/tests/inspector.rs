use ui_inspector::{
    clone_record, collect_element_info, compute_label_rect, get_control_type_name, handle_event,
    i64_to_string, make_label, render_plan, sort_records_by_area, startup_decision, trace_element_info,
    trace_line, u64_to_string, DrawOp, ElementRecord, ElementStore, OverlayAction, OverlayEvent,
    Rect, StartupDecision, UiNode,
};

fn rect(left: i32, top: i32, right: i32, bottom: i32) -> Rect {
    Rect { left, top, right, bottom }
}

fn leaf(name: &str, control_type: i32, r: Rect) -> UiNode {
    UiNode { name: String::from(name), control_type, rect: r, children: Vec::new() }
}

fn record(label: &str, r: Rect) -> ElementRecord {
    ElementRecord { rect: r, label: String::from(label) }
}

#[test]
fn classify_known_ids() {
    assert_eq!(get_control_type_name(50000), "Button");
    assert_eq!(get_control_type_name(50004), "Edit");
    assert_eq!(get_control_type_name(50026), "Group");
    assert_eq!(get_control_type_name(50020), "Text");
    assert_eq!(get_control_type_name(50032), "Window");
    assert_eq!(get_control_type_name(50003), "ComboBox");
    assert_eq!(get_control_type_name(50006), "List");
    assert_eq!(get_control_type_name(50007), "ListItem");
    assert_eq!(get_control_type_name(50008), "Menu");
    assert_eq!(get_control_type_name(50009), "MenuBar");
    assert_eq!(get_control_type_name(50010), "MenuItem");
    assert_eq!(get_control_type_name(50011), "ProgressBar");
    assert_eq!(get_control_type_name(50012), "RadioButton");
    assert_eq!(get_control_type_name(50013), "ScrollBar");
    assert_eq!(get_control_type_name(50014), "Slider");
    assert_eq!(get_control_type_name(50015), "Spinner");
    assert_eq!(get_control_type_name(50016), "StatusBar");
    assert_eq!(get_control_type_name(50018), "Tab");
    assert_eq!(get_control_type_name(50019), "TabItem");
    assert_eq!(get_control_type_name(50025), "TreeItem");
    assert_eq!(get_control_type_name(50023), "ToolBar");
    assert_eq!(get_control_type_name(50024), "ToolTip");
    assert_eq!(get_control_type_name(50033), "Hyperlink");
    assert_eq!(get_control_type_name(50034), "CheckBox");
}

#[test]
fn classify_is_total_and_nonempty() {
    let ids = [i32::MIN, -1, 0, 1, 49999, 50001, 50002, 50017, 50021, 50022, 50035, i32::MAX];
    for id in ids {
        assert!(!get_control_type_name(id).is_empty());
    }
    assert_eq!(get_control_type_name(-1), "Other");
    assert_eq!(get_control_type_name(0), "Other");
    assert_eq!(get_control_type_name(50001), "Other");
}

#[test]
fn decimal_rendering() {
    assert_eq!(u64_to_string(0), "0");
    assert_eq!(u64_to_string(7), "7");
    assert_eq!(u64_to_string(105), "105");
    assert_eq!(u64_to_string(u64::MAX), "18446744073709551615");
    assert_eq!(i64_to_string(0), "0");
    assert_eq!(i64_to_string(-1), "-1");
    assert_eq!(i64_to_string(2147483647), "2147483647");
    assert_eq!(i64_to_string(-2147483648), "-2147483648");
    assert_eq!(i64_to_string(i64::MIN), "-9223372036854775808");
}

#[test]
fn label_text() {
    assert_eq!(make_label(50000, "OK"), "Button (OK)");
    assert_eq!(make_label(12345, ""), "Other ()");
}

#[test]
fn single_root_collect_and_trace() {
    let root = leaf("Root", 50032, rect(0, 0, 100, 100));
    let mut records: Vec<ElementRecord> = Vec::new();
    collect_element_info(&root, &mut records);
    assert_eq!(records.len(), 1);
    assert_eq!(records[0].rect, rect(0, 0, 100, 100));
    assert_eq!(records[0].label, "Window (Root)");

    let mut lines: Vec<String> = Vec::new();
    trace_element_info(&root, 0, &mut lines);
    assert_eq!(lines.len(), 1);
    assert_eq!(
        lines[0],
        "Type: Window (50032), Name: Root, Position: x=0-100, y=0-100 (100x100)"
    );
    assert!(lines[0].contains("Window"));
    assert!(!lines[0].starts_with(' '));
}

#[test]
fn trace_indents_by_depth() {
    let child = leaf("Inner", 50000, rect(5, 5, 30, 30));
    let root = UiNode {
        name: String::from("Outer"),
        control_type: 50032,
        rect: rect(0, 0, 100, 100),
        children: vec![child],
    };
    let mut lines: Vec<String> = Vec::new();
    trace_element_info(&root, 0, &mut lines);
    assert_eq!(lines.len(), 2);
    assert!(lines[0].starts_with("Type: Window (50032), Name: Outer"));
    assert!(lines[1].starts_with("  Type: Button (50000), Name: Inner"));
    assert_eq!(lines[1], "  Type: Button (50000), Name: Inner, Position: x=5-30, y=5-30 (25x25)");
}

#[test]
fn trace_line_negative_coordinates() {
    let node = leaf("Off", 50020, rect(-10, -5, 10, 5));
    let line = trace_line(&node, 1);
    assert_eq!(line, "  Type: Text (50020), Name: Off, Position: x=-10-10, y=-5-5 (20x10)");
}

#[test]
fn zero_width_node_traced_but_not_collected() {
    let degenerate = leaf("Thin", 50020, rect(10, 10, 10, 50));
    let root = UiNode {
        name: String::from("Root"),
        control_type: 50032,
        rect: rect(0, 0, 100, 100),
        children: vec![degenerate],
    };
    let mut records: Vec<ElementRecord> = Vec::new();
    collect_element_info(&root, &mut records);
    assert_eq!(records.len(), 1);
    assert_eq!(records[0].label, "Window (Root)");

    let mut lines: Vec<String> = Vec::new();
    trace_element_info(&root, 0, &mut lines);
    assert_eq!(lines.len(), 2);
    assert!(lines[1].contains("Thin"));
    assert!(lines[1].contains("x=10-10"));
    assert!(lines[1].contains("(0x40)"));

    let ops: Vec<DrawOp> = render_plan(records);
    assert_eq!(ops.len(), 1);
    assert_eq!(ops[0].text, "Window (Root) (0,0)");
}

#[test]
fn collect_count_bounded_by_node_count() {
    let a = leaf("A", 50000, rect(0, 0, 10, 10));
    let b = leaf("B", 50000, rect(0, 0, 0, 0));
    let c = leaf("C", 50000, rect(3, 3, 9, 9));
    let mid = UiNode {
        name: String::from("Mid"),
        control_type: 50026,
        rect: rect(1, 1, 2, 0),
        children: vec![b, c],
    };
    let root = UiNode {
        name: String::from("Root"),
        control_type: 50032,
        rect: rect(0, 0, 100, 100),
        children: vec![a, mid],
    };
    let mut records: Vec<ElementRecord> = Vec::new();
    collect_element_info(&root, &mut records);
    // five nodes, two of them degenerate
    assert_eq!(records.len(), 3);
    let labels: Vec<&str> = records.iter().map(|r| r.label.as_str()).collect();
    assert_eq!(labels, ["Window (Root)", "Button (A)", "Button (C)"]);
}

#[test]
fn collect_count_equals_node_count_when_all_displayable() {
    let a = leaf("A", 50000, rect(0, 0, 10, 10));
    let b = leaf("B", 50004, rect(1, 1, 4, 4));
    let root = UiNode {
        name: String::from("Root"),
        control_type: 50032,
        rect: rect(0, 0, 100, 100),
        children: vec![a, b],
    };
    let mut records: Vec<ElementRecord> = Vec::new();
    collect_element_info(&root, &mut records);
    assert_eq!(records.len(), 3);
}

#[test]
fn sort_is_descending_by_area() {
    let records = vec![
        record("small", rect(0, 0, 2, 2)),
        record("large", rect(0, 0, 100, 100)),
        record("medium", rect(0, 0, 10, 10)),
    ];
    let sorted = sort_records_by_area(records);
    let labels: Vec<&str> = sorted.iter().map(|r| r.label.as_str()).collect();
    assert_eq!(labels, ["large", "medium", "small"]);
}

#[test]
fn sort_keeps_equal_areas_in_input_order() {
    let records = vec![
        record("first", rect(0, 0, 4, 4)),
        record("second", rect(10, 10, 14, 14)),
        record("big", rect(0, 0, 50, 50)),
        record("third", rect(20, 0, 24, 4)),
    ];
    let sorted = sort_records_by_area(records);
    let labels: Vec<&str> = sorted.iter().map(|r| r.label.as_str()).collect();
    assert_eq!(labels, ["big", "first", "second", "third"]);
}

#[test]
fn container_drawn_before_contained_child() {
    let records = vec![
        record("child", rect(40, 40, 50, 50)),
        record("root", rect(0, 0, 100, 100)),
    ];
    let ops = render_plan(records);
    assert_eq!(ops.len(), 2);
    // the larger box is issued first, so the child stays visible on top
    assert_eq!(ops[0].rect, rect(0, 0, 100, 100));
    assert!(ops[0].text.starts_with("root"));
    assert_eq!(ops[1].rect, rect(40, 40, 50, 50));
    assert!(ops[1].text.starts_with("child"));
}

#[test]
fn render_plan_text_and_label_rect() {
    let records = vec![record("Button (OK)", rect(10, 20, 110, 120))];
    let ops = render_plan(records);
    assert_eq!(ops.len(), 1);
    assert_eq!(ops[0].text, "Button (OK) (10,20)");
    assert_eq!(ops[0].label_rect, rect(15, 25, 105, 45));
}

#[test]
fn render_plan_empty_input_draws_nothing() {
    let ops = render_plan(Vec::new());
    assert!(ops.is_empty());
}

#[test]
fn label_inside_tall_boxes() {
    // height 100 > 25: label is inset 5 from the top-left, inside
    let lr = compute_label_rect(&rect(10, 20, 110, 120));
    assert_eq!(lr, rect(15, 25, 105, 45));
}

#[test]
fn label_above_short_boxes() {
    // height 20 <= 25: label sits 20 units above the box
    let lr = compute_label_rect(&rect(10, 30, 110, 50));
    assert_eq!(lr, rect(15, 10, 105, 30));
}

#[test]
fn label_top_clamped_at_zero() {
    // height 20 <= 25 and top 10 < 20: the label top clamps to 0
    let lr = compute_label_rect(&rect(10, 10, 110, 30));
    assert_eq!(lr.top, 0);
    assert_eq!(lr.bottom, 10);
}

#[test]
fn snapshot_twice_without_set_is_equal() {
    let mut store = ElementStore::new();
    store.set(vec![
        record("one", rect(0, 0, 5, 5)),
        record("two", rect(1, 1, 9, 9)),
    ]);
    let first = store.snapshot();
    let second = store.snapshot();
    assert_eq!(first.len(), second.len());
    for (a, b) in first.iter().zip(second.iter()) {
        assert_eq!(a.rect, b.rect);
        assert_eq!(a.label, b.label);
    }
}

#[test]
fn snapshot_is_a_copy_not_an_alias() {
    let mut store = ElementStore::new();
    store.set(vec![record("one", rect(0, 0, 5, 5))]);
    let mut first = store.snapshot();
    first.clear();
    let second = store.snapshot();
    assert_eq!(second.len(), 1);
}

#[test]
fn set_replaces_wholesale() {
    let mut store = ElementStore::new();
    assert!(store.snapshot().is_empty());
    store.set(vec![record("one", rect(0, 0, 5, 5))]);
    store.set(vec![record("two", rect(1, 1, 9, 9)), record("three", rect(2, 2, 4, 4))]);
    let snap = store.snapshot();
    assert_eq!(snap.len(), 2);
    assert_eq!(snap[0].label, "two");
}

#[test]
fn clone_record_copies_fields() {
    let original = record("Button (OK)", rect(1, 2, 3, 4));
    let copy = clone_record(&original);
    assert_eq!(copy.rect, original.rect);
    assert_eq!(copy.label, original.label);
}

#[test]
fn events_map_to_actions() {
    assert_eq!(handle_event(&OverlayEvent::Paint), OverlayAction::Repaint);
    assert_eq!(handle_event(&OverlayEvent::CharInput('q')), OverlayAction::CloseWindow);
    assert_eq!(handle_event(&OverlayEvent::CharInput('Q')), OverlayAction::CloseWindow);
    assert_eq!(handle_event(&OverlayEvent::CharInput('x')), OverlayAction::Ignore);
    assert_eq!(handle_event(&OverlayEvent::Destroy), OverlayAction::QuitLoop);
    assert_eq!(handle_event(&OverlayEvent::Other), OverlayAction::Default);
}

#[test]
fn startup_without_target_prints_usage() {
    assert_eq!(startup_decision(1, false), StartupDecision::Usage);
    assert_eq!(startup_decision(1, true), StartupDecision::Usage);
}

#[test]
fn startup_target_not_found_reports_and_succeeds() {
    // a missing window is a reported, non-fatal condition: no overlay
    assert_eq!(startup_decision(2, false), StartupDecision::NotFound);
}

#[test]
fn startup_target_found_inspects() {
    assert_eq!(startup_decision(2, true), StartupDecision::Inspect);
    assert_eq!(startup_decision(5, true), StartupDecision::Inspect);
}

#[test]
fn label_threshold_boundary() {
    // height exactly 25 counts as short: label above the box
    let at = compute_label_rect(&rect(0, 100, 50, 125));
    assert_eq!(at.top, 80);
    assert_eq!(at.bottom, 100);
    // height 26 counts as tall: label inside the box
    let over = compute_label_rect(&rect(0, 100, 50, 126));
    assert_eq!(over.top, 105);
    assert_eq!(over.bottom, 125);
}

#[test]
fn label_rect_saturates_at_extreme_coordinates() {
    let lr = compute_label_rect(&rect(i32::MAX - 2, 0, i32::MAX, 100));
    assert_eq!(lr.left, i32::MAX);
    assert_eq!(lr.right, i32::MAX - 5);
    assert_eq!(lr.top, 5);
}

#[test]
fn render_skips_degenerate_records() {
    let records = vec![
        record("flat", rect(5, 5, 50, 5)),
        record("solid", rect(0, 0, 10, 10)),
        record("inverted", rect(9, 9, 3, 3)),
    ];
    let ops = render_plan(records);
    assert_eq!(ops.len(), 1);
    assert!(ops[0].text.starts_with("solid"));
}

#[test]
fn traversal_is_depth_first_preorder() {
    let b = leaf("B", 50000, rect(2, 2, 4, 4));
    let a = UiNode {
        name: String::from("A"),
        control_type: 50026,
        rect: rect(1, 1, 20, 20),
        children: vec![b],
    };
    let c = leaf("C", 50004, rect(30, 30, 40, 40));
    let root = UiNode {
        name: String::from("Root"),
        control_type: 50032,
        rect: rect(0, 0, 100, 100),
        children: vec![a, c],
    };

    let mut lines: Vec<String> = Vec::new();
    trace_element_info(&root, 0, &mut lines);
    assert_eq!(lines.len(), 4);
    assert!(lines[0].contains("Name: Root"));
    assert!(lines[1].contains("Name: A"));
    assert!(lines[2].contains("Name: B"));
    assert!(lines[3].contains("Name: C"));
    assert!(lines[2].starts_with("    Type:"));

    let mut records: Vec<ElementRecord> = Vec::new();
    collect_element_info(&root, &mut records);
    let labels: Vec<&str> = records.iter().map(|r| r.label.as_str()).collect();
    assert_eq!(labels, ["Window (Root)", "Group (A)", "Button (B)", "Edit (C)"]);
}
