use vstd::prelude::*;

verus! {

/// The category name for a numeric control-type identifier.  The table is
/// fixed by the accessibility standard; every unlisted identifier, negative
/// ones included, maps to "Other".
pub open spec fn spec_control_type_name(type_id: i32) -> Seq<char> {
    match type_id {
        50000 => "Button"@,
        50004 => "Edit"@,
        50026 => "Group"@,
        50020 => "Text"@,
        50032 => "Window"@,
        50003 => "ComboBox"@,
        50006 => "List"@,
        50007 => "ListItem"@,
        50008 => "Menu"@,
        50009 => "MenuBar"@,
        50010 => "MenuItem"@,
        50011 => "ProgressBar"@,
        50012 => "RadioButton"@,
        50013 => "ScrollBar"@,
        50014 => "Slider"@,
        50015 => "Spinner"@,
        50016 => "StatusBar"@,
        50018 => "Tab"@,
        50019 => "TabItem"@,
        50025 => "TreeItem"@,
        50023 => "ToolBar"@,
        50024 => "ToolTip"@,
        50033 => "Hyperlink"@,
        50034 => "CheckBox"@,
        _ => "Other"@,
    }
}

/// Classify a numeric control-type identifier into its category name.
/// Total over every integer: unknown identifiers yield "Other".
pub fn get_control_type_name(type_id: i32) -> (name: &'static str)
    ensures
        name@ == spec_control_type_name(type_id),
{
    match type_id {
        50000 => "Button",
        50004 => "Edit",
        50026 => "Group",
        50020 => "Text",
        50032 => "Window",
        50003 => "ComboBox",
        50006 => "List",
        50007 => "ListItem",
        50008 => "Menu",
        50009 => "MenuBar",
        50010 => "MenuItem",
        50011 => "ProgressBar",
        50012 => "RadioButton",
        50013 => "ScrollBar",
        50014 => "Slider",
        50015 => "Spinner",
        50016 => "StatusBar",
        50018 => "Tab",
        50019 => "TabItem",
        50025 => "TreeItem",
        50023 => "ToolBar",
        50024 => "ToolTip",
        50033 => "Hyperlink",
        50034 => "CheckBox",
        _ => "Other",
    }
}

/// Classification is total and never silent: whatever the identifier,
/// the category name is a non-empty string.
pub proof fn lemma_control_type_name_nonempty(type_id: i32)
    ensures
        spec_control_type_name(type_id).len() > 0,
{
    reveal_strlit("Button");
    reveal_strlit("Edit");
    reveal_strlit("Group");
    reveal_strlit("Text");
    reveal_strlit("Window");
    reveal_strlit("ComboBox");
    reveal_strlit("List");
    reveal_strlit("ListItem");
    reveal_strlit("Menu");
    reveal_strlit("MenuBar");
    reveal_strlit("MenuItem");
    reveal_strlit("ProgressBar");
    reveal_strlit("RadioButton");
    reveal_strlit("ScrollBar");
    reveal_strlit("Slider");
    reveal_strlit("Spinner");
    reveal_strlit("StatusBar");
    reveal_strlit("Tab");
    reveal_strlit("TabItem");
    reveal_strlit("TreeItem");
    reveal_strlit("ToolBar");
    reveal_strlit("ToolTip");
    reveal_strlit("Hyperlink");
    reveal_strlit("CheckBox");
    reveal_strlit("Other");
}

} // verus!
