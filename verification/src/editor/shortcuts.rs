//! The keyboard reference: every editing key, with what it does. It is the
//! documentation of what the editor's key handling accepts.

use vstd::prelude::*;

verus! {

/// One group of keys, as the reference shows them.
pub struct Group {
    pub title: &'static str,
    pub keys: Vec<(&'static str, &'static str)>,
}

pub open spec fn group_view(g: Group) -> (Seq<char>, Seq<(Seq<char>, Seq<char>)>) {
    (g.title@, g.keys@.map_values(|k: (&'static str, &'static str)| (k.0@, k.1@)))
}

/// The reference, group by group: each title with its keys and what they do.
pub open spec fn reference() -> Seq<(Seq<char>, Seq<(Seq<char>, Seq<char>)>)> {
    seq![
        ("Transport"@, seq![
            ("Space"@, "Play or pause"@),
            ("Esc"@, "Stop and return to the start of the loop"@),
            ("Home / End"@, "Jump to the start or the end"@),
            (", / ."@, "Previous or next marker"@),
            ("M"@, "Drop a marker at the playhead"@),
            ("L"@, "Toggle the loop region"@),
        ]),
        ("Selection and editing"@, seq![
            ("Tab / Shift+Tab"@, "Select the next or previous clip"@),
            ("Delete"@, "Delete the selected clip"@),
            ("Shift+Delete"@, "Delete it and close the gap"@),
            ("Ctrl+C / Ctrl+V"@, "Copy and paste clips"@),
            ("Ctrl+Z / Ctrl+Y"@, "Undo and redo"@),
            ("Ctrl+S"@, "Save"@),
        ]),
        ("View"@, seq![
            ("+ / -"@, "Zoom the timeline in and out"@),
            ("F"@, "Fit the whole project on screen"@),
            ("Ctrl + / Ctrl -"@, "Make the whole interface larger or smaller"@),
            ("Ctrl+0"@, "Reset the interface size"@),
            ("? or F1"@, "This list"@),
        ]),
    ]
}

/// The keyboard reference.
pub fn groups() -> (groups: Vec<Group>)
    ensures
        groups@.map_values(|g: Group| group_view(g)) == reference(),
{
    let mut groups: Vec<Group> = Vec::new();
    let mut keys: Vec<(&'static str, &'static str)> = Vec::new();
    keys.push(("Space", "Play or pause"));
    keys.push(("Esc", "Stop and return to the start of the loop"));
    keys.push(("Home / End", "Jump to the start or the end"));
    keys.push((", / .", "Previous or next marker"));
    keys.push(("M", "Drop a marker at the playhead"));
    keys.push(("L", "Toggle the loop region"));
    groups.push(Group { title: "Transport", keys });
    let mut keys: Vec<(&'static str, &'static str)> = Vec::new();
    keys.push(("Tab / Shift+Tab", "Select the next or previous clip"));
    keys.push(("Delete", "Delete the selected clip"));
    keys.push(("Shift+Delete", "Delete it and close the gap"));
    keys.push(("Ctrl+C / Ctrl+V", "Copy and paste clips"));
    keys.push(("Ctrl+Z / Ctrl+Y", "Undo and redo"));
    keys.push(("Ctrl+S", "Save"));
    groups.push(Group { title: "Selection and editing", keys });
    let mut keys: Vec<(&'static str, &'static str)> = Vec::new();
    keys.push(("+ / -", "Zoom the timeline in and out"));
    keys.push(("F", "Fit the whole project on screen"));
    keys.push(("Ctrl + / Ctrl -", "Make the whole interface larger or smaller"));
    keys.push(("Ctrl+0", "Reset the interface size"));
    keys.push(("? or F1", "This list"));
    groups.push(Group { title: "View", keys });
    assert(groups@.map_values(|g: Group| group_view(g)) =~= reference()) by {
        assert(group_view(groups@[0]).1 =~= reference()[0].1);
        assert(group_view(groups@[1]).1 =~= reference()[1].1);
        assert(group_view(groups@[2]).1 =~= reference()[2].1);
    }
    groups
}

} // verus!
