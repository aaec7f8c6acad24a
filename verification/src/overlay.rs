//! The arithmetic of drawing the picker: the size of the popup, which rows
//! fit in it, and the text of the footer and of the status column. The
//! drawing itself is done by the application.
use vstd::prelude::*;

use crate::goto::GotoCategory;
use crate::model::{state_label, state_label_spec, AgentState};

verus! {

pub open spec fn min_int(a: int, b: int) -> int {
    if a < b {
        a
    } else {
        b
    }
}

pub open spec fn max_int(a: int, b: int) -> int {
    if a < b {
        b
    } else {
        a
    }
}

pub open spec fn sat_sub(a: int, b: int) -> int {
    if a < b {
        0
    } else {
        a - b
    }
}

/// The popup's height for a screen `area_height` rows high: four rows less
/// than the screen, at most 20 and at least 8.
pub open spec fn popup_height_spec(area_height: u16) -> int {
    max_int(min_int(sat_sub(area_height as int, 4), 20), 8)
}

pub fn popup_height(area_height: u16) -> (r: u16)
    ensures
        r == popup_height_spec(area_height),
{
    let h = area_height.saturating_sub(4);
    let h = if h < 20 {
        h
    } else {
        20
    };
    if h > 8 {
        h
    } else {
        8
    }
}

/// The popup's width: the wanted width brought into 40..=90, and no wider
/// than the screen less four columns.
pub open spec fn popup_width_spec(target_width: u16, area_width: u16) -> int {
    min_int(max_int(min_int(target_width as int, 90), 40), sat_sub(area_width as int, 4))
}

pub fn popup_width(target_width: u16, area_width: u16) -> (r: u16)
    ensures
        r == popup_width_spec(target_width, area_width),
{
    let w = if target_width < 40 {
        40
    } else if target_width > 90 {
        90
    } else {
        target_width
    };
    let room = area_width.saturating_sub(4);
    if w < room {
        w
    } else {
        room
    }
}

/// A rectangle of the screen: column, row, width, height.
#[derive(PartialEq, Eq, Structural, Clone, Copy, Debug)]
pub struct Area {
    pub x: u16,
    pub y: u16,
    pub width: u16,
    pub height: u16,
}

/// A `width` by `height` rectangle centred in `area`; none when it is empty,
/// does not fit, or would start past the last column or row a `u16` can name.
pub open spec fn centered_spec(area: Area, width: u16, height: u16) -> Option<Area> {
    if width == 0 || height == 0 || width > area.width || height > area.height {
        None
    } else {
        let x = area.x + (area.width - width) / 2;
        let y = area.y + (area.height - height) / 2;
        if x > u16::MAX || y > u16::MAX {
            None
        } else {
            Some(Area { x: x as u16, y: y as u16, width, height })
        }
    }
}

pub fn centered_popup_rect(area: Area, width: u16, height: u16) -> (r: Option<Area>)
    ensures
        r == centered_spec(area, width, height),
{
    if width == 0 || height == 0 || width > area.width || height > area.height {
        return None;
    }
    let x: u32 = area.x as u32 + ((area.width - width) / 2) as u32;
    let y: u32 = area.y as u32 + ((area.height - height) / 2) as u32;
    if x > 65535 || y > 65535 {
        None
    } else {
        Some(Area { x: x as u16, y: y as u16, width, height })
    }
}

/// The rows of the list that are drawn: `start..end`, with `selected` the
/// highlighted one.
#[derive(PartialEq, Eq, Structural, Clone, Copy, Debug)]
pub struct ListWindow {
    pub selected: usize,
    pub start: usize,
    pub end: usize,
}

/// The window over `total` rows in a list `height` rows high: the cursor,
/// clamped to the last row, is highlighted; the window starts at the top
/// and scrolls just far enough to show it. None when nothing can be drawn.
pub open spec fn list_window_spec(list: usize, total: usize, height: usize) -> Option<ListWindow> {
    if total == 0 || height == 0 {
        None
    } else {
        let selected = min_int(list as int, total - 1);
        let start = if selected >= height {
            selected + 1 - height
        } else {
            0
        };
        Some(
            ListWindow {
                selected: selected as usize,
                start: start as usize,
                end: min_int(start + height, total as int) as usize,
            },
        )
    }
}

pub fn list_window(list: usize, total: usize, height: usize) -> (r: Option<ListWindow>)
    ensures
        r == list_window_spec(list, total, height),
{
    if total == 0 || height == 0 {
        return None;
    }
    let selected = if list < total - 1 {
        list
    } else {
        total - 1
    };
    let start = if selected >= height {
        selected + 1 - height
    } else {
        0
    };
    let end = if height < total - start {
        start + height
    } else {
        total
    };
    Some(ListWindow { selected, start, end })
}

/// The marker after a row: a star for the row where the user is now.
pub fn row_marker(is_current: bool) -> (r: &'static str)
    ensures
        r@ == (if is_current {
            " *"@
        } else {
            "  "@
        }),
{
    if is_current {
        " *"
    } else {
        "  "
    }
}

/// The status column of an agent row: its state's word in brackets.
pub fn status_text(state: AgentState, seen: bool) -> (r: String)
    ensures
        r@ == "["@ + state_label_spec(state) + "]"@,
{
    let mut s = String::from_str("[");
    s.append(state_label(state, seen));
    s.append("]");
    s
}

/// One entry of the footer: the key, what it narrows to, and the category.
pub struct FooterEntry {
    pub key: &'static str,
    pub label: &'static str,
    pub category: GotoCategory,
}

pub open spec fn footer_spec() -> Seq<(Seq<char>, Seq<char>, GotoCategory)> {
    seq![
        ("alt+t"@, "tabs"@, GotoCategory::Tabs),
        ("alt+w"@, "workspaces"@, GotoCategory::Workspaces),
        ("alt+a"@, "agents"@, GotoCategory::Agents),
        ("alt+b"@, "blocked"@, GotoCategory::BlockedAgents),
    ]
}

/// The footer's entries, in the order they are drawn.
pub fn footer_entries() -> (r: Vec<FooterEntry>)
    ensures
        r@.len() == footer_spec().len(),
        forall|i: int|
            0 <= i < r@.len() ==> (r@[i].key@, r@[i].label@, r@[i].category) == footer_spec()[i],
{
    let mut r: Vec<FooterEntry> = Vec::new();
    r.push(FooterEntry { key: "alt+t", label: "tabs", category: GotoCategory::Tabs });
    r.push(FooterEntry { key: "alt+w", label: "workspaces", category: GotoCategory::Workspaces });
    r.push(FooterEntry { key: "alt+a", label: "agents", category: GotoCategory::Agents });
    r.push(FooterEntry { key: "alt+b", label: "blocked", category: GotoCategory::BlockedAgents });
    r
}

/// Whether a footer entry is drawn as the category in force.
pub fn footer_is_active(active: Option<GotoCategory>, category: GotoCategory) -> (r: bool)
    ensures
        r == (active == Some(category)),
{
    match active {
        Some(c) => c == category,
        None => false,
    }
}

} // verus!
