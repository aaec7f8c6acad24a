use goto_picker::goto::GotoCategory;
use goto_picker::model::{state_label, AgentState};
use goto_picker::overlay::{
    centered_popup_rect, footer_entries, footer_is_active, list_window, popup_height, popup_width,
    row_marker, status_text, Area, ListWindow,
};

#[test]
fn popup_height_is_clamped() {
    assert_eq!(popup_height(50), 20);
    assert_eq!(popup_height(20), 16);
    assert_eq!(popup_height(10), 8);
    assert_eq!(popup_height(2), 8);
}

#[test]
fn popup_width_is_clamped_and_fits_the_screen() {
    assert_eq!(popup_width(140, 200), 90);
    assert_eq!(popup_width(70, 100), 70);
    assert_eq!(popup_width(20, 100), 40);
    assert_eq!(popup_width(70, 50), 46);
    assert_eq!(popup_width(70, 3), 0);
}

#[test]
fn list_window_scrolls_to_keep_the_cursor_visible() {
    assert_eq!(list_window(0, 0, 5), None);
    assert_eq!(list_window(0, 5, 0), None);
    assert_eq!(
        list_window(2, 10, 5),
        Some(ListWindow { selected: 2, start: 0, end: 5 })
    );
    assert_eq!(
        list_window(7, 10, 5),
        Some(ListWindow { selected: 7, start: 3, end: 8 })
    );
    assert_eq!(
        list_window(40, 10, 5),
        Some(ListWindow { selected: 9, start: 5, end: 10 })
    );
    assert_eq!(
        list_window(1, 3, 5),
        Some(ListWindow { selected: 1, start: 0, end: 3 })
    );
}

#[test]
fn centered_popup() {
    let area = Area { x: 0, y: 0, width: 100, height: 40 };
    assert_eq!(
        centered_popup_rect(area, 60, 20),
        Some(Area { x: 20, y: 10, width: 60, height: 20 })
    );
    assert_eq!(centered_popup_rect(area, 101, 20), None);
    assert_eq!(centered_popup_rect(area, 0, 20), None);
}

#[test]
fn markers_status_and_footer() {
    assert_eq!(row_marker(true), " *");
    assert_eq!(row_marker(false), "  ");
    assert_eq!(status_text(AgentState::Blocked, false), "[blocked]");
    assert_eq!(state_label(AgentState::Idle, true), "idle");
    assert_eq!(state_label(AgentState::Working, false), "working");
    let entries = footer_entries();
    let keys: Vec<&str> = entries.iter().map(|e| e.key).collect();
    assert_eq!(keys, vec!["alt+t", "alt+w", "alt+a", "alt+b"]);
    assert_eq!(entries[3].label, "blocked");
    assert!(footer_is_active(Some(GotoCategory::Agents), GotoCategory::Agents));
    assert!(!footer_is_active(Some(GotoCategory::Agents), GotoCategory::Tabs));
    assert!(!footer_is_active(None, GotoCategory::Tabs));
}

#[test]
fn centered_popup_near_the_last_column() {
    let area = Area { x: 65400, y: 0, width: 100, height: 40 };
    assert_eq!(
        centered_popup_rect(area, 10, 20),
        Some(Area { x: 65445, y: 10, width: 10, height: 20 })
    );
    let far = Area { x: 65500, y: 0, width: 100, height: 40 };
    assert_eq!(centered_popup_rect(far, 10, 20), None);
}
