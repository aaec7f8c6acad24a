//! What each row says, which rows a category and a filter let through, how
//! the cursor keys move, and which key asks for what: each stated from the
//! state and the key alone.
use vstd::prelude::*;

use crate::goto::{
    all_items, goto_step, haystack_score, in_category, items_in_category, keep_scored,
    ranked_items, rerank_spec, scores_for, sort_by_score, with_list, GotoCategory, GotoItemView,
    GotoTarget,
};
use crate::keys::{key_action, GotoAction, KeyCode, KeyPress, ALT, CONTROL, NO_MODIFIERS, SHIFT};
use crate::laws::{law_sort_is_permutation, lemma_ranked_members};
use crate::model::{Agent, AgentState, AppView, TerminalView};
use crate::overlay::{centered_spec, list_window_spec, popup_height_spec, popup_width_spec, Area};

verus! {

broadcast use vstd::seq_lib::group_filter_ensures;

// ---------------------------------------------------------------------------
// Which rows a category admits

/// Whether a category lets a row through: tabs, workspaces or agents by
/// the kind of the row's target; blocked agents only when the row is an
/// agent's and its status says `Blocked`; no category lets every row through.
pub open spec fn category_admits(category: Option<GotoCategory>, e: GotoItemView) -> bool {
    match category {
        None => true,
        Some(GotoCategory::Tabs) => e.target is Tab,
        Some(GotoCategory::Workspaces) => e.target is Space,
        Some(GotoCategory::Agents) => e.target is Agent,
        Some(GotoCategory::BlockedAgents) => {
            &&& e.target is Agent
            &&& e.agent_status is Some
            &&& (e.agent_status->0).0 == AgentState::Blocked
        },
    }
}

/// A row belongs to a category exactly as `category_admits` says; in
/// particular an agent whose state is idle, working or unknown is never
/// among the blocked agents.
pub proof fn law_category_membership(e: GotoItemView, category: Option<GotoCategory>)
    ensures
        in_category(e, category) == category_admits(category, e),
        e.agent_status is Some && (e.agent_status->0).0 != AgentState::Blocked ==> !in_category(
            e,
            Some(GotoCategory::BlockedAgents),
        ),
{
}

proof fn lemma_category_is_filter(s: Seq<GotoItemView>, c: Option<GotoCategory>)
    ensures
        items_in_category(s, c) == s.filter(|e: GotoItemView| category_admits(c, e)),
    decreases s.len(),
{
    if s.len() > 0 {
        lemma_category_is_filter(s.drop_last(), c);
        let pred = |e: GotoItemView| category_admits(c, e);
        s.drop_last().lemma_filter_push(s.last(), pred);
        assert(s.drop_last().push(s.last()) =~= s);
    }
}

proof fn lemma_keep_scored_has(
    items: Seq<GotoItemView>,
    scores: Seq<Option<u32>>,
    n: int,
    i: int,
)
    requires
        0 <= i < n <= items.len(),
        n <= scores.len(),
        scores[i] is Some,
    ensures
        keep_scored(items, scores, n).contains((items[i], scores[i]->0)),
    decreases n,
{
    let rest = keep_scored(items, scores, n - 1);
    if i < n - 1 {
        lemma_keep_scored_has(items, scores, n - 1, i);
        let j = choose|j: int| 0 <= j < rest.len() && rest[j] == (items[i], scores[i]->0);
        match scores[n - 1] {
            Some(k) => {
                assert(keep_scored(items, scores, n)[j] == rest[j]);
            },
            None => {},
        }
    } else {
        let ks = keep_scored(items, scores, n);
        assert(ks[ks.len() - 1] == (items[i], scores[i]->0));
    }
}

/// With no filter the picker shows the rows that the category admits, in
/// the order of all rows.
pub proof fn law_unfiltered_rows_are_the_category(v: AppView)
    requires
        v.goto.filter.len() == 0,
    ensures
        rerank_spec(v).goto.items == all_items(v).filter(
            |e: GotoItemView| category_admits(v.goto.category, e),
        ),
{
    lemma_category_is_filter(all_items(v), v.goto.category);
}

/// A row is shown exactly when it is one of the picker's rows, the
/// category admits it, and, when a filter is typed, the row's lower-cased
/// haystack (not its label) gets a score from the filter.
pub proof fn law_shown_rows_are_those_whose_haystack_matches(v: AppView, e: GotoItemView)
    ensures
        rerank_spec(v).goto.items.contains(e) <==> {
            &&& all_items(v).contains(e)
            &&& category_admits(v.goto.category, e)
            &&& (v.goto.filter.len() == 0 || haystack_score(v.goto.filter, e.haystack) is Some)
        },
{
    let c = v.goto.category;
    let f = v.goto.filter;
    let all = all_items(v);
    let pred = |x: GotoItemView| category_admits(c, x);
    lemma_category_is_filter(all, c);
    let m = items_in_category(all, c);
    if all.contains(e) && pred(e) {
        let i = choose|i: int| 0 <= i < all.len() && all[i] == e;
        assert(pred(all[i]));
        assert(m.contains(e));
    }
    if m.contains(e) {
        all.lemma_filter_contains_rev(pred, e);
        let i = choose|i: int| 0 <= i < m.len() && m[i] == e;
        assert(pred(m[i]));
    }
    if f.len() > 0 {
        let sc = scores_for(m, f);
        let ks = keep_scored(m, sc, m.len() as int);
        let sorted = sort_by_score(ks);
        let shown = rerank_spec(v).goto.items;
        assert(shown == sorted.map_values(|p: (GotoItemView, u32)| p.0));
        lemma_ranked_members(m, sc);
        if shown.contains(e) {
            let r = choose|r: int| 0 <= r < shown.len() && shown[r] == e;
            assert(shown[r] == sorted[r].0);
            let i = choose|i: int|
                0 <= i < m.len() && (#[trigger] sorted[r]).0 == m[i] && sc[i] == Some(sorted[r].1);
            assert(m[i] == e);
            assert(m.contains(e));
        }
        if m.contains(e) && haystack_score(f, e.haystack) is Some {
            let i = choose|i: int| 0 <= i < m.len() && m[i] == e;
            assert(sc[i] == haystack_score(f, e.haystack));
            lemma_keep_scored_has(m, sc, m.len() as int, i);
            let pair = (e, sc[i]->0);
            law_sort_is_permutation(ks);
            vstd::seq_lib::to_multiset_contains(ks, pair);
            vstd::seq_lib::to_multiset_contains(sorted, pair);
            let r = choose|r: int| 0 <= r < sorted.len() && sorted[r] == pair;
            assert(shown[r] == e);
        }
    }
}

/// With a filter typed, the rows come in order of falling score, the score
/// being that of each row's haystack, and the cursor is on the first row.
pub proof fn law_filtered_rows_ranked_by_haystack(v: AppView)
    requires
        v.goto.filter.len() > 0,
    ensures
        forall|e: GotoItemView| #[trigger]
            rerank_spec(v).goto.items.contains(e) ==> haystack_score(v.goto.filter, e.haystack) is Some,
        forall|i: int, j: int|
            0 <= i < j < rerank_spec(v).goto.items.len() ==> haystack_score(
                v.goto.filter,
                (#[trigger] rerank_spec(v).goto.items[i]).haystack,
            )->0 >= haystack_score(
                v.goto.filter,
                (#[trigger] rerank_spec(v).goto.items[j]).haystack,
            )->0,
        rerank_spec(v).goto.list == 0,
{
    assert forall|e: GotoItemView| #[trigger]
        rerank_spec(v).goto.items.contains(e) implies haystack_score(
        v.goto.filter,
        e.haystack,
    ) is Some by {
        law_shown_rows_are_those_whose_haystack_matches(v, e);
    }
    crate::laws::law_filtered_rows_best_first(all_items(v), v.goto.category, v.goto.filter);
    assert(rerank_spec(v).goto.items == ranked_items(all_items(v), v.goto.category, v.goto.filter));
}

// ---------------------------------------------------------------------------
// What each row says

/// The name an agent is shown under.
pub open spec fn agent_word(a: Agent) -> Seq<char> {
    match a {
        Agent::Aider => "aider"@,
        Agent::Codex => "codex"@,
        Agent::Gemini => "gemini"@,
    }
}

/// The word for an agent's state.
pub open spec fn status_word(s: AgentState) -> Seq<char> {
    match s {
        AgentState::Unknown => "unknown"@,
        AgentState::Idle => "idle"@,
        AgentState::Working => "working"@,
        AgentState::Blocked => "blocked"@,
    }
}

/// What names the agent of a terminal in its row: the name the user gave
/// it if there is one, else the agent's own name, the hook's agent taking
/// precedence over the detected one.
pub open spec fn agent_text(term: TerminalView) -> Seq<char> {
    match term.agent_name {
        Some(n) => n,
        None => match term.hook_agent {
            Some(a) => agent_word(a),
            None => agent_word(term.detected_agent->0),
        },
    }
}

/// The label and the haystack a row has, given its target.
pub open spec fn row_text_is(v: AppView, e: GotoItemView) -> bool {
    match e.target {
        GotoTarget::Space { ws_idx } => {
            let ws = v.workspaces[ws_idx as int];
            &&& e.label == "[space] "@ + ws.name
            &&& e.haystack == crate::text::lowercase("space "@ + ws.name)
        },
        GotoTarget::Tab { ws_idx, tab_idx } => {
            let ws = v.workspaces[ws_idx as int];
            let tab = ws.tabs[tab_idx as int];
            &&& e.label == "[tab]   "@ + ws.name + " \u{203a} "@ + tab.name
            &&& e.haystack == crate::text::lowercase("tab "@ + ws.name + " "@ + tab.name)
        },
        GotoTarget::Agent { ws_idx, tab_idx, pane_id } => {
            let ws = v.workspaces[ws_idx as int];
            let tab = ws.tabs[tab_idx as int];
            let term = v.terminals[tab.panes[pane_id].attached_terminal_id];
            let name = agent_text(term);
            &&& e.label == "[agent] "@ + ws.name + " \u{203a} "@ + tab.name + " \u{203a} "@ + name
            &&& e.haystack == crate::text::lowercase(
                "agent "@ + ws.name + " "@ + tab.name + " "@ + name + " "@ + status_word(
                    term.state,
                ),
            )
            &&& (term.hook_agent is Some || term.detected_agent is Some)
            &&& e.agent_status == Some((term.state, tab.panes[pane_id].seen))
        },
    }
}

/// Every row's label and haystack: a workspace's row names the workspace, a
/// tab's row the workspace and the tab, an agent's row the workspace, the
/// tab and the agent (by the name the user gave it, if any, in the label
/// and in the haystack alike), and its haystack ends with the agent's state,
/// so that the filter finds agents by their state and by their given name.
pub proof fn law_row_texts(state: &crate::model::AppState)
    ensures
        forall|i: int|
            0 <= i < all_items(state@).len() ==> row_text_is(state@, #[trigger] all_items(state@)[i]),
{
    let v = state@;
    crate::model::law_every_state_counts_fit(state);
    crate::laws::law_rows_point_into_state(state);
    crate::laws::law_each_row_is_built_for_its_target(state);
    let all = all_items(v);
    assert forall|i: int| 0 <= i < all.len() implies row_text_is(v, #[trigger] all[i]) by {
        let e = all[i];
        assert(crate::laws::row_points_into(v, e));
        assert(crate::laws::row_for(v, e.target) == Some(e));
    }
}

// ---------------------------------------------------------------------------
// How the cursor keys move

/// The cursor keys move the cursor and change nothing else: up and down by
/// one, a page (eight rows) up or down, to the first or the last row,
/// never before the first row or past the last; over an empty list only
/// Up, PageUp and Home move it, to 0 or towards it.
pub proof fn law_cursor_moves(v: AppView, action: GotoAction)
    requires
        action == GotoAction::CursorDown ==> v.goto.list < usize::MAX,
        v.goto.items.len() <= usize::MAX,
    ensures
        ({
            let n = v.goto.items.len() as int;
            let l = v.goto.list as int;
            let after = goto_step(v, action);
            match action {
                GotoAction::CursorUp => after == with_list(v, after.goto.list) && after.goto.list
                    == if l >= 1 {
                    l - 1
                } else {
                    0
                },
                GotoAction::CursorDown => after == with_list(v, after.goto.list) && after.goto.list
                    == if n == 0 {
                    l
                } else if l + 1 < n - 1 {
                    l + 1
                } else {
                    n - 1
                },
                GotoAction::PageUp => after == with_list(v, after.goto.list) && after.goto.list
                    == if l >= 8 {
                    l - 8
                } else {
                    0
                },
                GotoAction::PageDown => after == with_list(v, after.goto.list) && after.goto.list
                    == if n == 0 {
                    l
                } else if l + 8 < n - 1 {
                    l + 8
                } else {
                    n - 1
                },
                GotoAction::Home => after == with_list(v, 0),
                GotoAction::End => after == with_list(v, after.goto.list) && after.goto.list == if n
                    == 0 {
                    l
                } else {
                    n - 1
                },
                _ => true,
            }
        }),
{
    let n = v.goto.items.len() as int;
    let l = v.goto.list as int;
    let after = goto_step(v, action);
    match action {
        GotoAction::CursorUp => {
            assert(after == with_list(v, after.goto.list));
        },
        GotoAction::PageUp => {
            assert(after == with_list(v, after.goto.list));
        },
        GotoAction::CursorDown => {
            if n == 0 {
                assert(with_list(v, v.goto.list) =~= v);
            } else {
                assert(after == with_list(v, after.goto.list));
            }
        },
        GotoAction::PageDown => {
            if n == 0 {
                assert(with_list(v, v.goto.list) =~= v);
            } else {
                assert(after == with_list(v, after.goto.list));
            }
        },
        GotoAction::End => {
            if n == 0 {
                assert(with_list(v, v.goto.list) =~= v);
            } else {
                assert(after == with_list(v, after.goto.list));
            }
        },
        _ => {},
    }
}

/// Typing a character adds it to the end of the filter; Backspace takes the
/// last character off, if there is one. Neither moves to another workspace.
pub proof fn law_typing_edits_the_filter(v: AppView, c: char)
    ensures
        goto_step(v, GotoAction::Type(c)).goto.filter == v.goto.filter.push(c),
        goto_step(v, GotoAction::Backspace).goto.filter == if v.goto.filter.len() > 0 {
            v.goto.filter.subrange(0, v.goto.filter.len() - 1)
        } else {
            v.goto.filter
        },
        goto_step(v, GotoAction::Type(c)).active == v.active,
        goto_step(v, GotoAction::Backspace).active == v.active,
{
    assert(v.goto.filter.len() > 0 ==> v.goto.filter.drop_last() =~= v.goto.filter.subrange(
        0,
        v.goto.filter.len() - 1,
    ));
}

// ---------------------------------------------------------------------------
// Opening, leaving, categories and where the cursor lands

/// The first row at or after `j` that is where the user is now, as a
/// position; the length when there is none.
pub open spec fn first_here(s: Seq<GotoItemView>, j: int) -> int
    decreases s.len() - j,
{
    if j >= s.len() {
        s.len() as int
    } else if s[j].is_current {
        j
    } else {
        first_here(s, j + 1)
    }
}

proof fn lemma_first_here(s: Seq<GotoItemView>, j: int)
    requires
        0 <= j <= s.len(),
    ensures
        j <= first_here(s, j) <= s.len(),
        first_here(s, j) == crate::goto::first_current_from(s, j),
        first_here(s, j) < s.len() ==> s[first_here(s, j)].is_current,
        forall|i: int| j <= i < first_here(s, j) ==> !s[i].is_current,
    decreases s.len() - j,
{
    if j < s.len() && !s[j].is_current {
        lemma_first_here(s, j + 1);
    }
}

/// Opening the picker shows every row, with no filter and no category, in
/// the picker's mode, with the cursor on the first row that is where the
/// user is now (on the first row when no row is). The rows are held in
/// memory, so there are at most `usize::MAX` of them.
pub proof fn law_open_shows_everything(v: AppView)
    requires
        all_items(v).len() <= usize::MAX,
    ensures
        crate::goto::open_spec(v).goto.items == all_items(v),
        crate::goto::open_spec(v).goto.filter.len() == 0,
        crate::goto::open_spec(v).goto.category is None,
        crate::goto::open_spec(v).mode == crate::model::Mode::Goto,
        crate::goto::open_spec(v).workspaces == v.workspaces,
        crate::goto::open_spec(v).active == v.active,
        first_here(all_items(v), 0) < all_items(v).len() ==> crate::goto::open_spec(v).goto.list
            == first_here(all_items(v), 0),
        first_here(all_items(v), 0) == all_items(v).len() ==> crate::goto::open_spec(v).goto.list
            == 0,
{
    lemma_first_here(all_items(v), 0);
}

/// With no filter, recomputing the rows puts the cursor on the first row
/// that is where the user is now, or on the first row when none is.
pub proof fn law_unfiltered_cursor_on_current(v: AppView)
    requires
        v.goto.filter.len() == 0,
        all_items(v).len() <= usize::MAX,
    ensures
        ({
            let items = rerank_spec(v).goto.items;
            let p = first_here(items, 0);
            &&& p < items.len() ==> rerank_spec(v).goto.list == p
            &&& p == items.len() ==> rerank_spec(v).goto.list == 0
        }),
{
    let items = rerank_spec(v).goto.items;
    lemma_first_here(items, 0);
    law_unfiltered_rows_are_the_category(v);
    assert(items.len() <= all_items(v).len());
}

/// Leaving clears the picker and returns to the terminal when a workspace
/// is active, else to navigation.
pub proof fn law_leave_mode(v: AppView)
    ensures
        goto_step(v, GotoAction::Leave).mode == if v.active is Some {
            crate::model::Mode::Terminal
        } else {
            crate::model::Mode::Navigate
        },
        goto_step(v, GotoAction::Leave).goto.items.len() == 0,
        goto_step(v, GotoAction::Leave).goto.filter.len() == 0,
        goto_step(v, GotoAction::Leave).goto.category is None,
{
}

/// Asking for a category narrows the list to it, unless it is already in
/// force, in which case the list is no longer narrowed; the filter stays.
pub proof fn law_toggle_category(v: AppView, c: GotoCategory)
    ensures
        goto_step(v, GotoAction::ToggleCategory(c)).goto.category == if v.goto.category == Some(
            c,
        ) {
            None
        } else {
            Some(c)
        },
        goto_step(v, GotoAction::ToggleCategory(c)).goto.filter == v.goto.filter,
{
}

// ---------------------------------------------------------------------------
// Which key asks for what

/// A character typed alone or with Shift goes into the filter, whatever
/// the character; a key types a character only then. The cursor moves down
/// only on Down or Ctrl-N, up only on Up or Ctrl-P; a category is toggled
/// only by Alt with t, w, a or b; Esc always leaves and Enter always goes.
pub proof fn law_key_table(key: KeyPress, c: char)
    ensures
        key_action(KeyPress { code: KeyCode::Char(c), modifiers: NO_MODIFIERS })
            == GotoAction::Type(c),
        key_action(KeyPress { code: KeyCode::Char(c), modifiers: SHIFT }) == GotoAction::Type(c),
        key_action(key) == GotoAction::Type(c) <==> key.code == KeyCode::Char(c) && (key.modifiers
            == NO_MODIFIERS || key.modifiers == SHIFT),
        key_action(key) == GotoAction::CursorDown <==> key.code == KeyCode::Down || (key.code
            == KeyCode::Char('n') && key.modifiers == CONTROL),
        key_action(key) == GotoAction::CursorUp <==> key.code == KeyCode::Up || (key.code
            == KeyCode::Char('p') && key.modifiers == CONTROL),
        key_action(key) == GotoAction::ToggleCategory(GotoCategory::Tabs) <==> key.code
            == KeyCode::Char('t') && key.modifiers == ALT,
        key_action(key) == GotoAction::ToggleCategory(GotoCategory::Workspaces) <==> key.code
            == KeyCode::Char('w') && key.modifiers == ALT,
        key_action(key) == GotoAction::ToggleCategory(GotoCategory::Agents) <==> key.code
            == KeyCode::Char('a') && key.modifiers == ALT,
        key_action(key) == GotoAction::ToggleCategory(GotoCategory::BlockedAgents) <==> key.code
            == KeyCode::Char('b') && key.modifiers == ALT,
        key.code == KeyCode::Esc ==> key_action(key) == GotoAction::Leave,
        key.code == KeyCode::Enter ==> key_action(key) == GotoAction::Apply,
        key.code == KeyCode::PageDown ==> key_action(key) == GotoAction::PageDown,
        key.code == KeyCode::PageUp ==> key_action(key) == GotoAction::PageUp,
{
}

// ---------------------------------------------------------------------------
// Drawing

/// The popup is placed in the middle of the area: it keeps the size asked
/// for, and the space left of it is that right of it, or one column less
/// (likewise above and below). There is a placement exactly when the size
/// is not empty, fits the area, and its corner can be named by a `u16`.
pub proof fn law_popup_is_centred(area: Area, width: u16, height: u16)
    ensures
        centered_spec(area, width, height) is Some <==> {
            &&& 0 < width <= area.width
            &&& 0 < height <= area.height
            &&& area.x + (area.width - width) / 2 <= u16::MAX
            &&& area.y + (area.height - height) / 2 <= u16::MAX
        },
        centered_spec(area, width, height) matches Some(r) ==> {
            let left = r.x - area.x;
            let right = (area.x + area.width) - (r.x + r.width);
            let top = r.y - area.y;
            let bottom = (area.y + area.height) - (r.y + r.height);
            &&& r.width == width && r.height == height
            &&& 0 <= left <= right <= left + 1
            &&& 0 <= top <= bottom <= top + 1
        },
{
}

/// The popup is 4 rows shorter than the screen, but at least 8 and at most
/// 20 rows high; it is as wide as asked, but at least 40 and at most 90
/// columns, and never closer than 2 columns to either side of the screen.
pub proof fn law_popup_size(target_width: u16, area_width: u16, area_height: u16)
    ensures
        popup_height_spec(area_height) == if area_height >= 24 {
            20
        } else if area_height <= 12 {
            8
        } else {
            area_height - 4
        },
        ({
            let wanted = if target_width < 40 {
                40
            } else if target_width > 90 {
                90
            } else {
                target_width as int
            };
            let room = if area_width >= 4 {
                area_width - 4
            } else {
                0
            };
            popup_width_spec(target_width, area_width) == if wanted <= room {
                wanted
            } else {
                room
            }
        }),
{
}

/// The list scrolls no further than it must: it starts at the top while the
/// highlighted row fits there, and otherwise the highlighted row is the
/// last one drawn; as many rows are drawn as fit, up to the end.
pub proof fn law_list_scrolls_just_enough(list: usize, total: usize, height: usize)
    ensures
        list_window_spec(list, total, height) matches Some(w) ==> {
            &&& w.selected == if list < total {
                list as int
            } else {
                total - 1
            }
            &&& w.start == 0 || w.selected == w.start + height - 1
            &&& w.selected < height ==> w.start == 0
            &&& w.end == if w.start + height < total {
                w.start + height
            } else {
                total as int
            }
        },
{
}

} // verus!
