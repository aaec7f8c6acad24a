use goto_picker::goto::{
    apply_goto, handle_goto_key, leave_goto, matches_category, open_goto,
    open_goto_with_category, rank_scored, rebuild_items, rerank, toggle_category, GotoCategory,
    GotoItem, GotoTarget, GOTO_PAGE_STEP,
};
use goto_picker::keys::{classify_key, GotoAction, KeyCode, KeyPress, ALT, CONTROL, NO_MODIFIERS, SHIFT};
use goto_picker::model::{Agent, AgentState, AppState, Mode, Terminal, Workspace};

fn ensure_test_terminals(state: &mut AppState) {
    let mut ids = Vec::new();
    for ws in &state.workspaces {
        for tab in &ws.tabs {
            for pane in tab.panes.values() {
                ids.push(pane.attached_terminal_id);
            }
        }
    }
    for id in ids {
        state.terminals.entry(id).or_insert_with(Terminal::new);
    }
}

fn state_with_two_workspaces() -> AppState {
    let mut state = AppState::new();
    state.workspaces = vec![
        Workspace::new("alpha".to_string(), 1, 101),
        Workspace::new("beta".to_string(), 2, 102),
    ];
    state.active = Some(0);
    state.selected = 0;
    state.mode = Mode::Terminal;
    ensure_test_terminals(&mut state);
    state
}

fn terminal_of_workspace(state: &mut AppState, ws_idx: usize) -> &mut Terminal {
    let ws = &state.workspaces[ws_idx];
    let pane_id = ws.tabs[0].root_pane;
    let terminal_id = ws.tabs[0].panes.get(&pane_id).unwrap().attached_terminal_id;
    state.terminals.get_mut(&terminal_id).unwrap()
}

fn key(code: KeyCode, modifiers: u8) -> KeyPress {
    KeyPress::new(code, modifiers)
}

#[test]
fn open_goto_populates_items_and_preselects_current() {
    let mut state = state_with_two_workspaces();
    open_goto(&mut state);
    assert_eq!(state.mode, Mode::Goto);
    assert!(!state.goto.items.is_empty());
    let selected = &state.goto.items[state.goto.list];
    assert!(selected.is_current);
}

#[test]
fn rebuild_skips_non_agent_panes() {
    let state = state_with_two_workspaces();
    let items = rebuild_items(&state);
    let spaces = items
        .iter()
        .filter(|i| matches!(i.target, GotoTarget::Space { .. }))
        .count();
    let tabs = items
        .iter()
        .filter(|i| matches!(i.target, GotoTarget::Tab { .. }))
        .count();
    let agents = items
        .iter()
        .filter(|i| matches!(i.target, GotoTarget::Agent { .. }))
        .count();
    assert_eq!(spaces, 2);
    assert!(tabs >= 2);
    assert_eq!(agents, 0, "plain shell panes must not appear as agents");
}

#[test]
fn rebuild_emits_agent_row_when_terminal_has_detected_agent() {
    let mut state = state_with_two_workspaces();
    // Simulate the detector having identified an agent in the second workspace.
    let terminal = terminal_of_workspace(&mut state, 1);
    terminal.set_detected_state(Some(Agent::Aider), AgentState::Idle);
    terminal.set_agent_name("my-aider".into());

    let items = rebuild_items(&state);
    let agent_rows: Vec<_> = items
        .iter()
        .filter(|i| matches!(i.target, GotoTarget::Agent { .. }))
        .collect();
    assert_eq!(agent_rows.len(), 1);
    // agent_name overrides the displayed label.
    assert!(agent_rows[0].label.contains("my-aider"));
    // Agent rows carry a status so the picker can render idle/working/etc.
    assert_eq!(agent_rows[0].agent_status, Some((AgentState::Idle, true)));
    // And the haystack lets the user filter by that status.
    assert!(agent_rows[0].haystack.contains("idle"));
    // Non-agent rows stay status-less.
    assert!(items
        .iter()
        .filter(|i| !matches!(i.target, GotoTarget::Agent { .. }))
        .all(|i| i.agent_status.is_none()));
}

#[test]
fn rebuild_skips_pane_with_agent_name_but_no_detected_agent() {
    let mut state = state_with_two_workspaces();
    terminal_of_workspace(&mut state, 1).set_agent_name("orphan".into());

    let items = rebuild_items(&state);
    let agents = items
        .iter()
        .filter(|i| matches!(i.target, GotoTarget::Agent { .. }))
        .count();
    assert_eq!(agents, 0);
}

#[test]
fn enter_jumps_to_selected_space() {
    let mut state = state_with_two_workspaces();
    open_goto(&mut state);
    let beta_idx = state
        .goto
        .items
        .iter()
        .position(|item| matches!(item.target, GotoTarget::Space { ws_idx } if ws_idx == 1))
        .expect("beta space row");
    state.goto.list = beta_idx;
    handle_goto_key(&mut state, key(KeyCode::Enter, NO_MODIFIERS));
    assert_eq!(state.active, Some(1));
    assert_eq!(state.mode, Mode::Terminal);
}

#[test]
fn esc_closes_without_navigating() {
    let mut state = state_with_two_workspaces();
    open_goto(&mut state);
    handle_goto_key(&mut state, key(KeyCode::Esc, NO_MODIFIERS));
    assert_eq!(state.mode, Mode::Terminal);
    assert_eq!(state.active, Some(0));
    assert!(state.goto.items.is_empty());
}

#[test]
fn page_up_down_jumps_by_step_and_clamps() {
    let mut state = state_with_two_workspaces();
    open_goto(&mut state);
    let total = state.goto.items.len();
    assert!(total > 0);

    state.goto.list = 0;
    handle_goto_key(&mut state, key(KeyCode::PageDown, NO_MODIFIERS));
    let expected_down = GOTO_PAGE_STEP.min(total - 1);
    assert_eq!(state.goto.list, expected_down);

    handle_goto_key(&mut state, key(KeyCode::PageUp, NO_MODIFIERS));
    assert_eq!(state.goto.list, expected_down.saturating_sub(GOTO_PAGE_STEP));

    // PageDown past the end clamps to the last item.
    state.goto.list = total - 1;
    handle_goto_key(&mut state, key(KeyCode::PageDown, NO_MODIFIERS));
    assert_eq!(state.goto.list, total - 1);

    // PageUp at the top stays at 0.
    state.goto.list = 0;
    handle_goto_key(&mut state, key(KeyCode::PageUp, NO_MODIFIERS));
    assert_eq!(state.goto.list, 0);
}

#[test]
fn home_and_end_jump_to_edges() {
    let mut state = state_with_two_workspaces();
    open_goto(&mut state);
    let total = state.goto.items.len();
    assert!(total > 0);

    handle_goto_key(&mut state, key(KeyCode::End, NO_MODIFIERS));
    assert_eq!(state.goto.list, total - 1);

    handle_goto_key(&mut state, key(KeyCode::Home, NO_MODIFIERS));
    assert_eq!(state.goto.list, 0);
}

#[test]
fn alt_w_filters_to_workspaces_only() {
    let mut state = state_with_two_workspaces();
    open_goto(&mut state);
    handle_goto_key(&mut state, key(KeyCode::Char('w'), ALT));
    assert_eq!(state.goto.category, Some(GotoCategory::Workspaces));
    assert!(!state.goto.items.is_empty());
    assert!(state
        .goto
        .items
        .iter()
        .all(|item| matches!(item.target, GotoTarget::Space { .. })));
}

#[test]
fn alt_t_filters_to_tabs_only() {
    let mut state = state_with_two_workspaces();
    open_goto(&mut state);
    handle_goto_key(&mut state, key(KeyCode::Char('t'), ALT));
    assert_eq!(state.goto.category, Some(GotoCategory::Tabs));
    assert!(!state.goto.items.is_empty());
    assert!(state
        .goto
        .items
        .iter()
        .all(|item| matches!(item.target, GotoTarget::Tab { .. })));
}

fn mark_idle_and_blocked(state: &mut AppState) {
    for ws_idx in 0..2 {
        let agent_state = if ws_idx == 0 {
            AgentState::Idle
        } else {
            AgentState::Blocked
        };
        terminal_of_workspace(state, ws_idx).set_detected_state(Some(Agent::Aider), agent_state);
    }
}

#[test]
fn alt_b_filters_to_blocked_agents_only() {
    let mut state = state_with_two_workspaces();
    // Make one agent blocked and another idle so we can confirm the filter.
    mark_idle_and_blocked(&mut state);
    open_goto(&mut state);
    handle_goto_key(&mut state, key(KeyCode::Char('b'), ALT));
    assert_eq!(state.goto.category, Some(GotoCategory::BlockedAgents));
    assert_eq!(state.goto.items.len(), 1);
    assert!(matches!(
        state.goto.items[0].agent_status,
        Some((AgentState::Blocked, _))
    ));
}

#[test]
fn open_goto_with_category_applies_blocked_filter() {
    let mut state = state_with_two_workspaces();
    mark_idle_and_blocked(&mut state);
    open_goto_with_category(&mut state, GotoCategory::BlockedAgents);
    assert_eq!(state.mode, Mode::Goto);
    assert_eq!(state.goto.category, Some(GotoCategory::BlockedAgents));
    assert_eq!(state.goto.items.len(), 1);
    assert!(matches!(
        state.goto.items[0].agent_status,
        Some((AgentState::Blocked, _))
    ));
}

#[test]
fn alt_key_toggles_category_off() {
    let mut state = state_with_two_workspaces();
    open_goto(&mut state);
    let total = state.goto.items.len();
    handle_goto_key(&mut state, key(KeyCode::Char('w'), ALT));
    assert_eq!(state.goto.category, Some(GotoCategory::Workspaces));
    handle_goto_key(&mut state, key(KeyCode::Char('w'), ALT));
    assert_eq!(state.goto.category, None);
    assert_eq!(state.goto.items.len(), total);
}

#[test]
fn alt_key_replaces_prior_category() {
    let mut state = state_with_two_workspaces();
    open_goto(&mut state);
    handle_goto_key(&mut state, key(KeyCode::Char('w'), ALT));
    handle_goto_key(&mut state, key(KeyCode::Char('t'), ALT));
    assert_eq!(state.goto.category, Some(GotoCategory::Tabs));
}

#[test]
fn plain_letter_keys_still_type_into_filter() {
    let mut state = state_with_two_workspaces();
    open_goto(&mut state);
    for ch in ['t', 'w', 'a', 'b'] {
        handle_goto_key(&mut state, key(KeyCode::Char(ch), NO_MODIFIERS));
    }
    assert_eq!(state.goto.filter, "twab");
    assert_eq!(state.goto.category, None);
}

#[test]
fn typing_filters_items() {
    let mut state = state_with_two_workspaces();
    open_goto(&mut state);
    let before = state.goto.items.len();
    for ch in ['b', 'e', 't', 'a'] {
        handle_goto_key(&mut state, key(KeyCode::Char(ch), NO_MODIFIERS));
    }
    assert!(state.goto.items.len() < before);
    assert!(state
        .goto
        .items
        .iter()
        .all(|item| item.haystack.contains("beta")));
}

// ---------------------------------------------------------------------------
// Further cases

#[test]
fn rows_come_in_workspace_tab_agent_order_with_labels() {
    let mut state = state_with_two_workspaces();
    terminal_of_workspace(&mut state, 0).set_detected_state(Some(Agent::Codex), AgentState::Working);
    let items = rebuild_items(&state);
    let labels: Vec<&str> = items.iter().map(|i| i.label.as_str()).collect();
    assert_eq!(
        labels,
        vec![
            "[space] alpha",
            "[tab]   alpha \u{203a} 1",
            "[agent] alpha \u{203a} 1 \u{203a} codex",
            "[space] beta",
            "[tab]   beta \u{203a} 1",
        ]
    );
    assert_eq!(items[2].haystack, "agent alpha 1 codex working");
    assert_eq!(items[0].haystack, "space alpha");
    // The active workspace, its active tab and its focused pane are current.
    let current: Vec<bool> = items.iter().map(|i| i.is_current).collect();
    assert_eq!(current, vec![true, true, true, false, false]);
}

#[test]
fn haystack_is_lower_cased() {
    let mut state = AppState::new();
    state.workspaces = vec![Workspace::new("Alpha Beta".to_string(), 7, 70)];
    let items = rebuild_items(&state);
    assert_eq!(items[0].haystack, "space alpha beta");
    assert_eq!(items[0].label, "[space] Alpha Beta");
    assert_eq!(items[1].haystack, "tab alpha beta 1");
}

#[test]
fn hook_agent_takes_precedence_over_detected_agent() {
    let mut state = state_with_two_workspaces();
    let terminal = terminal_of_workspace(&mut state, 0);
    terminal.set_detected_state(Some(Agent::Aider), AgentState::Blocked);
    terminal.set_hook_agent(Some(Agent::Gemini));
    let items = rebuild_items(&state);
    let agent = items
        .iter()
        .find(|i| matches!(i.target, GotoTarget::Agent { .. }))
        .unwrap();
    assert_eq!(agent.label, "[agent] alpha \u{203a} 1 \u{203a} gemini");
    assert_eq!(agent.haystack, "agent alpha 1 gemini blocked");
}

#[test]
fn missing_terminal_gives_no_agent_row() {
    let mut state = state_with_two_workspaces();
    terminal_of_workspace(&mut state, 0).set_detected_state(Some(Agent::Aider), AgentState::Idle);
    state.terminals.remove(&101);
    let items = rebuild_items(&state);
    assert!(!items.iter().any(|i| matches!(i.target, GotoTarget::Agent { .. })));
}

#[test]
fn toggling_the_same_category_twice_restores_the_rows() {
    let mut state = state_with_two_workspaces();
    open_goto(&mut state);
    let before: Vec<String> = state.goto.items.iter().map(|i| i.label.clone()).collect();
    toggle_category(&mut state, GotoCategory::Agents);
    assert!(state.goto.items.is_empty());
    assert_eq!(state.goto.list, 0);
    toggle_category(&mut state, GotoCategory::Agents);
    let after: Vec<String> = state.goto.items.iter().map(|i| i.label.clone()).collect();
    assert_eq!(before, after);
    assert_eq!(state.goto.category, None);
}

#[test]
fn typing_then_erasing_restores_filter_and_rows() {
    let mut state = state_with_two_workspaces();
    open_goto(&mut state);
    let before = state.goto.items.len();
    handle_goto_key(&mut state, key(KeyCode::Char('Z'), SHIFT));
    assert_eq!(state.goto.filter, "Z");
    assert!(state.goto.items.is_empty());
    handle_goto_key(&mut state, key(KeyCode::Backspace, NO_MODIFIERS));
    assert_eq!(state.goto.filter, "");
    assert_eq!(state.goto.items.len(), before);
    // Backspace on an empty filter leaves it empty.
    handle_goto_key(&mut state, key(KeyCode::Backspace, NO_MODIFIERS));
    assert_eq!(state.goto.filter, "");
}

#[test]
fn a_filter_that_matches_nothing_empties_the_list() {
    let mut state = state_with_two_workspaces();
    open_goto(&mut state);
    for ch in ['q', 'x', 'q'] {
        handle_goto_key(&mut state, key(KeyCode::Char(ch), NO_MODIFIERS));
    }
    assert!(state.goto.items.is_empty());
    assert_eq!(state.goto.list, 0);
}

#[test]
fn up_down_and_control_keys_move_the_cursor() {
    let mut state = state_with_two_workspaces();
    open_goto(&mut state);
    let total = state.goto.items.len();
    assert_eq!(state.goto.list, 0);
    handle_goto_key(&mut state, key(KeyCode::Down, NO_MODIFIERS));
    assert_eq!(state.goto.list, 1);
    handle_goto_key(&mut state, key(KeyCode::Char('n'), CONTROL));
    assert_eq!(state.goto.list, 2);
    handle_goto_key(&mut state, key(KeyCode::Char('p'), CONTROL));
    assert_eq!(state.goto.list, 1);
    handle_goto_key(&mut state, key(KeyCode::Up, NO_MODIFIERS));
    handle_goto_key(&mut state, key(KeyCode::Up, NO_MODIFIERS));
    assert_eq!(state.goto.list, 0);
    for _ in 0..10 {
        handle_goto_key(&mut state, key(KeyCode::Down, NO_MODIFIERS));
    }
    assert_eq!(state.goto.list, total - 1);
    // Control with another letter does nothing.
    handle_goto_key(&mut state, key(KeyCode::Char('x'), CONTROL));
    assert_eq!(state.goto.filter, "");
    assert_eq!(state.goto.list, total - 1);
}

#[test]
fn enter_on_an_agent_row_focuses_its_pane() {
    let mut state = state_with_two_workspaces();
    terminal_of_workspace(&mut state, 1).set_detected_state(Some(Agent::Aider), AgentState::Idle);
    open_goto(&mut state);
    let idx = state
        .goto
        .items
        .iter()
        .position(|i| matches!(i.target, GotoTarget::Agent { ws_idx: 1, .. }))
        .unwrap();
    state.goto.list = idx;
    apply_goto(&mut state);
    assert_eq!(state.active, Some(1));
    assert_eq!(state.selected, 1);
    assert_eq!(state.workspaces[1].tabs[0].layout.focused, 2);
    assert_eq!(state.mode, Mode::Terminal);
    assert!(state.goto.items.is_empty());
}

#[test]
fn enter_on_an_empty_list_just_closes() {
    let mut state = state_with_two_workspaces();
    open_goto(&mut state);
    toggle_category(&mut state, GotoCategory::Agents);
    apply_goto(&mut state);
    assert_eq!(state.active, Some(0));
    assert_eq!(state.mode, Mode::Terminal);
}

#[test]
fn leaving_without_active_workspace_returns_to_navigation() {
    let mut state = state_with_two_workspaces();
    state.active = None;
    open_goto(&mut state);
    leave_goto(&mut state);
    assert_eq!(state.mode, Mode::Navigate);
    assert_eq!(state.goto.category, None);
    assert_eq!(state.goto.filter, "");
}

#[test]
fn rerank_without_filter_puts_cursor_on_current_row() {
    let mut state = state_with_two_workspaces();
    state.active = Some(1);
    open_goto(&mut state);
    assert_eq!(state.goto.list, 2);
    state.goto.category = Some(GotoCategory::Tabs);
    rerank(&mut state);
    assert_eq!(state.goto.items.len(), 2);
    assert_eq!(state.goto.list, 1);
}

#[test]
fn category_membership() {
    let item = |target, status| GotoItem {
        target,
        label: String::new(),
        haystack: String::new(),
        is_current: false,
        agent_status: status,
    };
    let space = item(GotoTarget::Space { ws_idx: 0 }, None);
    let blocked = item(
        GotoTarget::Agent { ws_idx: 0, tab_idx: 0, pane_id: 1 },
        Some((AgentState::Blocked, false)),
    );
    let idle = item(
        GotoTarget::Agent { ws_idx: 0, tab_idx: 0, pane_id: 1 },
        Some((AgentState::Idle, true)),
    );
    assert!(matches_category(&space, None));
    assert!(matches_category(&space, Some(GotoCategory::Workspaces)));
    assert!(!matches_category(&space, Some(GotoCategory::Tabs)));
    assert!(matches_category(&blocked, Some(GotoCategory::BlockedAgents)));
    assert!(matches_category(&idle, Some(GotoCategory::Agents)));
    assert!(!matches_category(&idle, Some(GotoCategory::BlockedAgents)));
}

#[test]
fn ranking_keeps_scored_rows_best_first_and_stable() {
    let row = |name: &str| GotoItem {
        target: GotoTarget::Space { ws_idx: 0 },
        label: name.to_string(),
        haystack: name.to_string(),
        is_current: false,
        agent_status: None,
    };
    let items = vec![row("a"), row("b"), row("c"), row("d"), row("e")];
    let scores = vec![Some(10), None, Some(30), Some(10), Some(20)];
    let ranked = rank_scored(&items, &scores);
    let labels: Vec<&str> = ranked.iter().map(|i| i.label.as_str()).collect();
    assert_eq!(labels, vec!["c", "e", "a", "d"]);
}

#[test]
fn keys_map_to_actions() {
    assert_eq!(classify_key(key(KeyCode::Esc, CONTROL)), GotoAction::Leave);
    assert_eq!(classify_key(key(KeyCode::Enter, SHIFT)), GotoAction::Apply);
    assert_eq!(classify_key(key(KeyCode::Char('a'), ALT)), GotoAction::ToggleCategory(GotoCategory::Agents));
    assert_eq!(classify_key(key(KeyCode::Char('x'), ALT)), GotoAction::Ignore);
    assert_eq!(classify_key(key(KeyCode::Char('X'), SHIFT)), GotoAction::Type('X'));
    assert_eq!(classify_key(key(KeyCode::Char('p'), NO_MODIFIERS)), GotoAction::Type('p'));
    assert_eq!(classify_key(key(KeyCode::Char('p'), CONTROL)), GotoAction::CursorUp);
    assert_eq!(classify_key(key(KeyCode::Other, NO_MODIFIERS)), GotoAction::Ignore);
}

#[test]
fn a_filter_of_many_short_words_still_ranks_rows() {
    let mut state = state_with_two_workspaces();
    open_goto(&mut state);
    let total = state.goto.items.len();
    state.goto.filter = "a ".repeat(40000);
    rerank(&mut state);
    assert_eq!(state.goto.items.len(), total);
    assert_eq!(state.goto.list, 0);
}

#[test]
fn a_filter_of_seventy_thousand_words_still_ranks_rows() {
    let mut state = state_with_two_workspaces();
    open_goto(&mut state);
    let total = state.goto.items.len();
    state.goto.filter = "a ".repeat(70000);
    rerank(&mut state);
    assert_eq!(state.goto.items.len(), total);
    assert_eq!(state.goto.list, 0);
}

#[test]
fn a_word_longer_than_any_row_matches_nothing() {
    let mut state = state_with_two_workspaces();
    open_goto(&mut state);
    state.goto.filter = "a".repeat(3000);
    rerank(&mut state);
    assert!(state.goto.items.is_empty());
}

#[test]
fn words_are_matched_independently() {
    let mut state = state_with_two_workspaces();
    open_goto(&mut state);
    state.goto.filter = "tab beta".to_string();
    rerank(&mut state);
    assert_eq!(state.goto.items.len(), 1);
    assert_eq!(state.goto.items[0].label, "[tab]   beta \u{203a} 1");
}
