//! The goto picker: a filterable list of every workspace, tab and agent that
//! the user can jump to, with a cursor, a text filter and a category.
use vstd::prelude::*;

use crate::keys::{classify_key, key_action, GotoAction, KeyPress};
use crate::model::{
    agent_name_spec, effective_agent_spec, focus_pane_spec, focused_pane_spec, state_label,
    state_label_spec, switch_tab_spec, switch_workspace_spec, AgentState, AppState, AppView, Mode,
};
use crate::text::{
    char_utf8_len, lowercase, nucleo_word_count, nucleo_word_len, nucleo_word_score, parse_filter,
    pop_char, push_char, score_word, to_lowercase, utf8_len, word_length, word_total, ParsedFilter,
    MAX_WORD_CHARS,
};
use vstd::string::StrSliceExecFns;

verus! {

/// The kinds of row the picker can be narrowed to.
#[derive(PartialEq, Eq, Structural, Clone, Copy, Debug)]
pub enum GotoCategory {
    Tabs,
    Workspaces,
    Agents,
    BlockedAgents,
}

/// Where a row of the picker leads.
#[derive(PartialEq, Eq, Structural, Clone, Copy, Debug)]
pub enum GotoTarget {
    Space { ws_idx: usize },
    Tab { ws_idx: usize, tab_idx: usize },
    Agent { ws_idx: usize, tab_idx: usize, pane_id: u64 },
}

/// One row of the picker.
pub struct GotoItem {
    pub target: GotoTarget,
    /// The text shown for the row.
    pub label: String,
    /// The lower-cased text that the filter is matched against.
    pub haystack: String,
    /// Whether the row is where the user is now.
    pub is_current: bool,
    /// For an agent row, the agent's state and whether its pane was seen.
    pub agent_status: Option<(AgentState, bool)>,
}

#[verifier::ext_equal]
pub struct GotoItemView {
    pub target: GotoTarget,
    pub label: Seq<char>,
    pub haystack: Seq<char>,
    pub is_current: bool,
    pub agent_status: Option<(AgentState, bool)>,
}

impl View for GotoItem {
    type V = GotoItemView;

    open spec fn view(&self) -> GotoItemView {
        GotoItemView {
            target: self.target,
            label: self.label@,
            haystack: self.haystack@,
            is_current: self.is_current,
            agent_status: self.agent_status,
        }
    }
}

impl GotoItem {
    /// A copy of the row.
    pub fn duplicate(&self) -> (r: GotoItem)
        ensures
            r@ == self@,
    {
        GotoItem {
            target: self.target,
            label: self.label.clone(),
            haystack: self.haystack.clone(),
            is_current: self.is_current,
            agent_status: self.agent_status,
        }
    }
}

pub open spec fn items_view(s: Seq<GotoItem>) -> Seq<GotoItemView> {
    s.map_values(|i: GotoItem| i@)
}

/// The picker's own state.
pub struct GotoState {
    /// The text typed so far.
    pub filter: String,
    /// The kind of row the list is narrowed to, if any.
    pub category: Option<GotoCategory>,
    /// The rows shown, in order.
    pub items: Vec<GotoItem>,
    /// The index of the row under the cursor.
    pub list: usize,
}

#[verifier::ext_equal]
pub struct GotoView {
    pub filter: Seq<char>,
    pub category: Option<GotoCategory>,
    pub items: Seq<GotoItemView>,
    pub list: usize,
}

impl View for GotoState {
    type V = GotoView;

    open spec fn view(&self) -> GotoView {
        GotoView {
            filter: self.filter@,
            category: self.category,
            items: items_view(self.items@),
            list: self.list,
        }
    }
}

pub open spec fn empty_goto() -> GotoView {
    GotoView { filter: Seq::empty(), category: None, items: Seq::empty(), list: 0 }
}

impl GotoState {
    pub fn new() -> (g: GotoState)
        ensures
            g@ == empty_goto(),
    {
        let g = GotoState { filter: String::new(), category: None, items: Vec::new(), list: 0 };
        assert(g@.items =~= Seq::<GotoItemView>::empty());
        g
    }
}

/// The cursor is on a row, or the list is empty and the cursor at 0.
pub open spec fn cursor_in_range(g: GotoView) -> bool {
    g.list < g.items.len() || (g.items.len() == 0 && g.list == 0)
}

// ---------------------------------------------------------------------------
// Categories

/// Whether a row belongs to a category; no category admits every row.
pub open spec fn in_category(e: GotoItemView, category: Option<GotoCategory>) -> bool {
    match category {
        None => true,
        Some(GotoCategory::Workspaces) => e.target is Space,
        Some(GotoCategory::Tabs) => e.target is Tab,
        Some(GotoCategory::Agents) => e.target is Agent,
        Some(GotoCategory::BlockedAgents) => e.target is Agent && (match e.agent_status {
            Some((s, _)) => s == AgentState::Blocked,
            None => false,
        }),
    }
}

/// The rows of `s` that belong to `category`, in their order.
pub open spec fn items_in_category(s: Seq<GotoItemView>, category: Option<GotoCategory>) -> Seq<
    GotoItemView,
>
    decreases s.len(),
{
    if s.len() == 0 {
        Seq::empty()
    } else {
        let rest = items_in_category(s.drop_last(), category);
        if in_category(s.last(), category) {
            rest.push(s.last())
        } else {
            rest
        }
    }
}

pub fn matches_category(item: &GotoItem, category: Option<GotoCategory>) -> (r: bool)
    ensures
        r == in_category(item@, category),
{
    match category {
        None => true,
        Some(GotoCategory::Workspaces) => match item.target {
            GotoTarget::Space { .. } => true,
            _ => false,
        },
        Some(GotoCategory::Tabs) => match item.target {
            GotoTarget::Tab { .. } => true,
            _ => false,
        },
        Some(GotoCategory::Agents) => match item.target {
            GotoTarget::Agent { .. } => true,
            _ => false,
        },
        Some(GotoCategory::BlockedAgents) => {
            let is_agent = match item.target {
                GotoTarget::Agent { .. } => true,
                _ => false,
            };
            let blocked = match item.agent_status {
                Some((AgentState::Blocked, _)) => true,
                _ => false,
            };
            is_agent && blocked
        },
    }
}

/// The category after the user asks for `category`: asking again for the
/// category in force lifts it.
pub open spec fn toggled_category(current: Option<GotoCategory>, category: GotoCategory) -> Option<
    GotoCategory,
> {
    if current == Some(category) {
        None
    } else {
        Some(category)
    }
}

// ---------------------------------------------------------------------------
// The rows of the picker

/// The row of workspace `w`.
pub open spec fn space_item(v: AppView, w: int) -> GotoItemView {
    let ws = v.workspaces[w];
    GotoItemView {
        target: GotoTarget::Space { ws_idx: w as usize },
        label: "[space] "@ + ws.name,
        haystack: lowercase("space "@ + ws.name),
        is_current: v.active == Some(w as usize),
        agent_status: None,
    }
}

/// The row of tab `t` of workspace `w`.
pub open spec fn tab_item(v: AppView, w: int, t: int) -> GotoItemView {
    let ws = v.workspaces[w];
    let tab = ws.tabs[t];
    GotoItemView {
        target: GotoTarget::Tab { ws_idx: w as usize, tab_idx: t as usize },
        label: "[tab]   "@ + ws.name + " \u{203a} "@ + tab.name,
        haystack: lowercase("tab "@ + ws.name + " "@ + tab.name),
        is_current: v.active == Some(w as usize) && ws.active_tab == t,
        agent_status: None,
    }
}

/// The row of pane `pane_id` of tab `t` of workspace `w`: there is one only
/// when the pane exists, its terminal exists and the terminal runs an agent,
/// detected or announced by a hook.
pub open spec fn agent_row_for(v: AppView, w: int, t: int, pane_id: u64) -> Option<GotoItemView> {
    let ws = v.workspaces[w];
    let tab = ws.tabs[t];
    if !tab.panes.contains_key(pane_id) {
        None
    } else {
        let pane = tab.panes[pane_id];
        if !v.terminals.contains_key(pane.attached_terminal_id) {
            None
        } else {
            let term = v.terminals[pane.attached_terminal_id];
            match effective_agent_spec(term) {
                None => None,
                Some(agent) => {
                    let agent_label = match term.agent_name {
                        Some(name) => name,
                        None => agent_name_spec(agent),
                    };
                    let status = state_label_spec(term.state);
                    Some(
                        GotoItemView {
                            target: GotoTarget::Agent {
                                ws_idx: w as usize,
                                tab_idx: t as usize,
                                pane_id,
                            },
                            label: "[agent] "@ + ws.name + " \u{203a} "@ + tab.name + " \u{203a} "@
                                + agent_label,
                            haystack: lowercase(
                                "agent "@ + ws.name + " "@ + tab.name + " "@ + agent_label + " "@
                                    + status,
                            ),
                            is_current: v.active == Some(w as usize) && ws.active_tab == t
                                && focused_pane_spec(ws) == Some(pane_id),
                            agent_status: Some((term.state, pane.seen)),
                        },
                    )
                },
            }
        }
    }
}

/// The row of the `k`-th pane (in layout order) of tab `t` of workspace `w`.
pub open spec fn agent_item(v: AppView, w: int, t: int, k: int) -> Option<GotoItemView> {
    agent_row_for(v, w, t, v.workspaces[w].tabs[t].pane_order[k])
}

pub open spec fn opt_seq(o: Option<GotoItemView>) -> Seq<GotoItemView> {
    match o {
        Some(e) => seq![e],
        None => Seq::empty(),
    }
}

/// The agent rows of the first `n` panes of tab `t` of workspace `w`.
pub open spec fn pane_items(v: AppView, w: int, t: int, n: int) -> Seq<GotoItemView>
    decreases n,
{
    if n <= 0 {
        Seq::empty()
    } else {
        pane_items(v, w, t, n - 1) + opt_seq(agent_item(v, w, t, n - 1))
    }
}

/// A tab's row followed by the rows of its agents.
pub open spec fn tab_block(v: AppView, w: int, t: int) -> Seq<GotoItemView> {
    seq![tab_item(v, w, t)] + pane_items(v, w, t, v.workspaces[w].tabs[t].pane_order.len() as int)
}

/// The blocks of the first `n` tabs of workspace `w`.
pub open spec fn tab_items(v: AppView, w: int, n: int) -> Seq<GotoItemView>
    decreases n,
{
    if n <= 0 {
        Seq::empty()
    } else {
        tab_items(v, w, n - 1) + tab_block(v, w, n - 1)
    }
}

/// A workspace's row followed by the blocks of its tabs.
pub open spec fn workspace_block(v: AppView, w: int) -> Seq<GotoItemView> {
    seq![space_item(v, w)] + tab_items(v, w, v.workspaces[w].tabs.len() as int)
}

/// The blocks of the first `n` workspaces.
pub open spec fn items_upto(v: AppView, n: int) -> Seq<GotoItemView>
    decreases n,
{
    if n <= 0 {
        Seq::empty()
    } else {
        items_upto(v, n - 1) + workspace_block(v, n - 1)
    }
}

/// Every row of the picker, before any category or filter: each workspace,
/// then each of its tabs, each tab followed by the agents in its panes.
pub open spec fn all_items(v: AppView) -> Seq<GotoItemView> {
    items_upto(v, v.workspaces.len() as int)
}

fn same_index(a: Option<usize>, w: usize) -> (r: bool)
    ensures
        r == (a == Some(w)),
{
    match a {
        Some(i) => i == w,
        None => false,
    }
}

fn space_row(state: &AppState, w: usize) -> (r: GotoItem)
    requires
        w < state.workspaces.len(),
    ensures
        r@ == space_item(state@, w as int),
{
    let ws = &state.workspaces[w];
    let name = ws.display_name();
    let mut label = String::from_str("[space] ");
    label.append(name);
    let mut hay = String::from_str("space ");
    hay.append(name);
    let haystack = to_lowercase(hay.as_str());
    let is_current = same_index(state.active, w);
    GotoItem { target: GotoTarget::Space { ws_idx: w }, label, haystack, is_current, agent_status: None }
}

fn tab_row(state: &AppState, w: usize, t: usize) -> (r: GotoItem)
    requires
        w < state.workspaces.len(),
        t < state.workspaces@[w as int].tabs.len(),
    ensures
        r@ == tab_item(state@, w as int, t as int),
{
    let ws = &state.workspaces[w];
    let tab = &ws.tabs[t];
    let ws_name = ws.display_name();
    let tab_name = tab.display_name();
    let mut label = String::from_str("[tab]   ");
    label.append(ws_name);
    label.append(" \u{203a} ");
    label.append(tab_name);
    let mut hay = String::from_str("tab ");
    hay.append(ws_name);
    hay.append(" ");
    hay.append(tab_name);
    let haystack = to_lowercase(hay.as_str());
    let is_current = same_index(state.active, w) && ws.active_tab == t;
    GotoItem {
        target: GotoTarget::Tab { ws_idx: w, tab_idx: t },
        label,
        haystack,
        is_current,
        agent_status: None,
    }
}

fn agent_row(state: &AppState, w: usize, t: usize, k: usize) -> (r: Option<GotoItem>)
    requires
        w < state.workspaces.len(),
        t < state.workspaces@[w as int].tabs.len(),
        k < state.workspaces@[w as int].tabs@[t as int].layout.pane_order.len(),
    ensures
        match r {
            Some(it) => agent_item(state@, w as int, t as int, k as int) == Some(it@),
            None => agent_item(state@, w as int, t as int, k as int) is None,
        },
{
    let ws = &state.workspaces[w];
    let tab = &ws.tabs[t];
    let pane_id = tab.layout.pane_order[k];
    let pane = match tab.panes.get(&pane_id) {
        Some(p) => p,
        None => return None,
    };
    let terminal = match state.terminals.get(&pane.attached_terminal_id) {
        Some(term) => term,
        None => return None,
    };
    let effective = match terminal.effective_agent_label() {
        Some(e) => e,
        None => return None,
    };
    let agent_label = match &terminal.agent_name {
        Some(name) => name.clone(),
        None => String::from_str(effective),
    };
    let status = state_label(terminal.state, pane.seen);
    let ws_name = ws.display_name();
    let tab_name = tab.display_name();
    let mut label = String::from_str("[agent] ");
    label.append(ws_name);
    label.append(" \u{203a} ");
    label.append(tab_name);
    label.append(" \u{203a} ");
    label.append(agent_label.as_str());
    let mut hay = String::from_str("agent ");
    hay.append(ws_name);
    hay.append(" ");
    hay.append(tab_name);
    hay.append(" ");
    hay.append(agent_label.as_str());
    hay.append(" ");
    hay.append(status);
    let haystack = to_lowercase(hay.as_str());
    let focused = ws.focused_pane_id();
    let is_focused = match focused {
        Some(f) => f == pane_id,
        None => false,
    };
    let is_current = same_index(state.active, w) && ws.active_tab == t && is_focused;
    Some(
        GotoItem {
            target: GotoTarget::Agent { ws_idx: w, tab_idx: t, pane_id },
            label,
            haystack,
            is_current,
            agent_status: Some((terminal.state, pane.seen)),
        },
    )
}

/// Every row the picker can show, in the order of `all_items`.
pub fn rebuild_items(state: &AppState) -> (r: Vec<GotoItem>)
    ensures
        items_view(r@) == all_items(state@),
{
    let mut items: Vec<GotoItem> = Vec::new();
    let n = state.workspaces.len();
    let mut w: usize = 0;
    while w < n
        invariant
            n == state.workspaces.len(),
            w <= n,
            items_view(items@) == items_upto(state@, w as int),
        decreases n - w,
    {
        let ghost before_ws = items_view(items@);
        let row = space_row(state, w);
        items.push(row);
        assert(items_view(items@) =~= before_ws + seq![space_item(state@, w as int)]);
        let nt = state.workspaces[w].tabs.len();
        let mut t: usize = 0;
        while t < nt
            invariant
                n == state.workspaces.len(),
                w < n,
                nt == state.workspaces@[w as int].tabs.len(),
                t <= nt,
                items_view(items@) == before_ws + seq![space_item(state@, w as int)] + tab_items(
                    state@,
                    w as int,
                    t as int,
                ),
            decreases nt - t,
        {
            let ghost before_tab = items_view(items@);
            let row = tab_row(state, w, t);
            items.push(row);
            assert(items_view(items@) =~= before_tab + seq![tab_item(state@, w as int, t as int)]);
            let np = state.workspaces[w].tabs[t].layout.pane_order.len();
            let mut k: usize = 0;
            while k < np
                invariant
                    n == state.workspaces.len(),
                    w < n,
                    nt == state.workspaces@[w as int].tabs.len(),
                    t < nt,
                    np == state.workspaces@[w as int].tabs@[t as int].layout.pane_order.len(),
                    k <= np,
                    items_view(items@) == before_tab + seq![tab_item(state@, w as int, t as int)]
                        + pane_items(state@, w as int, t as int, k as int),
                decreases np - k,
            {
                let ghost before_pane = items_view(items@);
                match agent_row(state, w, t, k) {
                    Some(row) => {
                        let ghost rv = row@;
                        items.push(row);
                        assert(items_view(items@) =~= before_pane + seq![rv]);
                    },
                    None => {},
                }
                assert(items_view(items@) =~= before_tab + seq![tab_item(state@, w as int, t as int)]
                    + pane_items(state@, w as int, t as int, k + 1));
                k = k + 1;
            }
            assert(items_view(items@) =~= before_ws + seq![space_item(state@, w as int)] + tab_items(
                state@,
                w as int,
                t + 1,
            ));
            t = t + 1;
        }
        assert(items_view(items@) =~= items_upto(state@, w + 1));
        w = w + 1;
    }
    items
}

// ---------------------------------------------------------------------------
// Ranking by score

/// The first index at or after `j` whose score is below `k`, or the length.
pub open spec fn first_below<A>(s: Seq<(A, u32)>, k: u32, j: int) -> int
    decreases s.len() - j,
{
    if j >= s.len() {
        s.len() as int
    } else if s[j].1 < k {
        j
    } else {
        first_below(s, k, j + 1)
    }
}

/// Where an entry scored `k` goes in a list ordered by falling score: after
/// every entry that scores at least as much.
pub open spec fn insert_pos<A>(s: Seq<(A, u32)>, k: u32) -> int {
    first_below(s, k, 0)
}

/// The entries of `s` ordered by falling score; entries with equal scores
/// keep the order they had in `s` (a stable sort).
pub open spec fn sort_by_score<A>(s: Seq<(A, u32)>) -> Seq<(A, u32)>
    decreases s.len(),
{
    if s.len() == 0 {
        s
    } else {
        let p = sort_by_score(s.drop_last());
        p.insert(insert_pos(p, s.last().1), s.last())
    }
}

/// The rows among the first `n` of `items` that have a score, each with it.
pub open spec fn keep_scored(items: Seq<GotoItemView>, scores: Seq<Option<u32>>, n: int) -> Seq<
    (GotoItemView, u32),
>
    decreases n,
{
    if n <= 0 {
        Seq::empty()
    } else {
        let rest = keep_scored(items, scores, n - 1);
        match scores[n - 1] {
            Some(k) => rest.push((items[n - 1], k)),
            None => rest,
        }
    }
}

/// The rows that have a score, best score first, ties in their old order.
pub open spec fn rank_spec(items: Seq<GotoItemView>, scores: Seq<Option<u32>>) -> Seq<GotoItemView> {
    sort_by_score(keep_scored(items, scores, items.len() as int)).map_values(
        |p: (GotoItemView, u32)| p.0,
    )
}

pub open spec fn pairs_view(s: Seq<(GotoItem, u32)>) -> Seq<(GotoItemView, u32)> {
    s.map_values(|p: (GotoItem, u32)| (p.0@, p.1))
}

/// Puts `item`, scored `k`, after every entry of `out` that scores at least `k`.
fn insert_by_score(out: &mut Vec<(GotoItem, u32)>, item: GotoItem, k: u32)
    ensures
        pairs_view(final(out)@) == pairs_view(old(out)@).insert(
            insert_pos(pairs_view(old(out)@), k),
            (item@, k),
        ),
{
    let ghost pv = pairs_view(out@);
    let n = out.len();
    let mut j: usize = 0;
    while j < n && out[j].1 >= k
        invariant
            n == out.len(),
            pv == pairs_view(out@),
            j <= n,
            first_below(pv, k, j as int) == first_below(pv, k, 0),
        decreases n - j,
    {
        j = j + 1;
    }
    let ghost iv = item@;
    out.insert(j, (item, k));
    assert(pairs_view(out@) =~= pv.insert(j as int, (iv, k)));
}

/// Keeps the rows that have a score and orders them best first; rows with
/// equal scores keep their order. `scores[i]` is the score of `items[i]`.
pub fn rank_scored(items: &Vec<GotoItem>, scores: &Vec<Option<u32>>) -> (r: Vec<GotoItem>)
    requires
        items.len() == scores.len(),
    ensures
        items_view(r@) == rank_spec(items_view(items@), scores@),
{
    let ghost iv = items_view(items@);
    let mut out: Vec<(GotoItem, u32)> = Vec::new();
    let n = items.len();
    let mut i: usize = 0;
    assert(pairs_view(out@) =~= sort_by_score(keep_scored(iv, scores@, 0)));
    while i < n
        invariant
            n == items.len(),
            n == scores.len(),
            iv == items_view(items@),
            i <= n,
            pairs_view(out@) == sort_by_score(keep_scored(iv, scores@, i as int)),
        decreases n - i,
    {
        match scores[i] {
            Some(k) => {
                let it = items[i].duplicate();
                insert_by_score(&mut out, it, k);
                let ghost prev = keep_scored(iv, scores@, i as int);
                assert(keep_scored(iv, scores@, i + 1) == prev.push((iv[i as int], k)));
                assert(prev.push((iv[i as int], k)).drop_last() =~= prev);
            },
            None => {},
        }
        i = i + 1;
    }
    let ghost sorted = pairs_view(out@);
    let mut r: Vec<GotoItem> = Vec::new();
    let m = out.len();
    let mut j: usize = 0;
    while j < m
        invariant
            m == out.len(),
            sorted == pairs_view(out@),
            j <= m,
            items_view(r@) == sorted.take(j as int).map_values(|p: (GotoItemView, u32)| p.0),
        decreases m - j,
    {
        let it = out[j].0.duplicate();
        assert(sorted[j as int].0 == it@);
        let ghost before = items_view(r@);
        let ghost itv = it@;
        r.push(it);
        assert(items_view(r@) =~= before.push(itv));
        assert(sorted.take(j + 1).map_values(|p: (GotoItemView, u32)| p.0) =~= sorted.take(
            j as int,
        ).map_values(|p: (GotoItemView, u32)| p.0).push(itv));
        assert(items_view(r@) =~= sorted.take(j + 1).map_values(|p: (GotoItemView, u32)| p.0));
        j = j + 1;
    }
    assert(sorted.take(m as int) =~= sorted);
    r
}

// ---------------------------------------------------------------------------
// Narrowing the list

pub open spec fn add_points(a: int, rest: Option<int>) -> Option<int> {
    match rest {
        Some(t) => Some(a + t),
        None => None,
    }
}

/// The points of the filter's words from word `i` on against `haystack`,
/// added up as nucleo's `Pattern::score` adds them: none as soon as a word
/// does not match. A word longer than `MAX_WORD_CHARS`, whose `u16` score
/// could overflow inside nucleo, also gives none.
pub open spec fn words_total(filter: Seq<char>, haystack: Seq<char>, i: int) -> Option<int>
    decreases nucleo_word_count(filter) - i,
{
    if i >= nucleo_word_count(filter) {
        Some(0)
    } else if nucleo_word_len(filter, i) > MAX_WORD_CHARS {
        None
    } else {
        match nucleo_word_score(filter, i, haystack) {
            None => None,
            Some(points) => add_points(points as int, words_total(filter, haystack, i + 1)),
        }
    }
}

/// The score of a text for the filter: the sum of its words' points, as
/// `Pattern::score` gives it, whenever that sum fits the `u32` nucleo adds
/// it in. A sum that would overflow, or a text of more than `u32::MAX` bytes,
/// which nucleo refuses, gives no score.
pub open spec fn haystack_score(filter: Seq<char>, haystack: Seq<char>) -> Option<u32> {
    if utf8_len(haystack) > u32::MAX {
        None
    } else {
        match words_total(filter, haystack, 0) {
            Some(t) => if t <= u32::MAX {
                Some(t as u32)
            } else {
                None
            },
            None => None,
        }
    }
}

/// The score of a row for the filter; rows without one are not shown.
pub open spec fn item_score(filter: Seq<char>, e: GotoItemView) -> Option<u32> {
    haystack_score(filter, e.haystack)
}

pub open spec fn scores_for(items: Seq<GotoItemView>, filter: Seq<char>) -> Seq<Option<u32>> {
    items.map_values(|e: GotoItemView| item_score(filter, e))
}

/// The rows shown for a category and a filter: with no filter every row of
/// the category in the usual order, else those that match, best first.
pub open spec fn ranked_items(
    all: Seq<GotoItemView>,
    category: Option<GotoCategory>,
    filter: Seq<char>,
) -> Seq<GotoItemView> {
    let matching = items_in_category(all, category);
    if filter.len() == 0 {
        matching
    } else {
        rank_spec(matching, scores_for(matching, filter))
    }
}

/// The index of the first row at or after `j` that is current, or the length.
pub open spec fn first_current_from(s: Seq<GotoItemView>, j: int) -> int
    decreases s.len() - j,
{
    if j >= s.len() {
        s.len() as int
    } else if s[j].is_current {
        j
    } else {
        first_current_from(s, j + 1)
    }
}

/// The first current row, or 0 when no row is current.
pub open spec fn current_or_first(s: Seq<GotoItemView>) -> int {
    let p = first_current_from(s, 0);
    if p < s.len() {
        p
    } else {
        0
    }
}

/// Where the cursor goes after the rows were recomputed: on the current row
/// when there is no filter, on the best match when there is one.
pub open spec fn cursor_after_rerank(items: Seq<GotoItemView>, filter: Seq<char>) -> usize {
    if filter.len() == 0 {
        let last = if items.len() == 0 {
            0
        } else {
            items.len() - 1
        };
        let p = current_or_first(items);
        (if p < last {
            p
        } else {
            last
        }) as usize
    } else {
        0
    }
}

/// The state after the rows are recomputed from the application state, the
/// category and the filter.
pub open spec fn rerank_spec(v: AppView) -> AppView {
    let items = ranked_items(all_items(v), v.goto.category, v.goto.filter);
    AppView {
        goto: GotoView { items, list: cursor_after_rerank(items, v.goto.filter), ..v.goto },
        ..v
    }
}

fn keep_category(all: &Vec<GotoItem>, category: Option<GotoCategory>) -> (r: Vec<GotoItem>)
    ensures
        items_view(r@) == items_in_category(items_view(all@), category),
{
    let ghost av = items_view(all@);
    let mut r: Vec<GotoItem> = Vec::new();
    let n = all.len();
    let mut i: usize = 0;
    while i < n
        invariant
            n == all.len(),
            av == items_view(all@),
            i <= n,
            items_view(r@) == items_in_category(av.take(i as int), category),
        decreases n - i,
    {
        assert(av.take(i + 1).drop_last() =~= av.take(i as int));
        if matches_category(&all[i], category) {
            let it = all[i].duplicate();
            let ghost before = items_view(r@);
            let ghost itv = it@;
            r.push(it);
            assert(items_view(r@) =~= before.push(itv));
        }
        i = i + 1;
    }
    assert(av.take(n as int) =~= av);
    r
}

fn first_current(items: &Vec<GotoItem>) -> (r: usize)
    ensures
        r == current_or_first(items_view(items@)),
{
    let ghost iv = items_view(items@);
    let n = items.len();
    let mut j: usize = 0;
    while j < n && !items[j].is_current
        invariant
            n == items.len(),
            iv == items_view(items@),
            j <= n,
            first_current_from(iv, j as int) == first_current_from(iv, 0),
        decreases n - j,
    {
        j = j + 1;
    }
    if j < n {
        j
    } else {
        0
    }
}

proof fn lemma_utf8_len_grows(s: Seq<char>, i: int, j: int)
    requires
        0 <= i <= j <= s.len(),
    ensures
        utf8_len(s.take(i)) <= utf8_len(s.take(j)),
    decreases j - i,
{
    if i < j {
        lemma_utf8_len_grows(s, i, j - 1);
        assert(s.take(j).drop_last() =~= s.take(j - 1));
    }
}

proof fn lemma_words_total_nonneg(filter: Seq<char>, haystack: Seq<char>, i: int)
    ensures
        words_total(filter, haystack, i) matches Some(t) ==> t >= 0,
    decreases nucleo_word_count(filter) - i,
{
    if i < nucleo_word_count(filter) {
        lemma_words_total_nonneg(filter, haystack, i + 1);
    }
}

/// Whether the UTF-8 encoding of `s` has at most `u32::MAX` bytes.
fn utf8_fits(s: &str) -> (r: bool)
    ensures
        r == (utf8_len(s@) <= u32::MAX),
{
    let ghost chars = s@;
    let n = s.unicode_len();
    let mut total: u64 = 0;
    for c in it: s.chars()
        invariant
            it.seq() == chars,
            chars == s@,
            n == chars.len(),
            total == utf8_len(chars.take(it.index() as int)),
            total <= u32::MAX,
    {
        let ghost i = it.index();
        assert(chars.take(i + 1).drop_last() =~= chars.take(i as int));
        let code = c as u32;
        let bytes: u64 = if code < 0x80 {
            1
        } else if code < 0x800 {
            2
        } else if code < 0x10000 {
            3
        } else {
            4
        };
        assert(bytes == char_utf8_len(chars[i as int]));
        total = total + bytes;
        if total > 4294967295 {
            proof {
                lemma_utf8_len_grows(chars, i + 1, chars.len() as int);
                assert(chars.take(chars.len() as int) =~= chars);
            }
            return false;
        }
    }
    assert(chars.take(chars.len() as int) =~= chars);
    true
}

/// The score of one row text: its words scored one by one and added up.
fn score_row(parsed: &mut ParsedFilter, n: usize, haystack: &str) -> (r: Option<u32>)
    requires
        n == nucleo_word_count(old(parsed).source()),
    ensures
        final(parsed).source() == old(parsed).source(),
        r == haystack_score(old(parsed).source(), haystack@),
{
    let ghost f = parsed.source();
    let ghost h = haystack@;
    if !utf8_fits(haystack) {
        return None;
    }
    let mut total: u64 = 0;
    let mut i: usize = 0;
    while i < n
        invariant
            n == nucleo_word_count(f),
            f == parsed.source(),
            f == old(parsed).source(),
            h == haystack@,
            utf8_len(h) <= u32::MAX,
            i <= n,
            total <= u32::MAX,
            words_total(f, h, 0) == add_points(total as int, words_total(f, h, i as int)),
        decreases n - i,
    {
        if word_length(parsed, i) > MAX_WORD_CHARS {
            return None;
        }
        match score_word(parsed, i, haystack) {
            None => {
                return None;
            },
            Some(points) => {
                total = total + points as u64;
                if total > 4294967295 {
                    proof {
                        lemma_words_total_nonneg(f, h, i + 1);
                    }
                    return None;
                }
            },
        }
        i = i + 1;
    }
    Some(total as u32)
}

/// Recomputes the rows from the application state and narrows them by the
/// category and the filter.
pub fn rerank(state: &mut AppState)
    ensures
        final(state)@ == rerank_spec(old(state)@),
{
    let all = rebuild_items(state);
    let matching = keep_category(&all, state.goto.category);
    if state.goto.filter.as_str().is_empty() {
        let selected_pos = first_current(&matching);
        let n = matching.len();
        let last = if n == 0 {
            0
        } else {
            n - 1
        };
        state.goto.items = matching;
        state.goto.list = if selected_pos < last {
            selected_pos
        } else {
            last
        };
        return ;
    }
    let ghost mv = items_view(matching@);
    let mut parsed = parse_filter(state.goto.filter.as_str());
    let n_words = word_total(&parsed);
    let mut scores: Vec<Option<u32>> = Vec::new();
    let n = matching.len();
    let mut i: usize = 0;
    while i < n
        invariant
            n == matching.len(),
            mv == items_view(matching@),
            parsed.source() == state.goto.filter@,
            n_words == nucleo_word_count(parsed.source()),
            i <= n,
            scores@ == scores_for(mv, state.goto.filter@).take(i as int),
        decreases n - i,
    {
        let score = score_row(&mut parsed, n_words, matching[i].haystack.as_str());
        scores.push(score);
        assert(scores@ =~= scores_for(mv, state.goto.filter@).take(i + 1));
        i = i + 1;
    }
    assert(scores@ =~= scores_for(mv, state.goto.filter@));
    let ranked = rank_scored(&matching, &scores);
    state.goto.items = ranked;
    state.goto.list = 0;
}

// ---------------------------------------------------------------------------
// Opening, leaving and moving

/// How far PageUp and PageDown move the cursor.
pub const GOTO_PAGE_STEP: usize = 8;

/// The state after the picker opens: no filter, no category, every row, the
/// cursor on the current row (else on the first), and the picker's mode.
pub open spec fn open_spec(v: AppView) -> AppView {
    let items = all_items(v);
    AppView {
        goto: GotoView {
            filter: Seq::empty(),
            category: None,
            items,
            list: current_or_first(items) as usize,
        },
        mode: Mode::Goto,
        ..v
    }
}

pub open spec fn with_category(v: AppView, category: Option<GotoCategory>) -> AppView {
    AppView { goto: GotoView { category, ..v.goto }, ..v }
}

pub open spec fn with_filter(v: AppView, filter: Seq<char>) -> AppView {
    AppView { goto: GotoView { filter, ..v.goto }, ..v }
}

pub open spec fn with_list(v: AppView, list: usize) -> AppView {
    AppView { goto: GotoView { list, ..v.goto }, ..v }
}

/// The state after the picker closes: its state is cleared and the mode is
/// the terminal's when a workspace is active, else navigation.
pub open spec fn leave_spec(v: AppView) -> AppView {
    AppView {
        goto: empty_goto(),
        mode: if v.active is Some {
            Mode::Terminal
        } else {
            Mode::Navigate
        },
        ..v
    }
}

/// The application state after going to `target`.
pub open spec fn go_to_spec(v: AppView, target: GotoTarget) -> AppView {
    match target {
        GotoTarget::Space { ws_idx } => switch_workspace_spec(v, ws_idx),
        GotoTarget::Tab { ws_idx, tab_idx } => switch_tab_spec(
            switch_workspace_spec(v, ws_idx),
            tab_idx,
        ),
        GotoTarget::Agent { ws_idx, tab_idx, pane_id } => focus_pane_spec(
            switch_tab_spec(switch_workspace_spec(v, ws_idx), tab_idx),
            ws_idx,
            tab_idx,
            pane_id,
        ),
    }
}

/// The state after Enter: go to the row under the cursor, if there is one,
/// and close the picker.
pub open spec fn apply_spec(v: AppView) -> AppView {
    if v.goto.list < v.goto.items.len() {
        leave_spec(go_to_spec(v, v.goto.items[v.goto.list as int].target))
    } else {
        leave_spec(v)
    }
}

pub open spec fn last_index(items: Seq<GotoItemView>) -> usize {
    if items.len() == 0 {
        0
    } else {
        (items.len() - 1) as usize
    }
}

pub open spec fn min_usize(a: usize, b: usize) -> usize {
    if a < b {
        a
    } else {
        b
    }
}

/// The state after the picker handles an action.
pub open spec fn goto_step(v: AppView, action: GotoAction) -> AppView {
    let g = v.goto;
    let n = g.items.len();
    match action {
        GotoAction::Leave => leave_spec(v),
        GotoAction::Apply => apply_spec(v),
        GotoAction::CursorUp => with_list(v, g.list.saturating_sub(1)),
        GotoAction::CursorDown => if n > 0 {
            with_list(v, min_usize((g.list + 1) as usize, last_index(g.items)))
        } else {
            v
        },
        GotoAction::PageUp => with_list(v, g.list.saturating_sub(GOTO_PAGE_STEP)),
        GotoAction::PageDown => if n > 0 {
            with_list(v, min_usize(g.list.saturating_add(GOTO_PAGE_STEP), last_index(g.items)))
        } else {
            v
        },
        GotoAction::Home => with_list(v, 0),
        GotoAction::End => if n > 0 {
            with_list(v, last_index(g.items))
        } else {
            v
        },
        GotoAction::Backspace => rerank_spec(
            with_filter(
                v,
                if g.filter.len() > 0 {
                    g.filter.drop_last()
                } else {
                    g.filter
                },
            ),
        ),
        GotoAction::ToggleCategory(c) => rerank_spec(
            with_category(v, toggled_category(g.category, c)),
        ),
        GotoAction::Type(c) => rerank_spec(with_filter(v, g.filter.push(c))),
        GotoAction::Ignore => v,
    }
}

/// Opens the picker over every row, with the cursor on the current one.
pub fn open_goto(state: &mut AppState)
    ensures
        final(state)@ == open_spec(old(state)@),
{
    let items = rebuild_items(state);
    let pos = first_current(&items);
    state.goto.filter = String::new();
    state.goto.category = None;
    state.goto.items = items;
    state.goto.list = pos;
    state.mode = Mode::Goto;
    assert(state@.goto.filter =~= Seq::<char>::empty());
}

/// Opens the picker already narrowed to `category`.
pub fn open_goto_with_category(state: &mut AppState, category: GotoCategory)
    ensures
        final(state)@ == rerank_spec(with_category(open_spec(old(state)@), Some(category))),
{
    open_goto(state);
    state.goto.category = Some(category);
    rerank(state);
}

/// Narrows the list to `category`, or widens it again if that category was
/// already in force.
pub fn toggle_category(state: &mut AppState, category: GotoCategory)
    ensures
        final(state)@ == rerank_spec(
            with_category(old(state)@, toggled_category(old(state)@.goto.category, category)),
        ),
{
    state.goto.category = match state.goto.category {
        Some(c) => if c == category {
            None
        } else {
            Some(category)
        },
        None => Some(category),
    };
    rerank(state);
}

/// Closes the picker without going anywhere.
pub fn leave_goto(state: &mut AppState)
    ensures
        final(state)@ == leave_spec(old(state)@),
{
    state.goto.filter = String::new();
    state.goto.items = Vec::new();
    state.goto.list = 0;
    state.goto.category = None;
    state.mode = match state.active {
        Some(_) => Mode::Terminal,
        None => Mode::Navigate,
    };
    assert(state@.goto.filter =~= Seq::<char>::empty());
    assert(state@.goto.items =~= Seq::<GotoItemView>::empty());
}

/// Goes to the row under the cursor, if there is one, and closes the picker.
pub fn apply_goto(state: &mut AppState)
    ensures
        final(state)@ == apply_spec(old(state)@),
{
    if state.goto.list >= state.goto.items.len() {
        leave_goto(state);
        return ;
    }
    let target = state.goto.items[state.goto.list].target;
    match target {
        GotoTarget::Space { ws_idx } => {
            state.switch_workspace(ws_idx);
        },
        GotoTarget::Tab { ws_idx, tab_idx } => {
            state.switch_workspace(ws_idx);
            state.switch_tab(tab_idx);
        },
        GotoTarget::Agent { ws_idx, tab_idx, pane_id } => {
            state.switch_workspace(ws_idx);
            state.switch_tab(tab_idx);
            state.focus_pane_at(ws_idx, tab_idx, pane_id);
        },
    }
    leave_goto(state);
}

/// Handles a key while the picker is open.
pub fn handle_goto_key(state: &mut AppState, key: KeyPress)
    requires
        key_action(key) == GotoAction::CursorDown ==> old(state).goto.list < usize::MAX,
    ensures
        final(state)@ == goto_step(old(state)@, key_action(key)),
{
    match classify_key(key) {
        GotoAction::Leave => leave_goto(state),
        GotoAction::Apply => apply_goto(state),
        GotoAction::CursorUp => {
            state.goto.list = state.goto.list.saturating_sub(1);
        },
        GotoAction::CursorDown => {
            if state.goto.items.len() > 0 {
                let last = state.goto.items.len() - 1;
                let next = state.goto.list + 1;
                state.goto.list = if next < last {
                    next
                } else {
                    last
                };
            }
        },
        GotoAction::PageUp => {
            state.goto.list = state.goto.list.saturating_sub(GOTO_PAGE_STEP);
        },
        GotoAction::PageDown => {
            if state.goto.items.len() > 0 {
                let last = state.goto.items.len() - 1;
                let next = state.goto.list.saturating_add(GOTO_PAGE_STEP);
                state.goto.list = if next < last {
                    next
                } else {
                    last
                };
            }
        },
        GotoAction::Home => {
            state.goto.list = 0;
        },
        GotoAction::End => {
            if state.goto.items.len() > 0 {
                state.goto.list = state.goto.items.len() - 1;
            }
        },
        GotoAction::Backspace => {
            let _ = pop_char(&mut state.goto.filter);
            rerank(state);
        },
        GotoAction::ToggleCategory(c) => toggle_category(state, c),
        GotoAction::Type(c) => {
            push_char(&mut state.goto.filter, c);
            rerank(state);
        },
        GotoAction::Ignore => {},
    }
}

} // verus!
