//! The part of the application state that the goto picker reads and
//! changes: workspaces with their tabs and panes, the terminals attached to
//! the panes, and which workspace is active.
use std::collections::HashMap;
use vstd::prelude::*;

use crate::goto::{GotoState, GotoView};

verus! {

broadcast use vstd::std_specs::hash::group_hash_axioms;

/// The coding agents that the detector can recognise in a terminal.
#[derive(PartialEq, Eq, Structural, Clone, Copy, Debug)]
pub enum Agent {
    Aider,
    Codex,
    Gemini,
}

/// What a detected agent is doing.
#[derive(PartialEq, Eq, Structural, Clone, Copy, Debug)]
pub enum AgentState {
    Unknown,
    Idle,
    Working,
    Blocked,
}

/// The input mode of the application.
#[derive(PartialEq, Eq, Structural, Clone, Copy, Debug)]
pub enum Mode {
    Navigate,
    Terminal,
    Goto,
}

pub open spec fn agent_name_spec(a: Agent) -> Seq<char> {
    match a {
        Agent::Aider => "aider"@,
        Agent::Codex => "codex"@,
        Agent::Gemini => "gemini"@,
    }
}

impl Agent {
    /// The lower-case name under which the agent is shown.
    pub fn label(&self) -> (r: &'static str)
        ensures
            r@ == agent_name_spec(*self),
    {
        match self {
            Agent::Aider => "aider",
            Agent::Codex => "codex",
            Agent::Gemini => "gemini",
        }
    }
}

pub open spec fn state_label_spec(state: AgentState) -> Seq<char> {
    match state {
        AgentState::Unknown => "unknown"@,
        AgentState::Idle => "idle"@,
        AgentState::Working => "working"@,
        AgentState::Blocked => "blocked"@,
    }
}

/// The word that describes an agent's state. Whether the pane has been
/// looked at only changes how the word is coloured, not the word.
pub fn state_label(state: AgentState, seen: bool) -> (r: &'static str)
    ensures
        r@ == state_label_spec(state),
{
    match state {
        AgentState::Unknown => "unknown",
        AgentState::Idle => "idle",
        AgentState::Working => "working",
        AgentState::Blocked => "blocked",
    }
}

/// A pane of a tab, and the terminal shown in it.
#[derive(PartialEq, Eq, Structural, Clone, Copy, Debug)]
pub struct Pane {
    pub attached_terminal_id: u64,
    /// Whether the user has looked at the pane since its agent last finished.
    pub seen: bool,
}

/// A terminal, with what is known of the agent running in it.
pub struct Terminal {
    /// A name the user gave the agent; it replaces the agent's label.
    pub agent_name: Option<String>,
    /// The agent that the output detector recognised.
    pub detected_agent: Option<Agent>,
    /// The agent that announced itself through a hook; it takes precedence.
    pub hook_agent: Option<Agent>,
    pub state: AgentState,
}

#[verifier::ext_equal]
pub struct TerminalView {
    pub agent_name: Option<Seq<char>>,
    pub detected_agent: Option<Agent>,
    pub hook_agent: Option<Agent>,
    pub state: AgentState,
}

pub open spec fn opt_string_view(s: Option<String>) -> Option<Seq<char>> {
    match s {
        Some(s) => Some(s@),
        None => None,
    }
}

impl View for Terminal {
    type V = TerminalView;

    open spec fn view(&self) -> TerminalView {
        TerminalView {
            agent_name: opt_string_view(self.agent_name),
            detected_agent: self.detected_agent,
            hook_agent: self.hook_agent,
            state: self.state,
        }
    }
}

/// The agent a terminal counts as running: the hook's, else the detector's.
pub open spec fn effective_agent_spec(t: TerminalView) -> Option<Agent> {
    match t.hook_agent {
        Some(a) => Some(a),
        None => t.detected_agent,
    }
}

impl Terminal {
    pub fn new() -> (t: Terminal)
        ensures
            t@ == (TerminalView {
                agent_name: None,
                detected_agent: None,
                hook_agent: None,
                state: AgentState::Unknown,
            }),
    {
        Terminal { agent_name: None, detected_agent: None, hook_agent: None, state: AgentState::Unknown }
    }

    pub fn set_agent_name(&mut self, name: String)
        ensures
            final(self)@ == (TerminalView { agent_name: Some(name@), ..old(self)@ }),
    {
        self.agent_name = Some(name);
    }

    pub fn set_detected_state(&mut self, agent: Option<Agent>, state: AgentState)
        ensures
            final(self)@ == (TerminalView { detected_agent: agent, state: state, ..old(self)@ }),
    {
        self.detected_agent = agent;
        self.state = state;
    }

    pub fn set_hook_agent(&mut self, agent: Option<Agent>)
        ensures
            final(self)@ == (TerminalView { hook_agent: agent, ..old(self)@ }),
    {
        self.hook_agent = agent;
    }

    /// The label of the agent the terminal counts as running, if any.
    pub fn effective_agent_label(&self) -> (r: Option<&'static str>)
        ensures
            match effective_agent_spec(self@) {
                Some(a) => r is Some && r->0@ == agent_name_spec(a),
                None => r is None,
            },
    {
        match self.hook_agent {
            Some(a) => Some(a.label()),
            None => match self.detected_agent {
                Some(a) => Some(a.label()),
                None => None,
            },
        }
    }
}

/// The order of the panes of a tab and which of them has the focus.
pub struct Layout {
    pub pane_order: Vec<u64>,
    pub focused: u64,
}

impl Layout {
    /// Gives the focus to `pane_id` if the layout holds it.
    pub fn focus_pane(&mut self, pane_id: u64)
        ensures
            final(self).pane_order@ == old(self).pane_order@,
            final(self).focused == if old(self).pane_order@.contains(pane_id) {
                pane_id
            } else {
                old(self).focused
            },
    {
        let n = self.pane_order.len();
        let mut i: usize = 0;
        while i < n
            invariant
                n == self.pane_order.len(),
                i <= n,
                self.pane_order@ == old(self).pane_order@,
                self.focused == old(self).focused,
                forall|j: int| 0 <= j < i ==> self.pane_order@[j] != pane_id,
            decreases n - i,
        {
            if self.pane_order[i] == pane_id {
                assert(old(self).pane_order@[i as int] == pane_id);
                self.focused = pane_id;
                return;
            }
            i = i + 1;
        }
    }
}

pub struct Tab {
    pub name: String,
    pub root_pane: u64,
    pub layout: Layout,
    pub panes: HashMap<u64, Pane>,
}

#[verifier::ext_equal]
pub struct TabView {
    pub name: Seq<char>,
    pub root_pane: u64,
    pub pane_order: Seq<u64>,
    pub focused: u64,
    pub panes: Map<u64, Pane>,
}

impl View for Tab {
    type V = TabView;

    open spec fn view(&self) -> TabView {
        TabView {
            name: self.name@,
            root_pane: self.root_pane,
            pane_order: self.layout.pane_order@,
            focused: self.layout.focused,
            panes: self.panes@,
        }
    }
}

impl Tab {
    /// A tab with one pane, `root_pane`, that shows terminal `terminal_id`.
    pub fn new(name: String, root_pane: u64, terminal_id: u64) -> (t: Tab)
        ensures
            t@ == (TabView {
                name: name@,
                root_pane,
                pane_order: seq![root_pane],
                focused: root_pane,
                panes: map![root_pane => Pane { attached_terminal_id: terminal_id, seen: true }],
            }),
    {
        let mut order: Vec<u64> = Vec::new();
        order.push(root_pane);
        let mut panes: HashMap<u64, Pane> = HashMap::new();
        panes.insert(root_pane, Pane { attached_terminal_id: terminal_id, seen: true });
        let t = Tab { name, root_pane, layout: Layout { pane_order: order, focused: root_pane }, panes };
        assert(t.layout.pane_order@ =~= seq![root_pane]);
        assert(t.panes@ =~= map![root_pane => Pane { attached_terminal_id: terminal_id, seen: true }]);
        t
    }

    pub fn display_name(&self) -> (r: &str)
        ensures
            r@ == self.name@,
    {
        self.name.as_str()
    }
}

pub struct Workspace {
    pub name: String,
    pub tabs: Vec<Tab>,
    pub active_tab: usize,
}

#[verifier::ext_equal]
pub struct WorkspaceView {
    pub name: Seq<char>,
    pub tabs: Seq<TabView>,
    pub active_tab: usize,
}

pub open spec fn tabs_view(tabs: Seq<Tab>) -> Seq<TabView> {
    tabs.map_values(|t: Tab| t@)
}

impl View for Workspace {
    type V = WorkspaceView;

    open spec fn view(&self) -> WorkspaceView {
        WorkspaceView { name: self.name@, tabs: tabs_view(self.tabs@), active_tab: self.active_tab }
    }
}

/// The pane that has the focus in the active tab of a workspace.
pub open spec fn focused_pane_spec(ws: WorkspaceView) -> Option<u64> {
    if ws.active_tab < ws.tabs.len() {
        Some(ws.tabs[ws.active_tab as int].focused)
    } else {
        None
    }
}

impl Workspace {
    /// A workspace with one tab named "1" holding one pane.
    pub fn new(name: String, root_pane: u64, terminal_id: u64) -> (w: Workspace)
        ensures
            w@.name == name@,
            w@.active_tab == 0,
            w@.tabs.len() == 1,
            w@.tabs[0] == (TabView {
                name: "1"@,
                root_pane,
                pane_order: seq![root_pane],
                focused: root_pane,
                panes: map![root_pane => Pane { attached_terminal_id: terminal_id, seen: true }],
            }),
    {
        let tab = Tab::new(String::from_str("1"), root_pane, terminal_id);
        let mut tabs: Vec<Tab> = Vec::new();
        tabs.push(tab);
        Workspace { name, tabs, active_tab: 0 }
    }

    pub fn display_name(&self) -> (r: &str)
        ensures
            r@ == self.name@,
    {
        self.name.as_str()
    }

    pub fn focused_pane_id(&self) -> (r: Option<u64>)
        ensures
            r == focused_pane_spec(self@),
    {
        if self.active_tab < self.tabs.len() {
            Some(self.tabs[self.active_tab].layout.focused)
        } else {
            None
        }
    }
}

/// The application state as far as the goto picker is concerned.
pub struct AppState {
    pub workspaces: Vec<Workspace>,
    pub terminals: HashMap<u64, Terminal>,
    pub active: Option<usize>,
    pub selected: usize,
    pub mode: Mode,
    pub goto: GotoState,
}

#[verifier::ext_equal]
pub struct AppView {
    pub workspaces: Seq<WorkspaceView>,
    pub terminals: Map<u64, TerminalView>,
    pub active: Option<usize>,
    pub selected: usize,
    pub mode: Mode,
    pub goto: GotoView,
}

pub open spec fn workspaces_view(ws: Seq<Workspace>) -> Seq<WorkspaceView> {
    ws.map_values(|w: Workspace| w@)
}

pub open spec fn terminals_view(m: Map<u64, Terminal>) -> Map<u64, TerminalView> {
    Map::new(|k: u64| m.contains_key(k), |k: u64| m[k]@)
}

impl View for AppState {
    type V = AppView;

    open spec fn view(&self) -> AppView {
        AppView {
            workspaces: workspaces_view(self.workspaces@),
            terminals: terminals_view(self.terminals@),
            active: self.active,
            selected: self.selected,
            mode: self.mode,
            goto: self.goto@,
        }
    }
}

/// The counts of workspaces and of tabs fit in a `usize`, as they do in any
/// state held in memory (`law_every_state_counts_fit`).
pub open spec fn counts_fit(v: AppView) -> bool {
    &&& v.workspaces.len() <= usize::MAX
    &&& forall|w: int| 0 <= w < v.workspaces.len() ==> #[trigger] v.workspaces[w].tabs.len() <= usize::MAX
}

/// Every state held in memory has counts that fit in a `usize`: its
/// workspaces and each workspace's tabs are held in vectors.
pub proof fn law_every_state_counts_fit(state: &AppState)
    ensures
        counts_fit(state@),
{
    broadcast use vstd::std_specs::vec::axiom_spec_len;

    assert(state.workspaces@.len() == state.workspaces.len());
    assert forall|w: int| 0 <= w < state@.workspaces.len() implies #[trigger] state@.workspaces[w].tabs.len()
        <= usize::MAX by {
        let ws = state.workspaces@[w];
        assert(ws.tabs@.len() == ws.tabs.len());
    }
}

/// The state after making workspace `ws_idx` the active one; an index past
/// the end changes nothing.
pub open spec fn switch_workspace_spec(v: AppView, ws_idx: usize) -> AppView {
    if ws_idx < v.workspaces.len() {
        AppView { active: Some(ws_idx), selected: ws_idx, ..v }
    } else {
        v
    }
}

/// The state after making tab `tab_idx` the active tab of the active
/// workspace; without an active workspace that holds such a tab nothing changes.
pub open spec fn switch_tab_spec(v: AppView, tab_idx: usize) -> AppView {
    match v.active {
        Some(a) => if a < v.workspaces.len() && tab_idx < v.workspaces[a as int].tabs.len() {
            AppView {
                workspaces: v.workspaces.update(
                    a as int,
                    WorkspaceView { active_tab: tab_idx, ..v.workspaces[a as int] },
                ),
                ..v
            }
        } else {
            v
        },
        None => v,
    }
}

/// The state after giving the focus to `pane_id` in tab `tab_idx` of
/// workspace `ws_idx`; nothing changes unless that tab exists and holds the pane.
pub open spec fn focus_pane_spec(v: AppView, ws_idx: usize, tab_idx: usize, pane_id: u64) -> AppView {
    if ws_idx < v.workspaces.len() && tab_idx < v.workspaces[ws_idx as int].tabs.len()
        && v.workspaces[ws_idx as int].tabs[tab_idx as int].pane_order.contains(pane_id) {
        let ws = v.workspaces[ws_idx as int];
        let tab = ws.tabs[tab_idx as int];
        AppView {
            workspaces: v.workspaces.update(
                ws_idx as int,
                WorkspaceView {
                    tabs: ws.tabs.update(tab_idx as int, TabView { focused: pane_id, ..tab }),
                    ..ws
                },
            ),
            ..v
        }
    } else {
        v
    }
}

impl AppState {
    /// An application with no workspace and no terminal.
    pub fn new() -> (s: AppState)
        ensures
            s@ == (AppView {
                workspaces: Seq::empty(),
                terminals: Map::empty(),
                active: None,
                selected: 0,
                mode: Mode::Navigate,
                goto: crate::goto::empty_goto(),
            }),
    {
        let s = AppState {
            workspaces: Vec::new(),
            terminals: HashMap::new(),
            active: None,
            selected: 0,
            mode: Mode::Navigate,
            goto: GotoState::new(),
        };
        assert(s@.workspaces =~= Seq::<WorkspaceView>::empty());
        assert(s@.terminals =~= Map::<u64, TerminalView>::empty());
        s
    }

    pub fn switch_workspace(&mut self, ws_idx: usize)
        ensures
            final(self)@ == switch_workspace_spec(old(self)@, ws_idx),
    {
        if ws_idx < self.workspaces.len() {
            self.active = Some(ws_idx);
            self.selected = ws_idx;
        }
    }

    pub fn switch_tab(&mut self, tab_idx: usize)
        ensures
            final(self)@ == switch_tab_spec(old(self)@, tab_idx),
    {
        if let Some(a) = self.active {
            if a < self.workspaces.len() && tab_idx < self.workspaces[a].tabs.len() {
                let ghost before = self.workspaces@;
                let mut ws = self.workspaces.remove(a);
                ws.active_tab = tab_idx;
                let ghost ws_view = ws@;
                self.workspaces.insert(a, ws);
                assert(self.workspaces@ =~= before.update(a as int, self.workspaces@[a as int]));
                assert(workspaces_view(self.workspaces@) =~= workspaces_view(before).update(
                    a as int,
                    ws_view,
                ));
            }
        }
    }

    /// Gives the focus to `pane_id` in tab `tab_idx` of workspace `ws_idx`.
    pub fn focus_pane_at(&mut self, ws_idx: usize, tab_idx: usize, pane_id: u64)
        ensures
            final(self)@ == focus_pane_spec(old(self)@, ws_idx, tab_idx, pane_id),
    {
        if ws_idx < self.workspaces.len() && tab_idx < self.workspaces[ws_idx].tabs.len() {
            let ghost before = self.workspaces@;
            let mut ws = self.workspaces.remove(ws_idx);
            let ghost tabs_before = ws.tabs@;
            let mut tab = ws.tabs.remove(tab_idx);
            tab.layout.focus_pane(pane_id);
            let ghost tab_view = tab@;
            ws.tabs.insert(tab_idx, tab);
            assert(ws.tabs@ =~= tabs_before.update(tab_idx as int, ws.tabs@[tab_idx as int]));
            assert(tabs_view(ws.tabs@) =~= tabs_view(tabs_before).update(tab_idx as int, tab_view));
            let ghost ws_view = ws@;
            self.workspaces.insert(ws_idx, ws);
            assert(self.workspaces@ =~= before.update(ws_idx as int, self.workspaces@[ws_idx as int]));
            assert(workspaces_view(self.workspaces@) =~= workspaces_view(before).update(
                ws_idx as int,
                ws_view,
            ));
            proof {
                if !tabs_view(tabs_before)[tab_idx as int].pane_order.contains(pane_id) {
                    assert(tabs_view(ws.tabs@) =~= tabs_view(tabs_before));
                    assert(workspaces_view(self.workspaces@) =~= workspaces_view(before));
                }
            }
        }
    }
}

} // verus!
