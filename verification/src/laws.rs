//! Properties of the picker that hold for every input, proved over the
//! specifications that the functions' contracts use.
use vstd::prelude::*;
use vstd::seq_lib::{to_multiset_build, to_multiset_contains, to_multiset_insert};

use crate::goto::{
    all_items, cursor_in_range, item_score, keep_scored, ranked_items, scores_for, first_below, first_current_from, goto_step, in_category,
    insert_pos, items_in_category, items_upto, open_spec, pane_items, rerank_spec, sort_by_score,
    tab_items, with_category, with_filter, GotoCategory, GotoItemView, GotoTarget, GotoView,
    agent_item, agent_row_for, opt_seq, space_item, tab_block, tab_item, workspace_block,
};
use crate::model::{agent_name_spec, effective_agent_spec, focused_pane_spec, state_label_spec};
use crate::text::lowercase;
use crate::keys::GotoAction;
use crate::overlay::{list_window_spec, popup_height_spec, popup_width_spec};
use crate::model::{counts_fit, law_every_state_counts_fit, AppState, AppView};

verus! {

proof fn lemma_first_below<A>(s: Seq<(A, u32)>, k: u32, j: int)
    requires
        0 <= j <= s.len(),
        forall|i: int| 0 <= i < j ==> s[i].1 >= k,
    ensures
        j <= first_below(s, k, j) <= s.len(),
        forall|i: int| 0 <= i < first_below(s, k, j) ==> s[i].1 >= k,
        first_below(s, k, j) < s.len() ==> s[first_below(s, k, j)].1 < k,
    decreases s.len() - j,
{
    if j < s.len() && s[j].1 >= k {
        lemma_first_below(s, k, j + 1);
    }
}

/// Where an entry goes: after every entry scoring at least as much, before
/// the first that scores less.
proof fn lemma_insert_pos<A>(s: Seq<(A, u32)>, k: u32)
    ensures
        0 <= insert_pos(s, k) <= s.len(),
        forall|i: int| 0 <= i < insert_pos(s, k) ==> s[i].1 >= k,
        insert_pos(s, k) < s.len() ==> s[insert_pos(s, k)].1 < k,
{
    lemma_first_below(s, k, 0);
}

pub open spec fn scores_fall<A>(s: Seq<(A, u32)>) -> bool {
    forall|i: int, j: int| 0 <= i < j < s.len() ==> s[i].1 >= s[j].1
}

/// Ranking orders the entries by falling score.
pub proof fn law_sort_orders_by_score<A>(s: Seq<(A, u32)>)
    ensures
        sort_by_score(s).len() == s.len(),
        scores_fall(sort_by_score(s)),
    decreases s.len(),
{
    if s.len() > 0 {
        let p = sort_by_score(s.drop_last());
        let x = s.last();
        law_sort_orders_by_score(s.drop_last());
        lemma_insert_pos(p, x.1);
        let pos = insert_pos(p, x.1);
        p.insert_ensures(pos, x);
        let r = p.insert(pos, x);
        assert forall|i: int, j: int| 0 <= i < j < r.len() implies r[i].1 >= r[j].1 by {
            if pos < p.len() {
                assert(p[pos].1 < x.1);
            }
            if j < pos {
                assert(r[i] == p[i] && r[j] == p[j]);
            } else if j == pos {
                assert(r[i] == p[i]);
            } else if i < pos {
                assert(r[i] == p[i] && r[j] == p[j - 1]);
            } else if i == pos {
                assert(r[j] == p[j - 1]);
                assert(p[j - 1].1 <= p[pos].1);
            } else {
                assert(r[i] == p[i - 1] && r[j] == p[j - 1]);
            }
        }
    }
}

/// Ranking neither loses nor adds an entry: the result is a permutation.
pub proof fn law_sort_is_permutation<A>(s: Seq<(A, u32)>)
    ensures
        sort_by_score(s).to_multiset() == s.to_multiset(),
    decreases s.len(),
{
    if s.len() > 0 {
        let p = sort_by_score(s.drop_last());
        let x = s.last();
        law_sort_is_permutation(s.drop_last());
        lemma_insert_pos(p, x.1);
        to_multiset_insert(p, insert_pos(p, x.1), x);
        to_multiset_build(s.drop_last(), x);
        assert(s.drop_last().push(x) =~= s);
    }
}

pub open spec fn scored<A>(k: u32) -> spec_fn((A, u32)) -> bool {
    |p: (A, u32)| p.1 == k
}

/// Ranking is stable: the entries with any one score come out in the order
/// they went in.
pub proof fn law_sort_is_stable<A>(s: Seq<(A, u32)>, k: u32)
    ensures
        sort_by_score(s).filter(scored(k)) == s.filter(scored(k)),
    decreases s.len(),
{
    if s.len() > 0 {
        let pred = scored::<A>(k);
        let p = sort_by_score(s.drop_last());
        let x = s.last();
        law_sort_is_stable(s.drop_last(), k);
        law_sort_orders_by_score(s.drop_last());
        lemma_insert_pos(p, x.1);
        let pos = insert_pos(p, x.1);
        let a = p.subrange(0, pos);
        let b = p.subrange(pos, p.len() as int);
        assert(p =~= a + b);
        assert(p.insert(pos, x) =~= a + (seq![x] + b));
        Seq::filter_distributes_over_add(a, seq![x] + b, pred);
        Seq::filter_distributes_over_add(seq![x], b, pred);
        Seq::filter_distributes_over_add(a, b, pred);
        s.drop_last().lemma_filter_push(x, pred);
        assert(s.drop_last().push(x) =~= s);
        seq![x].lemma_filter_push(x, pred);
        assert(Seq::<(A, u32)>::empty().push(x) =~= seq![x]);
        reveal(Seq::filter);
        assert(Seq::<(A, u32)>::empty().filter(pred) =~= Seq::<(A, u32)>::empty());
        Seq::<(A, u32)>::empty().lemma_filter_push(x, pred);
        if x.1 == k {
            assert forall|i: int| 0 <= i < b.len() implies !pred(b[i]) by {
                if pos < p.len() {
                    assert(p[pos].1 < x.1);
                    assert(b[i] == p[pos + i]);
                    assert(p[pos + i].1 <= p[pos].1);
                }
            }
            b.lemma_all_neg_filter_empty(pred);
            assert(b.filter(pred) =~= Seq::<(A, u32)>::empty());
            assert(p.insert(pos, x).filter(pred) =~= s.filter(pred));
        } else {
            assert(p.insert(pos, x).filter(pred) =~= s.filter(pred));
        }
    }
}

// ---------------------------------------------------------------------------
// The rows depend on the workspaces, the terminals and the active workspace only

proof fn lemma_pane_items_frame(v1: AppView, v2: AppView, w: int, t: int, n: int)
    requires
        v1.workspaces == v2.workspaces,
        v1.terminals == v2.terminals,
        v1.active == v2.active,
    ensures
        pane_items(v1, w, t, n) == pane_items(v2, w, t, n),
    decreases n,
{
    if n > 0 {
        lemma_pane_items_frame(v1, v2, w, t, n - 1);
    }
}

proof fn lemma_tab_items_frame(v1: AppView, v2: AppView, w: int, n: int)
    requires
        v1.workspaces == v2.workspaces,
        v1.terminals == v2.terminals,
        v1.active == v2.active,
    ensures
        tab_items(v1, w, n) == tab_items(v2, w, n),
    decreases n,
{
    if n > 0 {
        lemma_tab_items_frame(v1, v2, w, n - 1);
        lemma_pane_items_frame(
            v1,
            v2,
            w,
            n - 1,
            v1.workspaces[w].tabs[n - 1].pane_order.len() as int,
        );
    }
}

proof fn lemma_items_upto_frame(v1: AppView, v2: AppView, n: int)
    requires
        v1.workspaces == v2.workspaces,
        v1.terminals == v2.terminals,
        v1.active == v2.active,
    ensures
        items_upto(v1, n) == items_upto(v2, n),
    decreases n,
{
    if n > 0 {
        lemma_items_upto_frame(v1, v2, n - 1);
        lemma_tab_items_frame(v1, v2, n - 1, v1.workspaces[n - 1].tabs.len() as int);
    }
}

/// The rows of the picker depend only on the workspaces, the terminals and
/// which workspace is active; the picker's own state does not change them.
pub proof fn law_rows_ignore_picker_state(v1: AppView, v2: AppView)
    requires
        v1.workspaces == v2.workspaces,
        v1.terminals == v2.terminals,
        v1.active == v2.active,
    ensures
        all_items(v1) == all_items(v2),
{
    lemma_items_upto_frame(v1, v2, v1.workspaces.len() as int);
}

// ---------------------------------------------------------------------------
// Categories and the cursor

proof fn lemma_no_category_keeps_all(s: Seq<GotoItemView>)
    ensures
        items_in_category(s, None) == s,
    decreases s.len(),
{
    if s.len() > 0 {
        lemma_no_category_keeps_all(s.drop_last());
        assert(s.drop_last().push(s.last()) =~= s);
    }
}

proof fn lemma_category_members(s: Seq<GotoItemView>, c: Option<crate::goto::GotoCategory>)
    ensures
        forall|i: int|
            0 <= i < items_in_category(s, c).len() ==> in_category(
                #[trigger] items_in_category(s, c)[i],
                c,
            ) && s.contains(items_in_category(s, c)[i]),
        items_in_category(s, c).len() <= s.len(),
    decreases s.len(),
{
    if s.len() > 0 {
        let rest = items_in_category(s.drop_last(), c);
        lemma_category_members(s.drop_last(), c);
        assert forall|i: int|
            0 <= i < items_in_category(s, c).len() implies in_category(
            #[trigger] items_in_category(s, c)[i],
            c,
        ) && s.contains(items_in_category(s, c)[i]) by {
            if i < rest.len() {
                assert(items_in_category(s, c)[i] == rest[i]);
                let k = choose|k: int| 0 <= k < s.drop_last().len() && s.drop_last()[k] == rest[i];
                assert(s[k] == rest[i]);
            } else {
                assert(s[s.len() - 1] == s.last());
            }
        }
    }
}

proof fn lemma_first_current_range(s: Seq<GotoItemView>, j: int)
    requires
        0 <= j <= s.len(),
    ensures
        j <= first_current_from(s, j) <= s.len(),
        first_current_from(s, j) < s.len() ==> s[first_current_from(s, j)].is_current,
        forall|i: int| j <= i < first_current_from(s, j) ==> !s[i].is_current,
    decreases s.len() - j,
{
    if j < s.len() && !s[j].is_current {
        lemma_first_current_range(s, j + 1);
    }
}

/// After the rows are recomputed the cursor is on a row, or at 0 when
/// there is none.
pub proof fn law_rerank_puts_cursor_in_range(v: AppView)
    ensures
        cursor_in_range(rerank_spec(v).goto),
{
    let items = rerank_spec(v).goto.items;
    lemma_first_current_range(items, 0);
}

/// When the picker opens, the cursor is on the first row that is where the
/// user is now, if there is such a row, and always in range. (The rows fit
/// in memory, so there are at most `usize::MAX` of them.)
pub proof fn law_open_preselects_current(v: AppView)
    requires
        all_items(v).len() <= usize::MAX,
    ensures
        cursor_in_range(open_spec(v).goto),
        (exists|i: int|
            0 <= i < open_spec(v).goto.items.len() && (#[trigger] open_spec(v).goto.items[i]).is_current)
            ==> open_spec(v).goto.items[open_spec(v).goto.list as int].is_current,
        forall|i: int|
            0 <= i < open_spec(v).goto.list ==> !(#[trigger] open_spec(v).goto.items[i]).is_current,
{
    let items = all_items(v);
    lemma_first_current_range(items, 0);
    if exists|i: int| 0 <= i < items.len() && (#[trigger] items[i]).is_current {
        let i = choose|i: int| 0 <= i < items.len() && (#[trigger] items[i]).is_current;
        assert(first_current_from(items, 0) <= i);
    }
}

/// Every key keeps the cursor on a row (or at 0 over an empty list).
pub proof fn law_step_keeps_cursor_in_range(v: AppView, action: GotoAction)
    requires
        cursor_in_range(v.goto),
        action == GotoAction::CursorDown ==> v.goto.list < usize::MAX,
    ensures
        cursor_in_range(goto_step(v, action).goto),
{
    match action {
        GotoAction::Backspace => {
            law_rerank_puts_cursor_in_range(
                with_filter(
                    v,
                    if v.goto.filter.len() > 0 {
                        v.goto.filter.drop_last()
                    } else {
                        v.goto.filter
                    },
                ),
            );
        },
        GotoAction::ToggleCategory(c) => {
            law_rerank_puts_cursor_in_range(
                with_category(v, crate::goto::toggled_category(v.goto.category, c)),
            );
        },
        GotoAction::Type(c) => {
            law_rerank_puts_cursor_in_range(with_filter(v, v.goto.filter.push(c)));
        },
        _ => {},
    }
}

/// With no category and no filter the picker shows every row, in order.
pub proof fn law_no_narrowing_shows_every_row(v: AppView)
    requires
        v.goto.category is None,
        v.goto.filter.len() == 0,
    ensures
        rerank_spec(v).goto.items == all_items(v),
{
    lemma_no_category_keeps_all(all_items(v));
}

/// Asking twice for the same category, starting with none or with that
/// one, leaves the picker as recomputing the rows would.
pub proof fn law_toggle_twice_restores(v: AppView, c: crate::goto::GotoCategory)
    requires
        v.goto.category is None || v.goto.category == Some(c),
    ensures
        goto_step(goto_step(v, GotoAction::ToggleCategory(c)), GotoAction::ToggleCategory(c))
            == rerank_spec(v),
{
    let v1 = goto_step(v, GotoAction::ToggleCategory(c));
    let v2 = with_category(v1, crate::goto::toggled_category(v1.goto.category, c));
    law_rows_ignore_picker_state(v2, v);
    assert(v2.goto.category == v.goto.category);
    assert(rerank_spec(v2) =~= rerank_spec(v));
}

/// Typing a character and erasing it again leaves the picker as
/// recomputing the rows would.
pub proof fn law_type_then_erase_restores(v: AppView, ch: char)
    ensures
        goto_step(goto_step(v, GotoAction::Type(ch)), GotoAction::Backspace) == rerank_spec(v),
{
    let v1 = goto_step(v, GotoAction::Type(ch));
    let v2 = with_filter(v1, v1.goto.filter.drop_last());
    assert(v.goto.filter.push(ch).drop_last() =~= v.goto.filter);
    law_rows_ignore_picker_state(v2, v);
    assert(rerank_spec(v2) =~= rerank_spec(v));
}

/// Esc closes the picker and changes nothing else but the mode.
pub proof fn law_leave_does_not_navigate(v: AppView)
    ensures
        goto_step(v, GotoAction::Leave).workspaces == v.workspaces,
        goto_step(v, GotoAction::Leave).terminals == v.terminals,
        goto_step(v, GotoAction::Leave).active == v.active,
        goto_step(v, GotoAction::Leave).selected == v.selected,
        goto_step(v, GotoAction::Leave).goto == (GotoView {
            filter: Seq::empty(),
            category: None,
            items: Seq::empty(),
            list: 0,
        }),
{
}

// ---------------------------------------------------------------------------
// What the filter shows

proof fn lemma_keep_scored_members(
    items: Seq<GotoItemView>,
    scores: Seq<Option<u32>>,
    n: int,
)
    requires
        0 <= n <= items.len(),
        n <= scores.len(),
    ensures
        forall|j: int|
            0 <= j < keep_scored(items, scores, n).len() ==> exists|i: int|
                0 <= i < n && (#[trigger] keep_scored(items, scores, n)[j]).0 == items[i]
                    && scores[i] == Some(keep_scored(items, scores, n)[j].1),
    decreases n,
{
    if n > 0 {
        lemma_keep_scored_members(items, scores, n - 1);
        let rest = keep_scored(items, scores, n - 1);
        let ks = keep_scored(items, scores, n);
        assert forall|j: int| 0 <= j < ks.len() implies exists|i: int|
            0 <= i < n && (#[trigger] ks[j]).0 == items[i] && scores[i] == Some(ks[j].1) by {
            if j < rest.len() {
                assert(ks[j] == rest[j]);
                let i = choose|i: int|
                    0 <= i < n - 1 && (#[trigger] rest[j]).0 == items[i] && scores[i] == Some(
                        rest[j].1,
                    );
                assert(0 <= i < n && ks[j].0 == items[i] && scores[i] == Some(ks[j].1));
            } else {
                assert(0 <= n - 1 < n && ks[j].0 == items[n - 1] && scores[n - 1] == Some(
                    ks[j].1,
                ));
            }
        }
    }
}

/// Every row that a ranking shows comes from the rows it was given, with
/// the score it was given.
pub(crate) proof fn lemma_ranked_members(items: Seq<GotoItemView>, scores: Seq<Option<u32>>)
    requires
        items.len() == scores.len(),
    ensures
        forall|r: int|
            0 <= r < sort_by_score(keep_scored(items, scores, items.len() as int)).len()
                ==> exists|i: int|
                0 <= i < items.len() && (#[trigger] sort_by_score(
                    keep_scored(items, scores, items.len() as int),
                )[r]).0 == items[i] && scores[i] == Some(
                    sort_by_score(keep_scored(items, scores, items.len() as int))[r].1,
                ),
{
    let ks = keep_scored(items, scores, items.len() as int);
    let sorted = sort_by_score(ks);
    lemma_keep_scored_members(items, scores, items.len() as int);
    law_sort_is_permutation(ks);
    assert forall|r: int| 0 <= r < sorted.len() implies exists|i: int|
        0 <= i < items.len() && (#[trigger] sorted[r]).0 == items[i] && scores[i] == Some(
            sorted[r].1,
        ) by {
        let e = sorted[r];
        assert(sorted.contains(e));
        to_multiset_contains(sorted, e);
        to_multiset_contains(ks, e);
        let j = choose|j: int| 0 <= j < ks.len() && ks[j] == e;
        assert(ks[j] == e);
        let i = choose|i: int| 0 <= i < items.len() && (#[trigger] ks[j]).0 == items[i] && scores[i] == Some(ks[j].1);
        assert(0 <= i < items.len() && e.0 == items[i] && scores[i] == Some(e.1));
    }
}

/// Every row the picker shows belongs to the category in force, and when
/// there is a filter, matches it.
pub proof fn law_shown_rows_fit_category_and_filter(
    all: Seq<GotoItemView>,
    category: Option<crate::goto::GotoCategory>,
    filter: Seq<char>,
)
    ensures
        forall|i: int|
            0 <= i < ranked_items(all, category, filter).len() ==> in_category(
                #[trigger] ranked_items(all, category, filter)[i],
                category,
            ),
        forall|i: int|
            0 <= i < ranked_items(all, category, filter).len() && filter.len() > 0 ==> item_score(
                filter,
                #[trigger] ranked_items(all, category, filter)[i],
            ) is Some,
{
    let m = items_in_category(all, category);
    lemma_category_members(all, category);
    if filter.len() > 0 {
        let sc = scores_for(m, filter);
        let ks = keep_scored(m, sc, m.len() as int);
        let sorted = sort_by_score(ks);
        lemma_ranked_members(m, sc);
        law_sort_orders_by_score(ks);
        let r = ranked_items(all, category, filter);
        assert forall|k: int| 0 <= k < r.len() implies in_category(#[trigger] r[k], category)
            && item_score(filter, r[k]) is Some by {
            assert(r[k] == sorted[k].0);
            let i = choose|i: int|
                0 <= i < m.len() && (#[trigger] sorted[k]).0 == m[i] && sc[i] == Some(sorted[k].1);
            assert(in_category(m[i], category));
        }
    }
}

/// With a filter the rows come best match first: a row never scores more
/// than the row above it.
pub proof fn law_filtered_rows_best_first(
    all: Seq<GotoItemView>,
    category: Option<crate::goto::GotoCategory>,
    filter: Seq<char>,
)
    requires
        filter.len() > 0,
    ensures
        forall|i: int, j: int|
            0 <= i < j < ranked_items(all, category, filter).len() ==> item_score(
                filter,
                #[trigger] ranked_items(all, category, filter)[i],
            )->0 >= item_score(filter, #[trigger] ranked_items(all, category, filter)[j])->0,
{
    let m = items_in_category(all, category);
    let sc = scores_for(m, filter);
    let ks = keep_scored(m, sc, m.len() as int);
    let sorted = sort_by_score(ks);
    lemma_ranked_members(m, sc);
    law_sort_orders_by_score(ks);
    let r = ranked_items(all, category, filter);
    assert forall|k: int| 0 <= k < r.len() implies item_score(filter, #[trigger] r[k]) == Some(
        sorted[k].1,
    ) by {
        assert(r[k] == sorted[k].0);
        let i = choose|i: int|
            0 <= i < m.len() && (#[trigger] sorted[k]).0 == m[i] && sc[i] == Some(sorted[k].1);
    }
    assert forall|i: int, j: int| 0 <= i < j < r.len() implies item_score(filter, #[trigger] r[i])->0
        >= item_score(filter, #[trigger] r[j])->0 by {
        assert(item_score(filter, r[i]) == Some(sorted[i].1));
        assert(item_score(filter, r[j]) == Some(sorted[j].1));
    }
}

// ---------------------------------------------------------------------------
// The rows that are built

/// A row leads to something that exists: a workspace, a tab of it, or a
/// pane of that tab's layout that exists; and only agent rows carry a status.
pub open spec fn row_points_into(v: AppView, e: GotoItemView) -> bool {
    match e.target {
        GotoTarget::Space { ws_idx } => ws_idx < v.workspaces.len() && e.agent_status is None,
        GotoTarget::Tab { ws_idx, tab_idx } => ws_idx < v.workspaces.len() && tab_idx
            < v.workspaces[ws_idx as int].tabs.len() && e.agent_status is None,
        GotoTarget::Agent { ws_idx, tab_idx, pane_id } => {
            &&& ws_idx < v.workspaces.len()
            &&& tab_idx < v.workspaces[ws_idx as int].tabs.len()
            &&& v.workspaces[ws_idx as int].tabs[tab_idx as int].pane_order.contains(pane_id)
            &&& v.workspaces[ws_idx as int].tabs[tab_idx as int].panes.contains_key(pane_id)
            &&& e.agent_status is Some
        },
    }
}

/// The row built for a target, if the state gives it one.
pub open spec fn row_for(v: AppView, target: GotoTarget) -> Option<GotoItemView> {
    match target {
        GotoTarget::Space { ws_idx } => Some(space_item(v, ws_idx as int)),
        GotoTarget::Tab { ws_idx, tab_idx } => Some(tab_item(v, ws_idx as int, tab_idx as int)),
        GotoTarget::Agent { ws_idx, tab_idx, pane_id } => agent_row_for(
            v,
            ws_idx as int,
            tab_idx as int,
            pane_id,
        ),
    }
}

pub open spec fn built_row(v: AppView, e: GotoItemView) -> bool {
    row_points_into(v, e) && row_for(v, e.target) == Some(e)
}

proof fn lemma_pane_items_point_into(v: AppView, w: int, t: int, n: int)
    requires
        counts_fit(v),
        0 <= w < v.workspaces.len(),
        0 <= t < v.workspaces[w].tabs.len(),
        0 <= n <= v.workspaces[w].tabs[t].pane_order.len(),
    ensures
        forall|i: int|
            0 <= i < pane_items(v, w, t, n).len() ==> {
                let e = #[trigger] pane_items(v, w, t, n)[i];
                &&& built_row(v, e)
                &&& e.target is Agent
                &&& e.target->Agent_ws_idx == w
            },
    decreases n,
{
    if n > 0 {
        lemma_pane_items_point_into(v, w, t, n - 1);
        assert(v.workspaces[w].tabs.len() <= usize::MAX);
        let tab = v.workspaces[w].tabs[t];
        assert(tab.pane_order[n - 1] == tab.pane_order[n - 1]);
        assert(tab.pane_order.contains(tab.pane_order[n - 1]));
    }
}

proof fn lemma_tab_items_point_into(v: AppView, w: int, n: int)
    requires
        counts_fit(v),
        0 <= w < v.workspaces.len(),
        0 <= n <= v.workspaces[w].tabs.len(),
    ensures
        forall|i: int|
            0 <= i < tab_items(v, w, n).len() ==> {
                let e = #[trigger] tab_items(v, w, n)[i];
                &&& built_row(v, e)
                &&& !(e.target is Space)
            },
    decreases n,
{
    if n > 0 {
        lemma_tab_items_point_into(v, w, n - 1);
        assert(v.workspaces[w].tabs.len() <= usize::MAX);
        lemma_pane_items_point_into(
            v,
            w,
            n - 1,
            v.workspaces[w].tabs[n - 1].pane_order.len() as int,
        );
        let block = tab_block(v, w, n - 1);
        assert forall|i: int| 0 <= i < block.len() implies built_row(v, #[trigger] block[i])
            && !(block[i].target is Space) by {
            if i > 0 {
                assert(block[i] == pane_items(
                    v,
                    w,
                    n - 1,
                    v.workspaces[w].tabs[n - 1].pane_order.len() as int,
                )[i - 1]);
            }
        }
    }
}

proof fn lemma_items_upto_point_into(v: AppView, n: int)
    requires
        counts_fit(v),
        0 <= n <= v.workspaces.len(),
    ensures
        forall|i: int|
            0 <= i < items_upto(v, n).len() ==> built_row(v, #[trigger] items_upto(v, n)[i]),
    decreases n,
{
    if n > 0 {
        lemma_items_upto_point_into(v, n - 1);
        lemma_tab_items_point_into(v, n - 1, v.workspaces[n - 1].tabs.len() as int);
        let block = workspace_block(v, n - 1);
        let prev = items_upto(v, n - 1);
        assert forall|i: int| 0 <= i < block.len() implies built_row(v, #[trigger] block[i]) by {
            if i > 0 {
                assert(block[i] == tab_items(v, n - 1, v.workspaces[n - 1].tabs.len() as int)[i
                    - 1]);
            }
        }
        assert forall|i: int| 0 <= i < items_upto(v, n).len() implies built_row(
            v,
            #[trigger] items_upto(v, n)[i],
        ) by {
            if i < prev.len() {
                assert(items_upto(v, n)[i] == prev[i]);
            } else {
                assert(items_upto(v, n)[i] == block[i - prev.len()]);
            }
        }
    }
}

/// Every row the picker builds leads to a workspace, tab or pane that
/// exists, and exactly the agent rows carry an agent status.
pub proof fn law_rows_point_into_state(state: &AppState)
    ensures
        forall|i: int| 0 <= i < all_items(state@).len() ==> row_points_into(state@, #[trigger] all_items(state@)[i]),
{
    let v = state@;
    law_every_state_counts_fit(state);
    lemma_items_upto_point_into(v, v.workspaces.len() as int);
}

/// Every row is the row built for its target: its label, its lower-cased
/// haystack, whether it is current and its status are those that
/// `space_item`, `tab_item` and `agent_row_for` give that target.
pub proof fn law_each_row_is_built_for_its_target(state: &AppState)
    ensures
        forall|i: int|
            0 <= i < all_items(state@).len() ==> row_for(state@, (#[trigger] all_items(state@)[i]).target) == Some(
                all_items(state@)[i],
            ),
{
    let v = state@;
    law_every_state_counts_fit(state);
    lemma_items_upto_point_into(v, v.workspaces.len() as int);
}

/// Whether a target is where the user is now: the active workspace, its
/// active tab, or the focused pane of that tab.
pub open spec fn target_is_current(v: AppView, target: GotoTarget) -> bool {
    match target {
        GotoTarget::Space { ws_idx } => v.active == Some(ws_idx),
        GotoTarget::Tab { ws_idx, tab_idx } => v.active == Some(ws_idx)
            && v.workspaces[ws_idx as int].active_tab == tab_idx,
        GotoTarget::Agent { ws_idx, tab_idx, pane_id } => v.active == Some(ws_idx)
            && v.workspaces[ws_idx as int].active_tab == tab_idx && focused_pane_spec(
            v.workspaces[ws_idx as int],
        ) == Some(pane_id),
    }
}

/// The workspace a target lies in.
pub open spec fn target_ws(target: GotoTarget) -> usize {
    match target {
        GotoTarget::Space { ws_idx } => ws_idx,
        GotoTarget::Tab { ws_idx, .. } => ws_idx,
        GotoTarget::Agent { ws_idx, .. } => ws_idx,
    }
}

/// The label text a target's row starts with.
pub open spec fn label_prefix(target: GotoTarget) -> Seq<char> {
    match target {
        GotoTarget::Space { .. } => "[space] "@,
        GotoTarget::Tab { .. } => "[tab]   "@,
        GotoTarget::Agent { .. } => "[agent] "@,
    }
}

/// The first word of the text a target's row is matched against, before
/// lower-casing.
pub open spec fn haystack_prefix(target: GotoTarget) -> Seq<char> {
    match target {
        GotoTarget::Space { .. } => "space "@,
        GotoTarget::Tab { .. } => "tab "@,
        GotoTarget::Agent { .. } => "agent "@,
    }
}

/// A row is marked current exactly when its target is where the user is
/// now; its label is the kind in brackets followed by the workspace's name,
/// and the text it is matched against is the lower-casing of the kind, the
/// workspace's name and the rest.
pub proof fn law_row_current_and_text(state: &AppState)
    ensures
        forall|i: int|
            0 <= i < all_items(state@).len() ==> {
                let e = #[trigger] all_items(state@)[i];
                let name = state@.workspaces[target_ws(e.target) as int].name;
                &&& e.is_current == target_is_current(state@, e.target)
                &&& e.label.take(8int + name.len()) == label_prefix(e.target) + name
                &&& exists|rest: Seq<char>|
                    e.haystack == lowercase(haystack_prefix(e.target) + name + rest)
            },
{
    let v = state@;
    law_every_state_counts_fit(state);
    lemma_items_upto_point_into(v, v.workspaces.len() as int);
    let all = all_items(v);
    assert forall|i: int| 0 <= i < all.len() implies {
        let e = #[trigger] all[i];
        let name = v.workspaces[target_ws(e.target) as int].name;
        &&& e.is_current == target_is_current(v, e.target)
        &&& e.label.take(8int + name.len()) == label_prefix(e.target) + name
        &&& exists|rest: Seq<char>|
            e.haystack == lowercase(haystack_prefix(e.target) + name + rest)
    } by {
        let e = all[i];
        assert(built_row(v, e));
        reveal_strlit("[space] ");
        reveal_strlit("[tab]   ");
        reveal_strlit("[agent] ");
        match e.target {
            GotoTarget::Space { ws_idx } => {
                let name = v.workspaces[ws_idx as int].name;
                assert(e.label.take(8int + name.len()) =~= label_prefix(e.target) + name);
                assert(haystack_prefix(e.target) + name + Seq::<char>::empty() =~= "space "@
                    + name);
                assert(e.haystack == lowercase(
                    haystack_prefix(e.target) + name + Seq::<char>::empty(),
                ));
            },
            GotoTarget::Tab { ws_idx, tab_idx } => {
                let ws = v.workspaces[ws_idx as int];
                let tab = ws.tabs[tab_idx as int];
                assert(e.label.take(8int + ws.name.len()) =~= label_prefix(e.target) + ws.name);
                let rest = " "@ + tab.name;
                assert(haystack_prefix(e.target) + ws.name + rest =~= "tab "@ + ws.name + " "@
                    + tab.name);
                assert(e.haystack == lowercase(haystack_prefix(e.target) + ws.name + rest));
            },
            GotoTarget::Agent { ws_idx, tab_idx, pane_id } => {
                let ws = v.workspaces[ws_idx as int];
                let tab = ws.tabs[tab_idx as int];
                let pane = tab.panes[pane_id];
                let term = v.terminals[pane.attached_terminal_id];
                let agent = effective_agent_spec(term)->0;
                let agent_label = match term.agent_name {
                    Some(name) => name,
                    None => agent_name_spec(agent),
                };
                let status = state_label_spec(term.state);
                assert(e.label.take(8int + ws.name.len()) =~= label_prefix(e.target) + ws.name);
                let rest = " "@ + tab.name + " "@ + agent_label + " "@ + status;
                assert(haystack_prefix(e.target) + ws.name + rest =~= "agent "@ + ws.name + " "@
                    + tab.name + " "@ + agent_label + " "@ + status);
                assert(e.haystack == lowercase(haystack_prefix(e.target) + ws.name + rest));
            },
        }
        let name = v.workspaces[target_ws(e.target) as int].name;
        assert(e.is_current == target_is_current(v, e.target));
        assert(e.label.take(8int + name.len()) == label_prefix(e.target) + name);
    }
}

// ---------------------------------------------------------------------------
// Every target is listed, once, in order

/// No pane is listed twice in a tab's layout.
pub open spec fn panes_unique(v: AppView) -> bool {
    forall|w: int, t: int, i: int, j: int|
        0 <= w < v.workspaces.len() && 0 <= t < v.workspaces[w].tabs.len() && 0 <= i < j
            < v.workspaces[w].tabs[t].pane_order.len() ==> #[trigger] v.workspaces[w].tabs[t].pane_order[i]
            != #[trigger] v.workspaces[w].tabs[t].pane_order[j]
}

/// The position of a pane in a layout.
pub open spec fn pane_position(order: Seq<u64>, pane_id: u64) -> int {
    choose|k: int| 0 <= k < order.len() && order[k] == pane_id
}

/// Where a target sorts: by workspace, then tab (the workspace's own row
/// first), then the pane's position in the layout (the tab's own row first).
pub open spec fn row_key(v: AppView, target: GotoTarget) -> (int, int, int) {
    match target {
        GotoTarget::Space { ws_idx } => (ws_idx as int, -1, -1),
        GotoTarget::Tab { ws_idx, tab_idx } => (ws_idx as int, tab_idx as int, -1),
        GotoTarget::Agent { ws_idx, tab_idx, pane_id } => (
            ws_idx as int,
            tab_idx as int,
            pane_position(v.workspaces[ws_idx as int].tabs[tab_idx as int].pane_order, pane_id),
        ),
    }
}

pub open spec fn key_before(a: (int, int, int), b: (int, int, int)) -> bool {
    a.0 < b.0 || (a.0 == b.0 && (a.1 < b.1 || (a.1 == b.1 && a.2 < b.2)))
}

pub open spec fn keys_increase(v: AppView, s: Seq<GotoItemView>) -> bool {
    forall|i: int, j: int|
        0 <= i < j < s.len() ==> key_before(
            row_key(v, (#[trigger] s[i]).target),
            row_key(v, (#[trigger] s[j]).target),
        )
}

proof fn lemma_keys_concat(v: AppView, a: Seq<GotoItemView>, b: Seq<GotoItemView>)
    requires
        keys_increase(v, a),
        keys_increase(v, b),
        forall|i: int, j: int|
            0 <= i < a.len() && 0 <= j < b.len() ==> key_before(
                row_key(v, (#[trigger] a[i]).target),
                row_key(v, (#[trigger] b[j]).target),
            ),
    ensures
        keys_increase(v, a + b),
{
    let s = a + b;
    assert forall|i: int, j: int| 0 <= i < j < s.len() implies key_before(
        row_key(v, (#[trigger] s[i]).target),
        row_key(v, (#[trigger] s[j]).target),
    ) by {
        if j < a.len() {
            assert(s[i] == a[i] && s[j] == a[j]);
        } else if i < a.len() {
            assert(s[i] == a[i] && s[j] == b[j - a.len()]);
        } else {
            assert(s[i] == b[i - a.len()] && s[j] == b[j - a.len()]);
        }
    }
}

proof fn lemma_pane_items_keys(v: AppView, w: int, t: int, n: int)
    requires
        counts_fit(v),
        panes_unique(v),
        0 <= w < v.workspaces.len(),
        0 <= t < v.workspaces[w].tabs.len(),
        0 <= n <= v.workspaces[w].tabs[t].pane_order.len(),
    ensures
        keys_increase(v, pane_items(v, w, t, n)),
        forall|i: int|
            0 <= i < pane_items(v, w, t, n).len() ==> {
                let k = row_key(v, (#[trigger] pane_items(v, w, t, n)[i]).target);
                k.0 == w && k.1 == t && 0 <= k.2 < n
            },
    decreases n,
{
    if n > 0 {
        lemma_pane_items_keys(v, w, t, n - 1);
        assert(v.workspaces[w].tabs.len() <= usize::MAX);
        let order = v.workspaces[w].tabs[t].pane_order;
        let prev = pane_items(v, w, t, n - 1);
        let last = opt_seq(agent_item(v, w, t, n - 1));
        if agent_item(v, w, t, n - 1) is Some {
            let e = agent_item(v, w, t, n - 1)->0;
            assert(order[n - 1] == order[n - 1]);
            let k = pane_position(order, order[n - 1]);
            assert(0 <= k < order.len() && order[k] == order[n - 1]);
            if k != n - 1 {
                if k < n - 1 {
                    assert(order[k] != order[n - 1]);
                } else {
                    assert(order[n - 1] != order[k]);
                }
            }
            assert(row_key(v, e.target) == (w, t, n - 1));
            assert(last[0] == e);
        }
        lemma_keys_concat(v, prev, last);
        let s = pane_items(v, w, t, n);
        assert forall|i: int| 0 <= i < s.len() implies {
            let k = row_key(v, (#[trigger] s[i]).target);
            k.0 == w && k.1 == t && 0 <= k.2 < n
        } by {
            if i < prev.len() {
                assert(s[i] == prev[i]);
            } else {
                assert(s[i] == last[i - prev.len()]);
            }
        }
    }
}

proof fn lemma_tab_items_keys(v: AppView, w: int, n: int)
    requires
        counts_fit(v),
        panes_unique(v),
        0 <= w < v.workspaces.len(),
        0 <= n <= v.workspaces[w].tabs.len(),
    ensures
        keys_increase(v, tab_items(v, w, n)),
        forall|i: int|
            0 <= i < tab_items(v, w, n).len() ==> {
                let k = row_key(v, (#[trigger] tab_items(v, w, n)[i]).target);
                k.0 == w && 0 <= k.1 < n
            },
    decreases n,
{
    if n > 0 {
        lemma_tab_items_keys(v, w, n - 1);
        assert(v.workspaces[w].tabs.len() <= usize::MAX);
        let np = v.workspaces[w].tabs[n - 1].pane_order.len() as int;
        lemma_pane_items_keys(v, w, n - 1, np);
        let head = seq![tab_item(v, w, n - 1)];
        let panes = pane_items(v, w, n - 1, np);
        assert(row_key(v, head[0].target) == (w, n - 1, -1));
        lemma_keys_concat(v, head, panes);
        let block = tab_block(v, w, n - 1);
        assert(block == head + panes);
        assert forall|i: int| 0 <= i < block.len() implies {
            let k = row_key(v, (#[trigger] block[i]).target);
            k.0 == w && k.1 == n - 1
        } by {
            if i > 0 {
                assert(block[i] == panes[i - 1]);
            }
        }
        let prev = tab_items(v, w, n - 1);
        lemma_keys_concat(v, prev, block);
        let s = tab_items(v, w, n);
        assert forall|i: int| 0 <= i < s.len() implies {
            let k = row_key(v, (#[trigger] s[i]).target);
            k.0 == w && 0 <= k.1 < n
        } by {
            if i < prev.len() {
                assert(s[i] == prev[i]);
            } else {
                assert(s[i] == block[i - prev.len()]);
            }
        }
    }
}

proof fn lemma_items_upto_keys(v: AppView, n: int)
    requires
        counts_fit(v),
        panes_unique(v),
        0 <= n <= v.workspaces.len(),
    ensures
        keys_increase(v, items_upto(v, n)),
        forall|i: int|
            0 <= i < items_upto(v, n).len() ==> {
                let k = row_key(v, (#[trigger] items_upto(v, n)[i]).target);
                0 <= k.0 < n
            },
    decreases n,
{
    if n > 0 {
        lemma_items_upto_keys(v, n - 1);
        let nt = v.workspaces[n - 1].tabs.len() as int;
        lemma_tab_items_keys(v, n - 1, nt);
        let head = seq![space_item(v, n - 1)];
        let tabs = tab_items(v, n - 1, nt);
        assert(row_key(v, head[0].target) == (n - 1, -1int, -1int));
        lemma_keys_concat(v, head, tabs);
        let block = workspace_block(v, n - 1);
        assert(block == head + tabs);
        assert forall|i: int| 0 <= i < block.len() implies {
            let k = row_key(v, (#[trigger] block[i]).target);
            k.0 == n - 1
        } by {
            if i > 0 {
                assert(block[i] == tabs[i - 1]);
            }
        }
        let prev = items_upto(v, n - 1);
        lemma_keys_concat(v, prev, block);
        let s = items_upto(v, n);
        assert forall|i: int| 0 <= i < s.len() implies {
            let k = row_key(v, (#[trigger] s[i]).target);
            0 <= k.0 < n
        } by {
            if i < prev.len() {
                assert(s[i] == prev[i]);
            } else {
                assert(s[i] == block[i - prev.len()]);
            }
        }
    }
}

proof fn lemma_contains_add(a: Seq<GotoItemView>, b: Seq<GotoItemView>, x: GotoItemView)
    requires
        a.contains(x) || b.contains(x),
    ensures
        (a + b).contains(x),
{
    if a.contains(x) {
        let i = choose|i: int| 0 <= i < a.len() && a[i] == x;
        assert((a + b)[i] == x);
    } else {
        let i = choose|i: int| 0 <= i < b.len() && b[i] == x;
        assert((a + b)[a.len() + i] == x);
    }
}

proof fn lemma_pane_items_complete(v: AppView, w: int, t: int, n: int)
    ensures
        forall|k: int|
            0 <= k < n && (#[trigger] agent_item(v, w, t, k)) is Some ==> pane_items(
                v,
                w,
                t,
                n,
            ).contains(agent_item(v, w, t, k)->0),
    decreases n,
{
    if n > 0 {
        lemma_pane_items_complete(v, w, t, n - 1);
        let prev = pane_items(v, w, t, n - 1);
        let last = opt_seq(agent_item(v, w, t, n - 1));
        assert forall|k: int|
            0 <= k < n && (#[trigger] agent_item(v, w, t, k)) is Some implies pane_items(
            v,
            w,
            t,
            n,
        ).contains(agent_item(v, w, t, k)->0) by {
            let e = agent_item(v, w, t, k)->0;
            if k < n - 1 {
                lemma_contains_add(prev, last, e);
            } else {
                assert(last[0] == e);
                lemma_contains_add(prev, last, e);
            }
        }
    }
}

proof fn lemma_tab_items_complete(v: AppView, w: int, n: int)
    ensures
        forall|t: int| 0 <= t < n ==> tab_items(v, w, n).contains(#[trigger] tab_item(v, w, t)),
        forall|t: int, k: int|
            0 <= t < n && 0 <= k < v.workspaces[w].tabs[t].pane_order.len() && (#[trigger] agent_item(
                v,
                w,
                t,
                k,
            )) is Some ==> tab_items(v, w, n).contains(agent_item(v, w, t, k)->0),
    decreases n,
{
    if n > 0 {
        lemma_tab_items_complete(v, w, n - 1);
        let np = v.workspaces[w].tabs[n - 1].pane_order.len() as int;
        lemma_pane_items_complete(v, w, n - 1, np);
        let prev = tab_items(v, w, n - 1);
        let head = seq![tab_item(v, w, n - 1)];
        let panes = pane_items(v, w, n - 1, np);
        let block = tab_block(v, w, n - 1);
        assert(block == head + panes);
        assert forall|t: int| 0 <= t < n implies tab_items(v, w, n).contains(
            #[trigger] tab_item(v, w, t),
        ) by {
            if t < n - 1 {
                lemma_contains_add(prev, block, tab_item(v, w, t));
            } else {
                assert(head[0] == tab_item(v, w, t));
                lemma_contains_add(head, panes, tab_item(v, w, t));
                lemma_contains_add(prev, block, tab_item(v, w, t));
            }
        }
        assert forall|t: int, k: int|
            0 <= t < n && 0 <= k < v.workspaces[w].tabs[t].pane_order.len() && (#[trigger] agent_item(
                v,
                w,
                t,
                k,
            )) is Some implies tab_items(v, w, n).contains(agent_item(v, w, t, k)->0) by {
            let e = agent_item(v, w, t, k)->0;
            if t < n - 1 {
                lemma_contains_add(prev, block, e);
            } else {
                lemma_contains_add(head, panes, e);
                lemma_contains_add(prev, block, e);
            }
        }
    }
}

proof fn lemma_items_upto_complete(v: AppView, n: int)
    ensures
        forall|w: int| 0 <= w < n ==> items_upto(v, n).contains(#[trigger] space_item(v, w)),
        forall|w: int, t: int|
            0 <= w < n && 0 <= t < v.workspaces[w].tabs.len() ==> items_upto(v, n).contains(
                #[trigger] tab_item(v, w, t),
            ),
        forall|w: int, t: int, k: int|
            0 <= w < n && 0 <= t < v.workspaces[w].tabs.len() && 0 <= k
                < v.workspaces[w].tabs[t].pane_order.len() && (#[trigger] agent_item(
                v,
                w,
                t,
                k,
            )) is Some ==> items_upto(v, n).contains(agent_item(v, w, t, k)->0),
    decreases n,
{
    if n > 0 {
        lemma_items_upto_complete(v, n - 1);
        let nt = v.workspaces[n - 1].tabs.len() as int;
        lemma_tab_items_complete(v, n - 1, nt);
        let prev = items_upto(v, n - 1);
        let head = seq![space_item(v, n - 1)];
        let tabs = tab_items(v, n - 1, nt);
        let block = workspace_block(v, n - 1);
        assert(block == head + tabs);
        assert forall|w: int| 0 <= w < n implies items_upto(v, n).contains(
            #[trigger] space_item(v, w),
        ) by {
            if w < n - 1 {
                lemma_contains_add(prev, block, space_item(v, w));
            } else {
                assert(head[0] == space_item(v, w));
                lemma_contains_add(head, tabs, space_item(v, w));
                lemma_contains_add(prev, block, space_item(v, w));
            }
        }
        assert forall|w: int, t: int|
            0 <= w < n && 0 <= t < v.workspaces[w].tabs.len() implies items_upto(v, n).contains(
            #[trigger] tab_item(v, w, t),
        ) by {
            if w < n - 1 {
                lemma_contains_add(prev, block, tab_item(v, w, t));
            } else {
                lemma_contains_add(head, tabs, tab_item(v, w, t));
                lemma_contains_add(prev, block, tab_item(v, w, t));
            }
        }
        assert forall|w: int, t: int, k: int|
            0 <= w < n && 0 <= t < v.workspaces[w].tabs.len() && 0 <= k
                < v.workspaces[w].tabs[t].pane_order.len() && (#[trigger] agent_item(
                v,
                w,
                t,
                k,
            )) is Some implies items_upto(v, n).contains(agent_item(v, w, t, k)->0) by {
            let e = agent_item(v, w, t, k)->0;
            if w < n - 1 {
                lemma_contains_add(prev, block, e);
            } else {
                lemma_contains_add(head, tabs, e);
                lemma_contains_add(prev, block, e);
            }
        }
    }
}

/// The rows come in order: by workspace, each workspace's own row before
/// its tabs, each tab's own row before its agents, the agents in layout
/// order. So, when no layout lists a pane twice, no target is listed twice.
/// And every workspace, every tab and every pane that runs an agent is
/// listed: each exactly once.
pub proof fn law_every_target_listed_once_in_order(state: &AppState)
    requires
        panes_unique(state@),
    ensures
        keys_increase(state@, all_items(state@)),
        forall|i: int, j: int|
            0 <= i < j < all_items(state@).len() ==> (#[trigger] all_items(state@)[i]).target != (
            #[trigger] all_items(state@)[j]).target,
        forall|w: int| 0 <= w < state@.workspaces.len() ==> all_items(state@).contains(#[trigger] space_item(state@, w)),
        forall|w: int, t: int|
            0 <= w < state@.workspaces.len() && 0 <= t < state@.workspaces[w].tabs.len() ==> all_items(
                state@,
            ).contains(#[trigger] tab_item(state@, w, t)),
        forall|w: int, t: int, k: int|
            0 <= w < state@.workspaces.len() && 0 <= t < state@.workspaces[w].tabs.len() && 0 <= k
                < state@.workspaces[w].tabs[t].pane_order.len() && (#[trigger] agent_item(
                state@,
                w,
                t,
                k,
            )) is Some ==> all_items(state@).contains(agent_item(state@, w, t, k)->0),
{
    let v = state@;
    law_every_state_counts_fit(state);
    lemma_items_upto_keys(v, v.workspaces.len() as int);
    lemma_items_upto_complete(v, v.workspaces.len() as int);
    let all = all_items(v);
    assert forall|i: int, j: int| 0 <= i < j < all.len() implies (#[trigger] all[i]).target != (
    #[trigger] all[j]).target by {
        assert(key_before(row_key(v, all[i].target), row_key(v, all[j].target)));
    }
}

/// A pane has an agent row exactly when the pane exists, its terminal
/// exists and the terminal runs an agent.
pub proof fn law_agent_rows_are_agent_panes(state: &AppState, w: int, t: int, k: int)
    requires
        0 <= w < state@.workspaces.len(),
        0 <= t < state@.workspaces[w].tabs.len(),
        0 <= k < state@.workspaces[w].tabs[t].pane_order.len(),
    ensures
        ({
            let tab = state@.workspaces[w].tabs[t];
            let pane_id = tab.pane_order[k];
            let target = GotoTarget::Agent { ws_idx: w as usize, tab_idx: t as usize, pane_id };
            &&& (exists|i: int|
                0 <= i < all_items(state@).len() && (#[trigger] all_items(state@)[i]).target == target)
                <==> agent_item(state@, w, t, k) is Some
            &&& agent_item(state@, w, t, k) is Some <==> {
                &&& tab.panes.contains_key(pane_id)
                &&& state@.terminals.contains_key(tab.panes[pane_id].attached_terminal_id)
                &&& effective_agent_spec(state@.terminals[tab.panes[pane_id].attached_terminal_id]) is Some
            }
        }),
{
    let v = state@;
    law_every_state_counts_fit(state);
    let all = all_items(v);
    let pane_id = v.workspaces[w].tabs[t].pane_order[k];
    let target = GotoTarget::Agent { ws_idx: w as usize, tab_idx: t as usize, pane_id };
    assert(v.workspaces[w].tabs.len() <= usize::MAX);
    lemma_items_upto_point_into(v, v.workspaces.len() as int);
    lemma_items_upto_complete(v, v.workspaces.len() as int);
    if agent_item(v, w, t, k) is Some {
        let e = agent_item(v, w, t, k)->0;
        assert(all.contains(e));
        let i = choose|i: int| 0 <= i < all.len() && all[i] == e;
        assert(all[i].target == target);
    }
    if exists|i: int| 0 <= i < all.len() && (#[trigger] all[i]).target == target {
        let i = choose|i: int| 0 <= i < all.len() && (#[trigger] all[i]).target == target;
        assert(built_row(v, all[i]));
    }
}

proof fn lemma_category_concat(a: Seq<GotoItemView>, b: Seq<GotoItemView>, c: Option<GotoCategory>)
    ensures
        items_in_category(a + b, c) == items_in_category(a, c) + items_in_category(b, c),
    decreases b.len(),
{
    if b.len() == 0 {
        assert(a + b =~= a);
        assert(items_in_category(a, c) + items_in_category(b, c) =~= items_in_category(a, c));
    } else {
        lemma_category_concat(a, b.drop_last(), c);
        assert((a + b).drop_last() =~= a + b.drop_last());
        assert((a + b).last() == b.last());
    }
}

proof fn lemma_category_none_match(s: Seq<GotoItemView>, c: Option<GotoCategory>)
    requires
        forall|i: int| 0 <= i < s.len() ==> !in_category(#[trigger] s[i], c),
    ensures
        items_in_category(s, c) == Seq::<GotoItemView>::empty(),
    decreases s.len(),
{
    if s.len() > 0 {
        assert(!in_category(s[s.len() - 1], c));
        lemma_category_none_match(s.drop_last(), c);
    }
}

proof fn lemma_space_rows_upto(v: AppView, n: int)
    requires
        counts_fit(v),
        0 <= n <= v.workspaces.len(),
    ensures
        items_in_category(items_upto(v, n), Some(GotoCategory::Workspaces)) == Seq::new(
            n as nat,
            |w: int| space_item(v, w),
        ),
    decreases n,
{
    let c = Some(GotoCategory::Workspaces);
    if n == 0 {
        assert(Seq::new(0, |w: int| space_item(v, w)) =~= Seq::<GotoItemView>::empty());
    } else {
        lemma_space_rows_upto(v, n - 1);
        let tabs = tab_items(v, n - 1, v.workspaces[n - 1].tabs.len() as int);
        lemma_tab_items_point_into(v, n - 1, v.workspaces[n - 1].tabs.len() as int);
        lemma_category_none_match(tabs, c);
        lemma_category_concat(items_upto(v, n - 1), workspace_block(v, n - 1), c);
        lemma_category_concat(seq![space_item(v, n - 1)], tabs, c);
        assert(seq![space_item(v, n - 1)].drop_last() =~= Seq::<GotoItemView>::empty());
        assert(seq![space_item(v, n - 1)].last() == space_item(v, n - 1));
        assert(items_in_category(Seq::<GotoItemView>::empty(), c) == Seq::<GotoItemView>::empty());
        assert(items_in_category(seq![space_item(v, n - 1)], c) =~= seq![space_item(v, n - 1)]);
        assert(Seq::new(n as nat, |w: int| space_item(v, w)) =~= Seq::new(
            (n - 1) as nat,
            |w: int| space_item(v, w),
        ).push(space_item(v, n - 1)));
    }
}

/// The rows of the tabs of the first `n` workspaces, in order.
pub open spec fn tab_rows_upto(v: AppView, n: int) -> Seq<GotoItemView>
    decreases n,
{
    if n <= 0 {
        Seq::empty()
    } else {
        tab_rows_upto(v, n - 1) + Seq::new(
            v.workspaces[n - 1].tabs.len(),
            |t: int| tab_item(v, n - 1, t),
        )
    }
}

/// The number of tabs of the first `n` workspaces.
pub open spec fn tab_total(v: AppView, n: int) -> int
    decreases n,
{
    if n <= 0 {
        0
    } else {
        tab_total(v, n - 1) + v.workspaces[n - 1].tabs.len()
    }
}

proof fn lemma_tab_rows_of_tab_items(v: AppView, w: int, n: int)
    requires
        counts_fit(v),
        0 <= w < v.workspaces.len(),
        0 <= n <= v.workspaces[w].tabs.len(),
    ensures
        items_in_category(tab_items(v, w, n), Some(GotoCategory::Tabs)) == Seq::new(
            n as nat,
            |t: int| tab_item(v, w, t),
        ),
    decreases n,
{
    let c = Some(GotoCategory::Tabs);
    if n == 0 {
        assert(Seq::new(0, |t: int| tab_item(v, w, t)) =~= Seq::<GotoItemView>::empty());
    } else {
        lemma_tab_rows_of_tab_items(v, w, n - 1);
        let np = v.workspaces[w].tabs[n - 1].pane_order.len() as int;
        lemma_pane_items_point_into(v, w, n - 1, np);
        let panes = pane_items(v, w, n - 1, np);
        lemma_category_none_match(panes, c);
        let head = seq![tab_item(v, w, n - 1)];
        lemma_category_concat(head, panes, c);
        lemma_category_concat(tab_items(v, w, n - 1), tab_block(v, w, n - 1), c);
        assert(head.drop_last() =~= Seq::<GotoItemView>::empty());
        assert(head.last() == tab_item(v, w, n - 1));
        assert(items_in_category(Seq::<GotoItemView>::empty(), c) == Seq::<GotoItemView>::empty());
        assert(items_in_category(head, c) =~= head);
        assert(Seq::new(n as nat, |t: int| tab_item(v, w, t)) =~= Seq::new(
            (n - 1) as nat,
            |t: int| tab_item(v, w, t),
        ).push(tab_item(v, w, n - 1)));
    }
}

proof fn lemma_tab_rows_upto(v: AppView, n: int)
    requires
        counts_fit(v),
        0 <= n <= v.workspaces.len(),
    ensures
        items_in_category(items_upto(v, n), Some(GotoCategory::Tabs)) == tab_rows_upto(v, n),
        tab_rows_upto(v, n).len() == tab_total(v, n),
    decreases n,
{
    let c = Some(GotoCategory::Tabs);
    if n > 0 {
        lemma_tab_rows_upto(v, n - 1);
        let nt = v.workspaces[n - 1].tabs.len() as int;
        lemma_tab_rows_of_tab_items(v, n - 1, nt);
        let head = seq![space_item(v, n - 1)];
        let tabs = tab_items(v, n - 1, nt);
        lemma_category_concat(head, tabs, c);
        lemma_category_concat(items_upto(v, n - 1), workspace_block(v, n - 1), c);
        assert(head.drop_last() =~= Seq::<GotoItemView>::empty());
        assert(head.last() == space_item(v, n - 1));
        assert(items_in_category(Seq::<GotoItemView>::empty(), c) == Seq::<GotoItemView>::empty());
        assert(items_in_category(head, c) =~= Seq::<GotoItemView>::empty());
        assert(Seq::<GotoItemView>::empty() + items_in_category(tabs, c) =~= items_in_category(
            tabs,
            c,
        ));
    }
}

/// Narrowed to tabs, the picker shows one row per tab, workspace by
/// workspace and tab by tab; there are as many as there are tabs.
pub proof fn law_one_tab_row_per_tab(state: &AppState)
    ensures
        items_in_category(all_items(state@), Some(GotoCategory::Tabs)) == tab_rows_upto(
            state@,
            state@.workspaces.len() as int,
        ),
        items_in_category(all_items(state@), Some(GotoCategory::Tabs)).len() == tab_total(
            state@,
            state@.workspaces.len() as int,
        ),
{
    let v = state@;
    law_every_state_counts_fit(state);
    lemma_tab_rows_upto(v, v.workspaces.len() as int);
}

/// Narrowed to workspaces, the picker shows one row per workspace, in the
/// order of the workspaces.
pub proof fn law_one_space_row_per_workspace(state: &AppState)
    ensures
        items_in_category(all_items(state@), Some(GotoCategory::Workspaces)) == Seq::new(
            state@.workspaces.len(),
            |w: int| space_item(state@, w),
        ),
        items_in_category(all_items(state@), Some(GotoCategory::Workspaces)).len()
            == state@.workspaces.len(),
{
    let v = state@;
    law_every_state_counts_fit(state);
    lemma_space_rows_upto(v, v.workspaces.len() as int);
}

/// Enter on a row that leads somewhere that exists goes there: the row's
/// workspace becomes active, for a tab or an agent its tab becomes the
/// active tab, for an agent its pane gets the focus; the picker closes
/// into the terminal.
pub proof fn law_enter_goes_to_row(v: AppView)
    requires
        v.goto.list < v.goto.items.len(),
        row_points_into(v, v.goto.items[v.goto.list as int]),
    ensures
        ({
            let after = goto_step(v, GotoAction::Apply);
            let target = v.goto.items[v.goto.list as int].target;
            &&& after.mode == crate::model::Mode::Terminal
            &&& after.goto == crate::goto::empty_goto()
            &&& match target {
                GotoTarget::Space { ws_idx } => after.active == Some(ws_idx),
                GotoTarget::Tab { ws_idx, tab_idx } => after.active == Some(ws_idx)
                    && after.workspaces[ws_idx as int].active_tab == tab_idx,
                GotoTarget::Agent { ws_idx, tab_idx, pane_id } => {
                    &&& after.active == Some(ws_idx)
                    &&& after.workspaces[ws_idx as int].active_tab == tab_idx
                    &&& after.workspaces[ws_idx as int].tabs[tab_idx as int].focused == pane_id
                },
            }
        }),
{
}

// ---------------------------------------------------------------------------
// Drawing

/// The drawn window always holds the highlighted row, never more rows than
/// fit, and never a row past the end; the highlighted row is the cursor's
/// whenever the cursor is on a row.
pub proof fn law_list_window_shows_cursor(list: usize, total: usize, height: usize)
    ensures
        match list_window_spec(list, total, height) {
            None => total == 0 || height == 0,
            Some(w) => {
                &&& w.start <= w.selected < w.end <= total
                &&& w.end - w.start <= height
                &&& list < total ==> w.selected == list
                &&& list >= total ==> w.selected == total - 1
            },
        },
{
}

/// The popup is between 8 and 20 rows high, and between 40 and 90 columns
/// wide unless the screen is narrower, in which case it leaves two columns
/// on each side.
pub proof fn law_popup_size_bounds(target_width: u16, area_width: u16, area_height: u16)
    ensures
        8 <= popup_height_spec(area_height) <= 20,
        popup_width_spec(target_width, area_width) <= 90,
        area_width >= 44 ==> popup_width_spec(target_width, area_width) >= 40,
        popup_width_spec(target_width, area_width) + 4 <= area_width || popup_width_spec(
            target_width,
            area_width,
        ) == 0,
{
}

} // verus!
