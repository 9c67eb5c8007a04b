use crate::action::{bring_forward, Action};
use crate::config::MatchRule;
use crate::locate::{candidates, candidates_upto, is_candidate, locate, Located};
use crate::matcher::{
    is_match_list, lemma_rank_below_count, lemma_rank_injective, lemma_rank_onto,
    match_count_upto, pid_before, rank, rule_matches, rule_selects, selected_by_any,
};
use crate::window::{Window, Workspace};
use vstd::prelude::*;

verus! {

/// A rule without patterns matches every window; without an index it selects
/// every window, and with index `k` exactly the windows at position `k` of its
/// match list.
pub proof fn lemma_rule_without_patterns(ws: Seq<Window>, rule: MatchRule, i: int)
    requires
        rule.app_id is None,
        rule.title is None,
        0 <= i < ws.len(),
    ensures
        rule_matches(rule, ws[i]),
        rule.index is None ==> rule_selects(ws, rule, i),
        rule.index is Some ==> (rule_selects(ws, rule, i) <==> rank(ws, rule, i)
            == rule.index->0),
{
}

/// A window that lacks the field a pattern of the rule targets is never
/// selected by that rule.
pub proof fn lemma_missing_field_never_selected(ws: Seq<Window>, rule: MatchRule, i: int)
    requires
        0 <= i < ws.len(),
        (rule.app_id is Some && ws[i].app_id is None) || (rule.title is Some && ws[i].title
            is None),
    ensures
        !rule_matches(rule, ws[i]),
        !rule_selects(ws, rule, i),
{
}

/// A rule's match list holds only ids of matching windows, in ascending pid
/// order: of two entries, the later one never has the smaller pid, and
/// among equal pids the snapshot order is kept.
pub proof fn lemma_match_list_ordered(ws: Seq<Window>, rule: MatchRule, ids: Seq<u64>, p: int, q: int)
    requires
        is_match_list(ws, rule, ids),
        0 <= p < q < ids.len(),
    ensures
        exists|i: int, j: int|
            0 <= i < ws.len() && 0 <= j < ws.len() && rule_matches(rule, ws[i]) && rule_matches(
                rule,
                ws[j],
            ) && #[trigger] ws[i].id == ids[p] && #[trigger] ws[j].id == ids[q] && !pid_before(
                ws[j].pid,
                ws[i].pid,
            ) && (ws[i].pid == ws[j].pid ==> i < j),
{
    lemma_rank_onto(ws, rule, p);
    lemma_rank_onto(ws, rule, q);
    let i = choose|i: int| 0 <= i < ws.len() && rule_matches(rule, ws[i]) && #[trigger] rank(ws, rule, i) == p;
    let j = choose|j: int| 0 <= j < ws.len() && rule_matches(rule, ws[j]) && #[trigger] rank(ws, rule, j) == q;
    lemma_rank_injective(ws, rule, i, j);
    assert(ws[i].id == ids[p] && ws[j].id == ids[q]);
}

/// A rule with an index selects at most one window of a snapshot: selecting
/// the `k`-th window of the same snapshot always gives the same window.
pub proof fn lemma_index_selects_one(ws: Seq<Window>, rule: MatchRule, i: int, j: int)
    requires
        rule.index is Some,
        0 <= i < ws.len(),
        0 <= j < ws.len(),
        rule_selects(ws, rule, i),
        rule_selects(ws, rule, j),
    ensures
        i == j,
{
    if i != j {
        lemma_rank_injective(ws, rule, i, j);
    }
}

/// A window selected by one include rule is in the include set whatever the
/// other include rules select; with no exclude rule selecting it, it is a
/// candidate.
pub proof fn lemma_include_union(
    ws: Seq<Window>,
    includes: Seq<MatchRule>,
    excludes: Seq<MatchRule>,
    r: int,
    i: int,
)
    requires
        0 <= r < includes.len(),
        0 <= i < ws.len(),
        rule_selects(ws, includes[r], i),
    ensures
        selected_by_any(ws, includes, ws[i].id),
        !selected_by_any(ws, excludes, ws[i].id) ==> is_candidate(ws, includes, excludes, i),
{
}

/// Every listed candidate position is in range and is a candidate.
proof fn lemma_candidates_upto_sound(
    ws: Seq<Window>,
    includes: Seq<MatchRule>,
    excludes: Seq<MatchRule>,
    n: int,
    k: int,
)
    requires
        0 <= n <= ws.len(),
        0 <= k < candidates_upto(ws, includes, excludes, n).len(),
    ensures
        0 <= candidates_upto(ws, includes, excludes, n)[k] < n,
        is_candidate(ws, includes, excludes, candidates_upto(ws, includes, excludes, n)[k]),
    decreases n,
{
    let prev = candidates_upto(ws, includes, excludes, n - 1);
    if k < prev.len() {
        lemma_candidates_upto_sound(ws, includes, excludes, n - 1, k);
    }
}

/// Whether `l` locates the window at position `i`.
pub open spec fn is_found_at(l: Located, i: int) -> bool {
    match l {
        Located::Found(wi, _) => wi == i,
        _ => false,
    }
}

/// A window that some exclude rule selects is never a candidate, and never
/// the located window, whatever the include rules select.
pub proof fn lemma_exclude_wins(
    ws: Seq<Window>,
    wss: Seq<Workspace>,
    includes: Seq<MatchRule>,
    excludes: Seq<MatchRule>,
    r: int,
    i: int,
)
    requires
        0 <= r < excludes.len(),
        0 <= i < ws.len(),
        rule_selects(ws, excludes[r], i),
    ensures
        !candidates(ws, includes, excludes).contains(i),
        !is_found_at(locate(ws, wss, includes, excludes), i),
{
    let c = candidates(ws, includes, excludes);
    assert(selected_by_any(ws, excludes, ws[i].id));
    if c.contains(i) {
        let k = choose|k: int| 0 <= k < c.len() && c[k] == i;
        lemma_candidates_upto_sound(ws, includes, excludes, ws.len() as int, k);
    }
    if c.len() == 1 {
        lemma_candidates_upto_sound(ws, includes, excludes, ws.len() as int, 0);
        assert(c.contains(c[0]));
    }
}

/// Whether `a` moves a window to a workspace other than `ws_id`.
pub open spec fn moves_elsewhere(a: Action, ws_id: u64) -> bool {
    match a {
        Action::MoveWindowToWorkspace { workspace_id, .. } => workspace_id != ws_id,
        Action::FocusWindow { .. } => false,
    }
}

/// Bringing a window forward ends with focusing it and moves it nowhere but
/// to the focused workspace; once it is there, bringing it forward again
/// issues the focus request alone: showing a window twice moves it at most
/// once.
pub proof fn lemma_show_idempotent(window_id: u64, window_ws: u64, focused_ws: u64)
    ensures
        bring_forward(window_id, window_ws, focused_ws).last() == (Action::FocusWindow {
            id: window_id,
        }),
        forall|k: int|
            0 <= k < bring_forward(window_id, window_ws, focused_ws).len() ==> !moves_elsewhere(
                #[trigger] bring_forward(window_id, window_ws, focused_ws)[k],
                focused_ws,
            ),
        bring_forward(window_id, focused_ws, focused_ws) == seq![
            (Action::FocusWindow { id: window_id }),
        ],
{
}

proof fn lemma_all_match(ws: Seq<Window>, rule: MatchRule, n: int)
    requires
        rule.app_id is None,
        rule.title is None,
        0 <= n <= ws.len(),
    ensures
        match_count_upto(ws, rule, n) == n,
    decreases n,
{
    if n > 0 {
        lemma_all_match(ws, rule, n - 1);
    }
}

/// With every window up to `n` a candidate, all of them are listed.
proof fn lemma_candidates_all(ws: Seq<Window>, includes: Seq<MatchRule>, excludes: Seq<MatchRule>, n: int)
    requires
        0 <= n <= ws.len(),
        forall|i: int| 0 <= i < n ==> is_candidate(ws, includes, excludes, i),
    ensures
        candidates_upto(ws, includes, excludes, n).len() == n,
    decreases n,
{
    if n > 0 {
        lemma_candidates_all(ws, includes, excludes, n - 1);
    }
}

/// With only window `c` (if any) a candidate, it alone is listed.
proof fn lemma_candidates_only(
    ws: Seq<Window>,
    includes: Seq<MatchRule>,
    excludes: Seq<MatchRule>,
    n: int,
    c: int,
)
    requires
        0 <= n <= ws.len(),
        forall|i: int| 0 <= i < n && i != c ==> !is_candidate(ws, includes, excludes, i),
    ensures
        candidates_upto(ws, includes, excludes, n) == if 0 <= c < n && is_candidate(
            ws,
            includes,
            excludes,
            c,
        ) {
            seq![c]
        } else {
            Seq::<int>::empty()
        },
    decreases n,
{
    if n > 0 {
        lemma_candidates_only(ws, includes, excludes, n - 1, c);
        let prev = candidates_upto(ws, includes, excludes, n - 1);
        if n - 1 == c && is_candidate(ws, includes, excludes, c) {
            assert(prev + seq![c] =~= seq![c]);
        } else {
            assert(prev + Seq::<int>::empty() =~= prev);
        }
    }
}

/// Locating with one pattern-less include rule and no exclude rule, among
/// windows with distinct ids: without an index, two or more windows are
/// ambiguous and a lone window is the one located; with an index past the last window nothing is found; with an
/// index `k` below the window count, the window at position `k` of the pid
/// order is the one located (or the lookup of its workspace fails).
pub proof fn lemma_patternless_rule_located(ws: Seq<Window>, wss: Seq<Workspace>, rule: MatchRule)
    requires
        rule.app_id is None,
        rule.title is None,
        forall|i: int, j: int| 0 <= i < ws.len() && 0 <= j < ws.len() && i != j ==> ws[i].id != ws[j].id,
    ensures
        rule.index is None && ws.len() >= 2 ==> locate(ws, wss, seq![rule], seq![]) is Ambiguous,
        (rule.index matches Some(k) && k >= ws.len()) ==> locate(ws, wss, seq![rule], seq![]) is NoMatch,
        (rule.index matches Some(k) && k < ws.len()) ==> !(locate(ws, wss, seq![rule], seq![]) is NoMatch)
            && !(locate(ws, wss, seq![rule], seq![]) is Ambiguous),
        locate(ws, wss, seq![rule], seq![]) is Found && rule.index is None ==> ws.len() == 1,
        locate(ws, wss, seq![rule], seq![]) is Found && rule.index is Some ==> rank(
            ws,
            rule,
            locate(ws, wss, seq![rule], seq![])->Found_0,
        ) == rule.index->0,
{
    let inc = seq![rule];
    let exc = Seq::<MatchRule>::empty();
    let n = ws.len() as int;
    lemma_all_match(ws, rule, n);
    assert forall|i: int| 0 <= i < n implies (is_candidate(ws, inc, exc, i) <==> rule_selects(ws, rule, i)) by {
        if is_candidate(ws, inc, exc, i) {
            let (r, j) = choose|r: int, j: int|
                0 <= r < inc.len() && 0 <= j < ws.len() && #[trigger] rule_selects(ws, inc[r], j)
                    && ws[j].id == ws[i].id;
            assert(j == i);
        }
        if rule_selects(ws, rule, i) {
            assert(rule_selects(ws, inc[0], i));
        }
    }
    match rule.index {
        None => {
            assert forall|i: int| 0 <= i < n implies is_candidate(ws, inc, exc, i) by {
                assert(rule_selects(ws, inc[0], i));
            }
            lemma_candidates_all(ws, inc, exc, n);
        },
        Some(k) => {
            if k >= n {
                assert forall|i: int| 0 <= i < n implies !is_candidate(ws, inc, exc, i) by {
                    lemma_rank_below_count(ws, rule, i);
                }
                lemma_candidates_only(ws, inc, exc, n, -1);
            } else {
                lemma_rank_onto(ws, rule, k as int);
                let c = choose|i: int| 0 <= i < ws.len() && rule_matches(rule, ws[i]) && #[trigger] rank(ws, rule, i) == k;
                assert forall|i: int| 0 <= i < n && i != c implies !is_candidate(ws, inc, exc, i) by {
                    lemma_rank_injective(ws, rule, i, c);
                }
                assert(rule_selects(ws, inc[0], c));
                assert(is_candidate(ws, inc, exc, c));
                lemma_candidates_only(ws, inc, exc, n, c);
                assert(candidates(ws, inc, exc) == seq![c]);
            }
        },
    }
}

} // verus!
