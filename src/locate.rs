use crate::action::ActionError;
use crate::config::MatchRule;
use crate::matcher::{
    is_match_list, lemma_list_selection, list_selection, match_windows_with_rules, rule_selects,
    selected_by_any,
};
use crate::window::{Window, Workspace};
use vstd::prelude::*;

verus! {

/// Whether window `i` survives the rules: some include rule selects its id
/// and no exclude rule does.
pub open spec fn is_candidate(
    ws: Seq<Window>,
    includes: Seq<MatchRule>,
    excludes: Seq<MatchRule>,
    i: int,
) -> bool {
    selected_by_any(ws, includes, ws[i].id) && !selected_by_any(ws, excludes, ws[i].id)
}

/// The positions of the candidates among the first `n` windows, in order.
pub open spec fn candidates_upto(
    ws: Seq<Window>,
    includes: Seq<MatchRule>,
    excludes: Seq<MatchRule>,
    n: int,
) -> Seq<int>
    decreases n,
{
    if n <= 0 {
        seq![]
    } else {
        candidates_upto(ws, includes, excludes, n - 1) + if is_candidate(
            ws,
            includes,
            excludes,
            n - 1,
        ) {
            seq![n - 1]
        } else {
            seq![]
        }
    }
}

/// The positions of all candidate windows, in snapshot order.
pub open spec fn candidates(ws: Seq<Window>, includes: Seq<MatchRule>, excludes: Seq<MatchRule>) -> Seq<int> {
    candidates_upto(ws, includes, excludes, ws.len() as int)
}

/// The ids of all candidate windows, in snapshot order.
pub open spec fn candidate_ids(ws: Seq<Window>, includes: Seq<MatchRule>, excludes: Seq<MatchRule>) -> Seq<u64> {
    candidates(ws, includes, excludes).map_values(|p: int| ws[p].id)
}

/// The criteria by which a workspace is looked up.
#[derive(Clone, Copy)]
pub enum WorkspaceQuery {
    Focused,
    Hidden,
    WithId(u64),
}

pub open spec fn workspace_fits(w: Workspace, q: WorkspaceQuery) -> bool {
    match q {
        WorkspaceQuery::Focused => w.is_focused,
        WorkspaceQuery::Hidden => w.is_hidden,
        WorkspaceQuery::WithId(id) => w.id == id,
    }
}

pub open spec fn is_first_workspace(wss: Seq<Workspace>, q: WorkspaceQuery, i: int) -> bool {
    &&& 0 <= i < wss.len()
    &&& workspace_fits(wss[i], q)
    &&& forall|j: int| 0 <= j < i ==> !workspace_fits(#[trigger] wss[j], q)
}

/// The position of the first workspace that fits `q`, if any does.
pub open spec fn first_workspace(wss: Seq<Workspace>, q: WorkspaceQuery) -> Option<int> {
    if exists|i: int| is_first_workspace(wss, q, i) {
        Some(choose|i: int| is_first_workspace(wss, q, i))
    } else {
        None
    }
}

pub open spec fn is_first_focused_window(ws: Seq<Window>, i: int) -> bool {
    &&& 0 <= i < ws.len()
    &&& ws[i].is_focused
    &&& forall|j: int| 0 <= j < i ==> !(#[trigger] ws[j]).is_focused
}

/// The position of the first focused window, if any is focused.
pub open spec fn focused_window(ws: Seq<Window>) -> Option<int> {
    if exists|i: int| is_first_focused_window(ws, i) {
        Some(choose|i: int| is_first_focused_window(ws, i))
    } else {
        None
    }
}

/// What locating an application's window in a snapshot comes to.
pub enum Located {
    /// More than one candidate: their ids.
    Ambiguous(Seq<u64>),
    NoMatch,
    /// The single candidate (this id) is on no workspace.
    NoWindowWorkspace(u64),
    /// The single candidate's workspace (this id) is not in the snapshot.
    WorkspaceNotFound(u64),
    /// The positions of the window and of its workspace.
    Found(int, int),
}

pub open spec fn locate(
    ws: Seq<Window>,
    wss: Seq<Workspace>,
    includes: Seq<MatchRule>,
    excludes: Seq<MatchRule>,
) -> Located {
    let c = candidates(ws, includes, excludes);
    if c.len() > 1 {
        Located::Ambiguous(candidate_ids(ws, includes, excludes))
    } else if c.len() == 0 {
        Located::NoMatch
    } else {
        match ws[c[0]].workspace_id {
            None => Located::NoWindowWorkspace(ws[c[0]].id),
            Some(wid) => match first_workspace(wss, WorkspaceQuery::WithId(wid)) {
                None => Located::WorkspaceNotFound(wid),
                Some(k) => Located::Found(c[0], k),
            },
        }
    }
}

/// Whether `e` is the error that locating reports for `l`.
pub open spec fn is_locate_error(e: ActionError, l: Located) -> bool {
    match l {
        Located::Ambiguous(ids) => e matches ActionError::Ambiguous { window_ids } && window_ids@ == ids,
        Located::NoMatch => e == ActionError::NoMatch,
        Located::NoWindowWorkspace(id) => e == ActionError::NoWindowWorkspace { window_id: id },
        Located::WorkspaceNotFound(id) => e == ActionError::WorkspaceNotFound { workspace_id: id },
        Located::Found(_, _) => false,
    }
}

/// The position of the first workspace that fits `q`.
pub fn find_workspace(workspaces: &Vec<Workspace>, q: WorkspaceQuery) -> (r: Option<usize>)
    ensures
        match r {
            Some(i) => first_workspace(workspaces@, q) == Some(i as int),
            None => first_workspace(workspaces@, q) is None,
        },
{
    let mut i: usize = 0;
    while i < workspaces.len()
        invariant
            i <= workspaces.len(),
            forall|j: int| 0 <= j < i ==> !workspace_fits(#[trigger] workspaces@[j], q),
        decreases workspaces.len() - i,
    {
        let w = &workspaces[i];
        let fits = match q {
            WorkspaceQuery::Focused => w.is_focused,
            WorkspaceQuery::Hidden => w.is_hidden,
            WorkspaceQuery::WithId(id) => w.id == id,
        };
        if fits {
            assert(is_first_workspace(workspaces@, q, i as int));
            let ghost c = choose|k: int| is_first_workspace(workspaces@, q, k);
            assert(c == i) by {
                if c < i {
                    assert(!workspace_fits(workspaces@[c], q));
                }
                if c > i {
                    assert(!workspace_fits(workspaces@[i as int], q));
                }
            }
            return Some(i);
        }
        i = i + 1;
    }
    None
}

/// The position of the first focused window.
pub fn find_focused_window(windows: &Vec<Window>) -> (r: Option<usize>)
    ensures
        match r {
            Some(i) => focused_window(windows@) == Some(i as int),
            None => focused_window(windows@) is None,
        },
{
    let mut i: usize = 0;
    while i < windows.len()
        invariant
            i <= windows.len(),
            forall|j: int| 0 <= j < i ==> !(#[trigger] windows@[j]).is_focused,
        decreases windows.len() - i,
    {
        if windows[i].is_focused {
            assert(is_first_focused_window(windows@, i as int));
            let ghost c = choose|k: int| is_first_focused_window(windows@, k);
            assert(c == i) by {
                if c < i {
                    assert(!windows@[c].is_focused);
                }
                if c > i {
                    assert(!windows@[i as int].is_focused);
                }
            }
            return Some(i);
        }
        i = i + 1;
    }
    None
}

fn contains_id(ids: &Vec<u64>, id: u64) -> (r: bool)
    ensures
        r == ids@.contains(id),
{
    let mut i: usize = 0;
    while i < ids.len()
        invariant
            i <= ids.len(),
            forall|j: int| 0 <= j < i ==> ids@[j] != id,
        decreases ids.len() - i,
    {
        if ids[i] == id {
            assert(ids@[i as int] == id);
            return true;
        }
        i = i + 1;
    }
    false
}

/// What a rule with `index` selects from its match list `ids`.
fn apply_index(index: Option<usize>, ids: &Vec<u64>) -> (chosen: Vec<u64>)
    ensures
        chosen@ == list_selection(index, ids@),
{
    let mut chosen: Vec<u64> = Vec::new();
    match index {
        None => {
            let mut p: usize = 0;
            while p < ids.len()
                invariant
                    p <= ids.len(),
                    chosen@ == ids@.take(p as int),
                decreases ids.len() - p,
            {
                chosen.push(ids[p]);
                assert(ids@.take(p + 1) == ids@.take(p as int).push(ids@[p as int]));
                p = p + 1;
            }
            assert(ids@.take(p as int) == ids@);
        },
        Some(k) => {
            if k < ids.len() {
                chosen.push(ids[k]);
                assert(chosen@ =~= seq![ids@[k as int]]);
            } else {
                assert(chosen@ =~= Seq::<u64>::empty());
            }
        },
    }
    chosen
}

/// The ids selected by any rule of `rules`, with repetitions.
fn selected_ids(windows: &Vec<Window>, rules: &Vec<MatchRule>) -> (ids: Vec<u64>)
    ensures
        forall|id: u64| ids@.contains(id) <==> selected_by_any(windows@, rules@, id),
{
    let per_rule = match_windows_with_rules(windows, rules);
    let mut ids: Vec<u64> = Vec::new();
    let mut r: usize = 0;
    while r < per_rule.len()
        invariant
            r <= per_rule.len(),
            per_rule.len() == rules.len(),
            forall|q: int|
                0 <= q < rules.len() ==> (#[trigger] per_rule[q]).0 == rules@[q].index && is_match_list(
                    windows@,
                    rules@[q],
                    per_rule[q].1@,
                ),
            forall|id: u64| ids@.contains(id) <==> exists|q: int, i: int|
                0 <= q < r && 0 <= i < windows.len() && #[trigger] rule_selects(windows@, rules@[q], i)
                    && windows@[i].id == id,
        decreases per_rule.len() - r,
    {
        let ghost before = ids@;
        let chosen = apply_index(per_rule[r].0, &per_rule[r].1);
        let mut p: usize = 0;
        while p < chosen.len()
            invariant
                p <= chosen.len(),
                ids@ == before + chosen@.take(p as int),
            decreases chosen.len() - p,
        {
            ids.push(chosen[p]);
            proof {
                assert(chosen@.take(p + 1) == chosen@.take(p as int).push(chosen@[p as int]));
            }
            p = p + 1;
        }
        proof {
            assert(chosen@.take(p as int) == chosen@);
            assert forall|id: u64| ids@.contains(id) <==> exists|q: int, i: int|
                0 <= q < r + 1 && 0 <= i < windows.len() && #[trigger] rule_selects(windows@, rules@[q], i)
                    && windows@[i].id == id by {
                lemma_list_selection(windows@, rules@[r as int], per_rule[r as int].1@, id);
                let cur = chosen@;
                if ids@.contains(id) {
                    let k = choose|k: int| 0 <= k < ids@.len() && ids@[k] == id;
                    if k >= before.len() {
                        assert(cur[k - before.len()] == id);
                        assert(cur.contains(id));
                        let i = choose|i: int| 0 <= i < windows.len() && #[trigger] rule_selects(windows@, rules@[r as int], i) && windows@[i].id == id;
                        assert(rule_selects(windows@, rules@[r as int], i));
                    } else {
                        assert(before[k] == id);
                        assert(before.contains(id));
                    }
                }
                if exists|q: int, i: int|
                    0 <= q < r + 1 && 0 <= i < windows.len() && #[trigger] rule_selects(windows@, rules@[q], i)
                        && windows@[i].id == id {
                    let (q, i) = choose|q: int, i: int|
                        0 <= q < r + 1 && 0 <= i < windows.len() && #[trigger] rule_selects(windows@, rules@[q], i)
                            && windows@[i].id == id;
                    if q == r {
                        assert(cur.contains(id));
                        let k = choose|k: int| 0 <= k < cur.len() && cur[k] == id;
                        assert(ids@[before.len() + k] == id);
                    } else {
                        assert(before.contains(id));
                        let k = choose|k: int| 0 <= k < before.len() && before[k] == id;
                        assert(ids@[k] == id);
                    }
                }
            }
        }
        r = r + 1;
    }
    ids
}

/// Resolves an application's rules to its one window and that window's
/// workspace: `Ok(None)` when no window is left by the rules, an error when
/// more than one is, or when the one left has no workspace in the snapshot.
pub fn get_matched_window_and_workspace<'a>(
    windows: &'a Vec<Window>,
    workspaces: &'a Vec<Workspace>,
    matches: &Vec<MatchRule>,
    excludes: &Vec<MatchRule>,
) -> (r: Result<Option<(&'a Window, &'a Workspace)>, ActionError>)
    ensures
        match locate(windows@, workspaces@, matches@, excludes@) {
            Located::Found(wi, si) => r is Ok && r->Ok_0 is Some && *(r->Ok_0->Some_0.0)
                == windows@[wi] && *(r->Ok_0->Some_0.1) == workspaces@[si],
            Located::NoMatch => r is Ok && r->Ok_0 is None,
            l => r is Err && is_locate_error(r->Err_0, l),
        },
{
    let excluded = selected_ids(windows, excludes);
    let included = selected_ids(windows, matches);
    let ghost ws = windows@;
    let mut cands: Vec<usize> = Vec::new();
    let mut i: usize = 0;
    while i < windows.len()
        invariant
            i <= windows.len(),
            ws == windows@,
            forall|id: u64| excluded@.contains(id) <==> selected_by_any(ws, excludes@, id),
            forall|id: u64| included@.contains(id) <==> selected_by_any(ws, matches@, id),
            cands.len() == candidates_upto(ws, matches@, excludes@, i as int).len(),
            forall|k: int|
                0 <= k < cands.len() ==> cands[k] as int == candidates_upto(ws, matches@, excludes@, i as int)[k]
                    && cands[k] < windows.len(),
        decreases windows.len() - i,
    {
        let id = windows[i].id;
        let keep = contains_id(&included, id) && !contains_id(&excluded, id);
        if keep {
            cands.push(i);
        }
        proof {
            let prev = candidates_upto(ws, matches@, excludes@, i as int);
            let tail = if is_candidate(ws, matches@, excludes@, i as int) {
                seq![i as int]
            } else {
                seq![]
            };
            assert(candidates_upto(ws, matches@, excludes@, i + 1) == prev + tail);
            assert(keep == is_candidate(ws, matches@, excludes@, i as int));
        }
        i = i + 1;
    }
    let ghost c = candidates(ws, matches@, excludes@);
    if cands.len() > 1 {
        let mut window_ids: Vec<u64> = Vec::new();
        let mut k: usize = 0;
        while k < cands.len()
            invariant
                k <= cands.len(),
                ws == windows@,
                cands.len() == c.len(),
                forall|j: int| 0 <= j < cands.len() ==> #[trigger] cands@[j] as int == c[j] && cands@[j] < windows.len(),
                window_ids.len() == k,
                forall|j: int| 0 <= j < k ==> window_ids@[j] == ws[c[j]].id,
            decreases cands.len() - k,
        {
            let p = cands[k];
            assert(cands@[k as int] == p);
            window_ids.push(windows[p].id);
            k = k + 1;
        }
        assert(window_ids@ =~= candidate_ids(ws, matches@, excludes@));
        return Err(ActionError::Ambiguous { window_ids });
    }
    if cands.len() == 0 {
        return Ok(None);
    }
    let window = &windows[cands[0]];
    match window.workspace_id {
        None => Err(ActionError::NoWindowWorkspace { window_id: window.id }),
        Some(wid) => match find_workspace(workspaces, WorkspaceQuery::WithId(wid)) {
            None => Err(ActionError::WorkspaceNotFound { workspace_id: wid }),
            Some(k) => Ok(Some((window, &workspaces[k]))),
        },
    }
}

} // verus!
