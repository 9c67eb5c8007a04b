use crate::config::{regex_finds, MatchRule, Regex};
use crate::window::Window;
use vstd::prelude::*;
use vstd::set_lib::{lemma_int_range, lemma_map_size, lemma_subset_equality, set_int_range};

verus! {

/// A pattern imposes nothing when absent; when present the field must exist
/// and the pattern must be found in it.
pub open spec fn field_matches(pattern: Option<Regex>, field: Option<String>) -> bool {
    match pattern {
        None => true,
        Some(p) => match field {
            None => false,
            Some(f) => regex_finds(p@, f@),
        },
    }
}

/// Whether `w` satisfies both patterns of `rule`.
pub open spec fn rule_matches(rule: MatchRule, w: Window) -> bool {
    field_matches(rule.app_id, w.app_id) && field_matches(rule.title, w.title)
}

/// Strict order of process ids: a window without a pid comes before every
/// window with one; windows without a pid are equal to each other.
pub open spec fn pid_before(a: Option<i32>, b: Option<i32>) -> bool {
    match (a, b) {
        (None, Some(_)) => true,
        (Some(x), Some(y)) => x < y,
        _ => false,
    }
}

/// Whether window `j` comes before window `i` in a rule's match list: by pid,
/// and by snapshot position among equal pids (a stable sort).
pub open spec fn ranked_before(ws: Seq<Window>, j: int, i: int) -> bool {
    pid_before(ws[j].pid, ws[i].pid) || (ws[j].pid == ws[i].pid && j < i)
}

/// How many of the first `n` windows match `rule` and come before window `i`.
pub open spec fn rank_upto(ws: Seq<Window>, rule: MatchRule, i: int, n: int) -> nat
    decreases n,
{
    if n <= 0 {
        0
    } else {
        rank_upto(ws, rule, i, n - 1) + if rule_matches(rule, ws[n - 1]) && ranked_before(
            ws,
            n - 1,
            i,
        ) {
            1nat
        } else {
            0nat
        }
    }
}

/// The position of window `i` in the pid-ordered list of the windows that
/// match `rule`.
pub open spec fn rank(ws: Seq<Window>, rule: MatchRule, i: int) -> nat {
    rank_upto(ws, rule, i, ws.len() as int)
}

/// Whether `rule` selects window `i`: it matches, and when the rule has an
/// index `k`, it is at position `k` of the rule's match list.
pub open spec fn rule_selects(ws: Seq<Window>, rule: MatchRule, i: int) -> bool {
    &&& rule_matches(rule, ws[i])
    &&& match rule.index {
        None => true,
        Some(k) => rank(ws, rule, i) == k,
    }
}

/// Whether some rule of `rules` selects a window whose id is `id`.
pub open spec fn selected_by_any(ws: Seq<Window>, rules: Seq<MatchRule>, id: u64) -> bool {
    exists|r: int, i: int|
        0 <= r < rules.len() && 0 <= i < ws.len() && #[trigger] rule_selects(ws, rules[r], i)
            && ws[i].id == id
}

/// A count over the first `n` windows is at most `n`.
pub proof fn lemma_rank_upto_bounded(ws: Seq<Window>, rule: MatchRule, i: int, n: int)
    ensures
        rank_upto(ws, rule, i, n) <= if n < 0 { 0 } else { n },
    decreases n,
{
    if n > 0 {
        lemma_rank_upto_bounded(ws, rule, i, n - 1);
    }
}

/// How many of the first `n` windows match `rule`.
pub open spec fn match_count_upto(ws: Seq<Window>, rule: MatchRule, n: int) -> nat
    decreases n,
{
    if n <= 0 {
        0
    } else {
        match_count_upto(ws, rule, n - 1) + if rule_matches(rule, ws[n - 1]) {
            1nat
        } else {
            0nat
        }
    }
}

/// How many windows match `rule`.
pub open spec fn match_count(ws: Seq<Window>, rule: MatchRule) -> nat {
    match_count_upto(ws, rule, ws.len() as int)
}

/// Whether `ids` is the match list of `rule`: the ids of the matching windows
/// in pid order, each window at its rank.
pub open spec fn is_match_list(ws: Seq<Window>, rule: MatchRule, ids: Seq<u64>) -> bool {
    &&& ids.len() == match_count(ws, rule)
    &&& forall|i: int|
        0 <= i < ws.len() && rule_matches(rule, ws[i]) ==> ids[#[trigger] rank(ws, rule, i) as int]
            == ws[i].id
}

/// What a rule with `index` selects from its match list: all of it, or the
/// entry at the index when there is one.
pub open spec fn list_selection(index: Option<usize>, ids: Seq<u64>) -> Seq<u64> {
    match index {
        None => ids,
        Some(k) => if k < ids.len() {
            seq![ids[k as int]]
        } else {
            seq![]
        },
    }
}

/// The set of the first `n` windows that match `rule`, by position.
pub open spec fn matched_set(ws: Seq<Window>, rule: MatchRule, n: int) -> Set<int> {
    Set::new(|i: int| 0 <= i < n && rule_matches(rule, ws[i]))
}

/// The matching windows among the first `n` are finitely many, as many as
/// `match_count_upto` counts.
pub proof fn lemma_matched_set_len(ws: Seq<Window>, rule: MatchRule, n: int)
    requires
        0 <= n <= ws.len(),
    ensures
        matched_set(ws, rule, n).finite(),
        matched_set(ws, rule, n).len() == match_count_upto(ws, rule, n),
    decreases n,
{
    if n == 0 {
        assert(matched_set(ws, rule, n) =~= Set::<int>::empty());
    } else {
        lemma_matched_set_len(ws, rule, n - 1);
        if rule_matches(rule, ws[n - 1]) {
            assert(matched_set(ws, rule, n) =~= matched_set(ws, rule, n - 1).insert(n - 1));
        } else {
            assert(matched_set(ws, rule, n) =~= matched_set(ws, rule, n - 1));
        }
    }
}

/// Window `j` has at least one more window before it than window `i` has
/// when `i` matches and comes before `j`.
pub proof fn lemma_rank_grows(ws: Seq<Window>, rule: MatchRule, i: int, j: int, n: int)
    requires
        0 <= i < ws.len(),
        0 <= j < ws.len(),
        rule_matches(rule, ws[i]),
        ranked_before(ws, i, j),
        n <= ws.len(),
    ensures
        rank_upto(ws, rule, j, n) >= rank_upto(ws, rule, i, n) + if 0 <= i < n {
            1int
        } else {
            0int
        },
    decreases n,
{
    if n > 0 {
        lemma_rank_grows(ws, rule, i, j, n - 1);
    }
}

/// Two different matching windows have different ranks, ordered as the
/// windows are.
pub proof fn lemma_rank_injective(ws: Seq<Window>, rule: MatchRule, i: int, j: int)
    requires
        0 <= i < ws.len(),
        0 <= j < ws.len(),
        rule_matches(rule, ws[i]),
        rule_matches(rule, ws[j]),
        i != j,
    ensures
        rank(ws, rule, i) != rank(ws, rule, j),
        rank(ws, rule, i) < rank(ws, rule, j) <==> ranked_before(ws, i, j),
{
    if ranked_before(ws, i, j) {
        lemma_rank_grows(ws, rule, i, j, ws.len() as int);
    } else {
        assert(ranked_before(ws, j, i));
        lemma_rank_grows(ws, rule, j, i, ws.len() as int);
    }
}

proof fn lemma_rank_below_count_upto(ws: Seq<Window>, rule: MatchRule, i: int, n: int)
    requires
        0 <= i < ws.len(),
        rule_matches(rule, ws[i]),
        n <= ws.len(),
    ensures
        rank_upto(ws, rule, i, n) + (if 0 <= i < n {
            1int
        } else {
            0int
        }) <= match_count_upto(ws, rule, n),
    decreases n,
{
    if n > 0 {
        lemma_rank_below_count_upto(ws, rule, i, n - 1);
    }
}

/// A matching window's rank is below the number of matching windows.
pub proof fn lemma_rank_below_count(ws: Seq<Window>, rule: MatchRule, i: int)
    requires
        0 <= i < ws.len(),
        rule_matches(rule, ws[i]),
    ensures
        rank(ws, rule, i) < match_count(ws, rule),
{
    lemma_rank_below_count_upto(ws, rule, i, ws.len() as int);
}

/// Every position of the match list is the rank of some matching window.
pub proof fn lemma_rank_onto(ws: Seq<Window>, rule: MatchRule, p: int)
    requires
        0 <= p < match_count(ws, rule),
    ensures
        exists|i: int| 0 <= i < ws.len() && rule_matches(rule, ws[i]) && #[trigger] rank(ws, rule, i) == p,
{
    let n = ws.len() as int;
    let m = match_count(ws, rule) as int;
    let s = matched_set(ws, rule, n);
    let f = |i: int| rank(ws, rule, i) as int;
    lemma_matched_set_len(ws, rule, n);
    assert(vstd::relations::injective_on(f, s)) by {
        assert forall|x: int, y: int| s.contains(x) && s.contains(y) && #[trigger] f(x) == #[trigger] f(y) implies x == y by {
            if x != y {
                lemma_rank_injective(ws, rule, x, y);
            }
        }
    }
    lemma_map_size(s, s.map(f), f);
    lemma_int_range(0, m);
    assert(s.map(f).subset_of(set_int_range(0, m))) by {
        assert forall|y: int| s.map(f).contains(y) implies set_int_range(0, m).contains(y) by {
            let x = choose|x: int| s.contains(x) && f(x) == y;
            lemma_rank_below_count(ws, rule, x);
        }
    }
    lemma_subset_equality(s.map(f), set_int_range(0, m));
    assert(set_int_range(0, m).contains(p));
    assert(s.map(f).contains(p));
    let x = choose|x: int| s.contains(x) && f(x) == p;
    assert(0 <= x < ws.len() && rule_matches(rule, ws[x]) && rank(ws, rule, x) == p);
}

/// What a rule selects from its match list is what `rule_selects` says.
pub proof fn lemma_list_selection(ws: Seq<Window>, rule: MatchRule, ids: Seq<u64>, id: u64)
    requires
        is_match_list(ws, rule, ids),
    ensures
        list_selection(rule.index, ids).contains(id) <==> exists|i: int|
            0 <= i < ws.len() && #[trigger] rule_selects(ws, rule, i) && ws[i].id == id,
{
    let sel = list_selection(rule.index, ids);
    if sel.contains(id) {
        let k = choose|k: int| 0 <= k < sel.len() && sel[k] == id;
        let p = match rule.index {
            None => k,
            Some(q) => q as int,
        };
        assert(ids[p] == id);
        lemma_rank_onto(ws, rule, p);
        let i = choose|i: int| 0 <= i < ws.len() && rule_matches(rule, ws[i]) && #[trigger] rank(ws, rule, i) == p;
        assert(rule_selects(ws, rule, i) && ws[i].id == id);
    }
    if exists|i: int| 0 <= i < ws.len() && #[trigger] rule_selects(ws, rule, i) && ws[i].id == id {
        let i = choose|i: int| 0 <= i < ws.len() && #[trigger] rule_selects(ws, rule, i) && ws[i].id == id;
        lemma_rank_below_count(ws, rule, i);
        let p = rank(ws, rule, i) as int;
        assert(ids[p] == id);
        match rule.index {
            None => assert(sel[p] == id),
            Some(q) => assert(sel[0] == id),
        }
    }
}

fn field_is_match(pattern: &Option<Regex>, field: &Option<String>) -> (r: bool)
    ensures
        r == field_matches(*pattern, *field),
{
    match pattern {
        None => true,
        Some(p) => match field {
            None => false,
            Some(f) => p.is_match(f.as_str()),
        },
    }
}

/// Whether `window` satisfies `rule`: each pattern the rule has must be found
/// in the corresponding field, which must be present.
pub fn is_window_match_rule(window: &Window, rule: &MatchRule) -> (r: bool)
    ensures
        r == rule_matches(*rule, *window),
{
    field_is_match(&rule.app_id, &window.app_id) && field_is_match(&rule.title, &window.title)
}

fn pid_precedes(a: Option<i32>, b: Option<i32>) -> (r: bool)
    ensures
        r == pid_before(a, b),
{
    match (a, b) {
        (None, Some(_)) => true,
        (Some(x), Some(y)) => x < y,
        _ => false,
    }
}

/// For each window, whether it matches `rule`.
fn matched_flags(windows: &Vec<Window>, rule: &MatchRule) -> (flags: Vec<bool>)
    ensures
        flags.len() == windows.len(),
        forall|i: int| 0 <= i < windows.len() ==> flags[i] == rule_matches(*rule, windows@[i]),
{
    let mut flags: Vec<bool> = Vec::new();
    let mut i: usize = 0;
    while i < windows.len()
        invariant
            i <= windows.len(),
            flags.len() == i,
            forall|j: int| 0 <= j < i ==> flags[j] == rule_matches(*rule, windows@[j]),
        decreases windows.len() - i,
    {
        flags.push(is_window_match_rule(&windows[i], rule));
        i = i + 1;
    }
    flags
}

/// The position of window `i` in the pid-ordered match list of `rule`.
fn rank_of(windows: &Vec<Window>, rule: &MatchRule, flags: &Vec<bool>, i: usize) -> (r: usize)
    requires
        i < windows.len(),
        flags.len() == windows.len(),
        forall|j: int| 0 <= j < windows.len() ==> flags[j] == rule_matches(*rule, windows@[j]),
    ensures
        r == rank(windows@, *rule, i as int),
{
    let mut count: usize = 0;
    let mut j: usize = 0;
    while j < windows.len()
        invariant
            i < windows.len(),
            j <= windows.len(),
            flags.len() == windows.len(),
            forall|k: int| 0 <= k < windows.len() ==> flags[k] == rule_matches(*rule, windows@[k]),
            count == rank_upto(windows@, *rule, i as int, j as int),
        decreases windows.len() - j,
    {
        proof {
            lemma_rank_upto_bounded(windows@, *rule, i as int, j as int);
        }
        if flags[j] && (pid_precedes(windows[j].pid, windows[i].pid) || (windows[j].pid
            == windows[i].pid && j < i)) {
            count = count + 1;
        }
        j = j + 1;
    }
    count
}

/// The match list of `rule`: the ids of the windows that match it, ordered
/// by pid and, among equal pids, by snapshot position.
pub fn match_list(windows: &Vec<Window>, rule: &MatchRule) -> (ids: Vec<u64>)
    ensures
        is_match_list(windows@, *rule, ids@),
{
    let flags = matched_flags(windows, rule);
    let mut m: usize = 0;
    let mut i: usize = 0;
    while i < windows.len()
        invariant
            i <= windows.len(),
            m <= i,
            flags.len() == windows.len(),
            forall|k: int| 0 <= k < windows.len() ==> flags[k] == rule_matches(*rule, windows@[k]),
            m == match_count_upto(windows@, *rule, i as int),
        decreases windows.len() - i,
    {
        if flags[i] {
            m = m + 1;
        }
        i = i + 1;
    }
    let mut ids: Vec<u64> = Vec::new();
    while ids.len() < m
        invariant
            ids.len() <= m,
        decreases m - ids.len(),
    {
        ids.push(0);
    }
    let mut i: usize = 0;
    while i < windows.len()
        invariant
            i <= windows.len(),
            flags.len() == windows.len(),
            forall|k: int| 0 <= k < windows.len() ==> flags[k] == rule_matches(*rule, windows@[k]),
            m == match_count(windows@, *rule),
            ids.len() == m,
            forall|j: int|
                0 <= j < i && rule_matches(*rule, windows@[j]) ==> ids@[#[trigger] rank(
                    windows@,
                    *rule,
                    j,
                ) as int] == windows@[j].id,
        decreases windows.len() - i,
    {
        if flags[i] {
            let r = rank_of(windows, rule, &flags, i);
            proof {
                lemma_rank_below_count(windows@, *rule, i as int);
            }
            let ghost before = ids@;
            ids.set(r, windows[i].id);
            proof {
                assert forall|j: int|
                    0 <= j < i + 1 && rule_matches(*rule, windows@[j]) implies ids@[#[trigger] rank(
                    windows@,
                    *rule,
                    j,
                ) as int] == windows@[j].id by {
                    lemma_rank_below_count(windows@, *rule, j);
                    if j != i {
                        lemma_rank_injective(windows@, *rule, j, i as int);
                        assert(before[rank(windows@, *rule, j) as int] == windows@[j].id);
                    }
                }
            }
        }
        i = i + 1;
    }
    ids
}

/// For each rule in order, its index paired with its match list.
pub fn match_windows_with_rules(windows: &Vec<Window>, rules: &Vec<MatchRule>) -> (mappings: Vec<
    (Option<usize>, Vec<u64>),
>)
    ensures
        mappings.len() == rules.len(),
        forall|r: int|
            0 <= r < rules.len() ==> (#[trigger] mappings[r]).0 == rules@[r].index && is_match_list(
                windows@,
                rules@[r],
                mappings[r].1@,
            ),
{
    let mut mappings: Vec<(Option<usize>, Vec<u64>)> = Vec::new();
    let mut r: usize = 0;
    while r < rules.len()
        invariant
            r <= rules.len(),
            mappings.len() == r,
            forall|q: int|
                0 <= q < r ==> (#[trigger] mappings[q]).0 == rules@[q].index && is_match_list(
                    windows@,
                    rules@[q],
                    mappings[q].1@,
                ),
        decreases rules.len() - r,
    {
        mappings.push((rules[r].index, match_list(windows, &rules[r])));
        r = r + 1;
    }
    mappings
}

} // verus!
