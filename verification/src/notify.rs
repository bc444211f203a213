//! Finding the windows that a notification belongs to.

use crate::layout::filter_positions;
use crate::text::{last_component, last_part, lowercase, tail, tail_is_last_part};
use crate::window::{last_window_of_pid_counts, windows_by_pid, PidWindowMap, Window};
use std::collections::BTreeSet;
use vstd::prelude::*;

verus! {

broadcast use vstd::std_specs::btree::group_btree_axioms;

/// What is known of a notification.
#[derive(Debug, PartialEq, Eq)]
pub struct Notification {
    /// The process that sent it.
    pub pid: Option<i64>,
    /// The desktop entry that it names.
    pub desktop_entry: Option<String>,
}

/// How well an application id matches the one that is looked for.
#[derive(Clone, Copy, Debug, PartialEq, Eq, Structural)]
pub enum MatchKind {
    Exact,
    Fuzzy,
    Miss,
}

/// An application id with its lowercase form and that of its last component.
#[derive(Debug, PartialEq, Eq)]
pub struct AppId {
    pub id: String,
    pub lower: String,
    pub tail_lower: String,
}

impl AppId {
    /// The forms are those of the id.
    pub open spec fn well_formed(self) -> bool {
        &&& self.lower@ == lowercase(self.id@)
        &&& self.tail_lower@ == lowercase(tail(self.id@))
    }

    /// `id` with its lowercase forms.
    pub fn new(id: &String) -> (r: Self)
        ensures
            r.id@ == id@,
            r.lower@ == lowercase(id@),
            r.tail_lower@ == lowercase(tail(id@)),
            r.well_formed(),
    {
        AppId {
            id: id.clone(),
            lower: id.as_str().to_lowercase(),
            tail_lower: last_component(id.as_str()).to_lowercase(),
        }
    }
}

/// How well `app_id` matches `wanted`. A match is fuzzy if the ids agree in
/// lowercase, or if their last components do.
pub open spec fn match_kind(
    app_id: Seq<char>,
    wanted: Seq<char>,
    use_fuzzy: bool,
    ids_agree: bool,
    tails_agree: bool,
) -> MatchKind {
    if app_id == wanted {
        MatchKind::Exact
    } else if use_fuzzy && (ids_agree || tails_agree) {
        MatchKind::Fuzzy
    } else {
        MatchKind::Miss
    }
}

/// How well the application id of `w` matches `wanted`.
pub open spec fn window_match(w: Window, wanted: Seq<char>, use_fuzzy: bool) -> MatchKind {
    match w.app_id {
        None => MatchKind::Miss,
        Some(app_id) => match_kind(
            app_id@,
            wanted,
            use_fuzzy,
            lowercase(app_id@) == lowercase(wanted),
            lowercase(tail(app_id@)) == lowercase(tail(wanted)),
        ),
    }
}

/// The windows by id, each with how well it matches `wanted`.
pub open spec fn graded(windows: Seq<Window>, wanted: Seq<char>, use_fuzzy: bool) -> Seq<
    (u64, MatchKind),
> {
    windows.map_values(|w: Window| (w.id, window_match(w, wanted, use_fuzzy)))
}

/// Whether a candidate is of that kind and has a button.
pub open spec fn is_kind(kind: MatchKind, buttons: Set<u64>) -> spec_fn((u64, MatchKind)) -> bool {
    |c: (u64, MatchKind)| c.1 == kind && buttons.contains(c.0)
}

/// The ids of that kind that have a button, in order.
pub open spec fn of_kind(
    candidates: Seq<(u64, MatchKind)>,
    kind: MatchKind,
    buttons: Set<u64>,
) -> Seq<u64> {
    candidates.filter(is_kind(kind, buttons)).map_values(|c: (u64, MatchKind)| c.0)
}

/// The ids to mark: the exact matches that have a button or, where there is
/// none, the fuzzy ones.
pub open spec fn selected(candidates: Seq<(u64, MatchKind)>, buttons: Set<u64>) -> Seq<u64> {
    let exact = of_kind(candidates, MatchKind::Exact, buttons);
    if exact.len() > 0 {
        exact
    } else {
        of_kind(candidates, MatchKind::Fuzzy, buttons)
    }
}

/// The id to mark for a process: that of its window, unless the window is
/// focused already or has no button.
pub open spec fn urgent_for_pid(windows: Seq<Window>, buttons: Set<u64>, pid: i64) -> Option<u64> {
    let by_pid = windows_by_pid(windows);
    if by_pid.contains_key(pid) && !by_pid[pid].is_focused && buttons.contains(by_pid[pid].id) {
        Some(by_pid[pid].id)
    } else {
        None
    }
}

/// The id to mark for a process.
pub fn find_by_pid(windows: &Vec<Window>, buttons: &BTreeSet<u64>, pid: i64) -> (r: Option<u64>)
    ensures
        r == urgent_for_pid(windows@, buttons@, pid),
{
    let pids = PidWindowMap::new(windows);
    match pids.get(pid) {
        Some(window) => if !window.is_focused && buttons.contains(&window.id) {
            Some(window.id)
        } else {
            None
        },
        None => None,
    }
}

/// How well `app_id` matches `wanted`, going by the forms that come with them.
pub fn classify(app_id: &AppId, wanted: &AppId, use_fuzzy: bool) -> (r: MatchKind)
    ensures
        r == match_kind(
            app_id.id@,
            wanted.id@,
            use_fuzzy,
            app_id.lower@ == wanted.lower@,
            app_id.tail_lower@ == wanted.tail_lower@,
        ),
{
    if app_id.id == wanted.id {
        MatchKind::Exact
    } else if use_fuzzy && (app_id.lower == wanted.lower || app_id.tail_lower
        == wanted.tail_lower) {
        MatchKind::Fuzzy
    } else {
        MatchKind::Miss
    }
}

/// The windows by id, each with how well it matches `wanted`.
pub fn grade(windows: &Vec<Window>, wanted: &String, use_fuzzy: bool) -> (r: Vec<(u64, MatchKind)>)
    ensures
        r@ == graded(windows@, wanted@, use_fuzzy),
{
    let sought = AppId::new(wanted);
    let mut r: Vec<(u64, MatchKind)> = Vec::new();
    let mut i: usize = 0;
    while i < windows.len()
        invariant
            i <= windows@.len(),
            sought.id@ == wanted@,
            sought.well_formed(),
            r@ == graded(windows@, wanted@, use_fuzzy).take(i as int),
        decreases windows@.len() - i,
    {
        let kind = match &windows[i].app_id {
            None => MatchKind::Miss,
            Some(app_id) => classify(&AppId::new(app_id), &sought, use_fuzzy),
        };
        r.push((windows[i].id, kind));
        assert(r@ =~= graded(windows@, wanted@, use_fuzzy).take(i + 1));
        i = i + 1;
    }
    assert(graded(windows@, wanted@, use_fuzzy).take(i as int) =~= graded(
        windows@,
        wanted@,
        use_fuzzy,
    ));
    r
}

proof fn of_kind_push(
    candidates: Seq<(u64, MatchKind)>,
    c: (u64, MatchKind),
    kind: MatchKind,
    buttons: Set<u64>,
)
    ensures
        of_kind(candidates.push(c), kind, buttons) == (if c.1 == kind && buttons.contains(c.0) {
            of_kind(candidates, kind, buttons).push(c.0)
        } else {
            of_kind(candidates, kind, buttons)
        }),
{
    reveal(Seq::filter);
    assert(candidates.push(c).drop_last() =~= candidates);
    assert(of_kind(candidates.push(c), kind, buttons) =~= (if c.1 == kind && buttons.contains(c.0) {
        of_kind(candidates, kind, buttons).push(c.0)
    } else {
        of_kind(candidates, kind, buttons)
    }));
}

/// The ids to mark.
pub fn select(candidates: &Vec<(u64, MatchKind)>, buttons: &BTreeSet<u64>) -> (r: Vec<u64>)
    ensures
        r@ == selected(candidates@, buttons@),
{
    let mut exact: Vec<u64> = Vec::new();
    let mut fuzzy: Vec<u64> = Vec::new();
    let mut i: usize = 0;
    proof {
        reveal(Seq::filter);
        assert(of_kind(candidates@.take(0), MatchKind::Exact, buttons@) =~= exact@);
        assert(of_kind(candidates@.take(0), MatchKind::Fuzzy, buttons@) =~= fuzzy@);
    }
    while i < candidates.len()
        invariant
            i <= candidates@.len(),
            exact@ == of_kind(candidates@.take(i as int), MatchKind::Exact, buttons@),
            fuzzy@ == of_kind(candidates@.take(i as int), MatchKind::Fuzzy, buttons@),
        decreases candidates@.len() - i,
    {
        let (id, kind): (u64, MatchKind) = candidates[i];
        proof {
            let before = candidates@.take(i as int);
            assert(candidates@.take(i + 1) =~= before.push(candidates@[i as int]));
            of_kind_push(before, candidates@[i as int], MatchKind::Exact, buttons@);
            of_kind_push(before, candidates@[i as int], MatchKind::Fuzzy, buttons@);
        }
        if buttons.contains(&id) {
            match kind {
                MatchKind::Exact => exact.push(id),
                MatchKind::Fuzzy => fuzzy.push(id),
                MatchKind::Miss => {},
            }
        }
        i = i + 1;
    }
    assert(candidates@.take(i as int) =~= candidates@);
    if exact.len() > 0 {
        exact
    } else {
        fuzzy
    }
}

proof fn of_kind_members(
    candidates: Seq<(u64, MatchKind)>,
    kind: MatchKind,
    buttons: Set<u64>,
    id: u64,
)
    ensures
        of_kind(candidates, kind, buttons).contains(id) <==> buttons.contains(id)
            && candidates.contains((id, kind)),
    decreases candidates.len(),
{
    if candidates.len() == 0 {
        reveal(Seq::filter);
    } else {
        let before = candidates.drop_last();
        let c = candidates.last();
        of_kind_members(before, kind, buttons, id);
        of_kind_push(before, c, kind, buttons);
        assert(candidates =~= before.push(c));
        let x = (id, kind);
        if candidates.contains(x) && c != x {
            let k = candidates.index_of(x);
            assert(before[k] == x);
        }
        if before.contains(x) {
            assert(candidates[before.index_of(x)] == x);
        }
        let kept = of_kind(before, kind, buttons);
        let last = kept.push(c.0);
        assert(last[kept.len() as int] == c.0);
        if kept.contains(id) {
            assert(last[kept.index_of(id)] == id);
        }
        if last.contains(id) && c.0 != id {
            assert(kept[last.index_of(id)] == id);
        }
        if c == x {
            assert(candidates[candidates.len() - 1] == x);
        }
    }
}

/// Only windows with a button are marked. An exact match that has one is always
/// marked, and a fuzzy match only where no exact match has a button.
pub proof fn exact_matches_come_first(
    candidates: Seq<(u64, MatchKind)>,
    buttons: Set<u64>,
    id: u64,
)
    ensures
        selected(candidates, buttons).contains(id) <==> buttons.contains(id) && (
        candidates.contains((id, MatchKind::Exact)) || (candidates.contains((id, MatchKind::Fuzzy))
            && forall|other: u64|
            buttons.contains(other) ==> !(#[trigger] candidates.contains(
                (other, MatchKind::Exact),
            )))),
{
    let exact = of_kind(candidates, MatchKind::Exact, buttons);
    of_kind_members(candidates, MatchKind::Exact, buttons, id);
    of_kind_members(candidates, MatchKind::Fuzzy, buttons, id);
    assert forall|other: u64| exact.len() == 0 && buttons.contains(other) implies !(
    #[trigger] candidates.contains((other, MatchKind::Exact))) by {
        of_kind_members(candidates, MatchKind::Exact, buttons, other);
    }
    if exact.len() > 0 {
        of_kind_members(candidates, MatchKind::Exact, buttons, exact[0]);
        assert(exact.contains(exact[0]));
        assert(candidates.contains((exact[0], MatchKind::Exact)));
    }
}

/// Some window with that id matches `wanted` in that way.
pub open spec fn matches_as(
    windows: Seq<Window>,
    wanted: Seq<char>,
    use_fuzzy: bool,
    kind: MatchKind,
    id: u64,
) -> bool {
    exists|i: int|
        0 <= i < windows.len() && (#[trigger] windows[i]).id == id && window_match(
            windows[i],
            wanted,
            use_fuzzy,
        ) == kind
}

proof fn graded_members(
    windows: Seq<Window>,
    wanted: Seq<char>,
    use_fuzzy: bool,
    kind: MatchKind,
    id: u64,
)
    ensures
        graded(windows, wanted, use_fuzzy).contains((id, kind)) <==> matches_as(
            windows,
            wanted,
            use_fuzzy,
            kind,
            id,
        ),
{
    let candidates = graded(windows, wanted, use_fuzzy);
    if candidates.contains((id, kind)) {
        let k = candidates.index_of((id, kind));
        assert(windows[k].id == id);
    }
    if matches_as(windows, wanted, use_fuzzy, kind, id) {
        let k = choose|i: int|
            0 <= i < windows.len() && (#[trigger] windows[i]).id == id && window_match(
                windows[i],
                wanted,
                use_fuzzy,
            ) == kind;
        assert(candidates[k] == (id, kind));
    }
}

/// A window is marked for an application id exactly where it has a button and
/// its own id is equal, or where it has a button and its own id matches fuzzily
/// while no window with an equal id has a button.
pub proof fn matching_windows_are_marked(
    windows: Seq<Window>,
    wanted: Seq<char>,
    use_fuzzy: bool,
    buttons: Set<u64>,
    id: u64,
)
    ensures
        selected(graded(windows, wanted, use_fuzzy), buttons).contains(id) <==> buttons.contains(id)
            && (matches_as(windows, wanted, use_fuzzy, MatchKind::Exact, id) || (matches_as(
            windows,
            wanted,
            use_fuzzy,
            MatchKind::Fuzzy,
            id,
        ) && forall|other: u64|
            buttons.contains(other) ==> !(#[trigger] matches_as(
                windows,
                wanted,
                use_fuzzy,
                MatchKind::Exact,
                other,
            )))),
{
    let candidates = graded(windows, wanted, use_fuzzy);
    exact_matches_come_first(candidates, buttons, id);
    graded_members(windows, wanted, use_fuzzy, MatchKind::Fuzzy, id);
    assert forall|other: u64|
        #![trigger candidates.contains((other, MatchKind::Exact))]
        #![trigger matches_as(windows, wanted, use_fuzzy, MatchKind::Exact, other)]
        candidates.contains((other, MatchKind::Exact)) == matches_as(
            windows,
            wanted,
            use_fuzzy,
            MatchKind::Exact,
            other,
        ) by {
        graded_members(windows, wanted, use_fuzzy, MatchKind::Exact, other);
    }
}

/// Without fuzzy matching no window matches but one whose application id is the
/// one that is looked for.
pub proof fn without_fuzzy_ids_must_be_equal(windows: Seq<Window>, wanted: Seq<char>, id: u64)
    ensures
        !matches_as(windows, wanted, false, MatchKind::Fuzzy, id),
        matches_as(windows, wanted, false, MatchKind::Exact, id) <==> exists|i: int|
            0 <= i < windows.len() && (#[trigger] windows[i]).id == id && windows[i].app_id is Some
                && windows[i].app_id->0@ == wanted,
{
}

/// A window is marked for a process only if it has a button, is not focused,
/// and belongs to that process.
pub proof fn focused_windows_are_left_alone(windows: Seq<Window>, buttons: Set<u64>, pid: i64)
    ensures
        urgent_for_pid(windows, buttons, pid) matches Some(id) ==> buttons.contains(id) && exists|
            i: int,
        |
            0 <= i < windows.len() && (#[trigger] windows[i]).id == id && !windows[i].is_focused
                && windows[i].pid is Some && windows[i].pid->0 as i64 == pid,
{
    last_window_of_pid_counts(windows, pid);
}

/// A window is marked for a process exactly where it is the last one to name
/// that process, is not focused and has a button. Nothing else about it or about
/// other windows matters.
pub proof fn unfocused_window_of_process_is_marked(
    windows: Seq<Window>,
    buttons: Set<u64>,
    pid: i64,
    i: int,
)
    ensures
        0 <= i < windows.len() && windows[i].pid is Some && windows[i].pid->0 == pid && (forall|
            j: int,
        |
            i < j < windows.len() && (#[trigger] windows[j]).pid is Some ==> windows[j].pid->0
                != pid) ==> urgent_for_pid(windows, buttons, pid) == (if !windows[i].is_focused
            && buttons.contains(windows[i].id) {
            Some(windows[i].id)
        } else {
            None
        }),
        (forall|j: int|
            0 <= j < windows.len() && (#[trigger] windows[j]).pid is Some ==> windows[j].pid->0
                != pid) ==> urgent_for_pid(windows, buttons, pid) is None,
{
    last_window_of_pid_counts(windows, pid);
    if windows_by_pid(windows).contains_key(pid) {
        let k = choose|k: int|
            0 <= k < windows.len() && (#[trigger] windows[k]) == windows_by_pid(windows)[pid]
                && windows[k].pid is Some && windows[k].pid->0 as i64 == pid && forall|j: int|
                k < j < windows.len() && (#[trigger] windows[j]).pid is Some
                    ==> windows[j].pid->0 as i64 != pid;
        assert(windows[k].pid is Some);
    } else if 0 <= i < windows.len() {
        assert(!(windows[i].pid is Some && windows[i].pid->0 as i64 == pid));
    }
}

/// Equal ids match exactly. Ids that differ match fuzzily exactly where fuzzy
/// matching is on and they, or their last components, agree.
pub proof fn match_is_by_ids_or_last_components(
    app_id: Seq<char>,
    wanted: Seq<char>,
    use_fuzzy: bool,
    ids_agree: bool,
    tails_agree: bool,
)
    ensures
        ({
            let kind = match_kind(app_id, wanted, use_fuzzy, ids_agree, tails_agree);
            &&& kind == MatchKind::Exact <==> app_id == wanted
            &&& kind == MatchKind::Fuzzy <==> app_id != wanted && use_fuzzy && (ids_agree
                || tails_agree)
        }),
{
}

/// How a window matches an application id, where `c` and `d` are what stands
/// behind the last dots of the two ids: exactly if the ids are equal, fuzzily
/// if they differ, fuzzy matching is on, and the ids or `c` and `d` agree in
/// lowercase, and else not at all. A window without an application id matches
/// nothing.
pub proof fn ids_match_by_lowercase_and_last_part(
    w: Window,
    wanted: Seq<char>,
    use_fuzzy: bool,
    c: Seq<char>,
    d: Seq<char>,
)
    requires
        w.app_id matches Some(app_id) ==> last_part(app_id@, c),
        last_part(wanted, d),
    ensures
        w.app_id is None ==> window_match(w, wanted, use_fuzzy) == MatchKind::Miss,
        w.app_id matches Some(app_id) ==> {
            let kind = window_match(w, wanted, use_fuzzy);
            let agree = lowercase(app_id@) == lowercase(wanted) || lowercase(c) == lowercase(d);
            &&& app_id@ == wanted ==> kind == MatchKind::Exact
            &&& app_id@ != wanted && use_fuzzy && agree ==> kind == MatchKind::Fuzzy
            &&& app_id@ != wanted && !(use_fuzzy && agree) ==> kind == MatchKind::Miss
        },
{
    tail_is_last_part(wanted, d);
    if let Some(app_id) = w.app_id {
        tail_is_last_part(app_id@, c);
    }
}

/// Two ids that end in `.c` and `.d`, without a further dot, and differ match
/// fuzzily if `c` and `d` agree in lowercase, whatever stands before the dots.
pub proof fn dotted_ids_match_by_what_follows_the_last_dot(
    w: Window,
    wanted: Seq<char>,
    a: Seq<char>,
    b: Seq<char>,
    c: Seq<char>,
    d: Seq<char>,
)
    requires
        w.app_id is Some,
        w.app_id->0@ == a + seq!['.'] + c,
        wanted == b + seq!['.'] + d,
        forall|i: int| 0 <= i < c.len() ==> c[i] != '.',
        forall|i: int| 0 <= i < d.len() ==> d[i] != '.',
        lowercase(c) == lowercase(d),
        w.app_id->0@ != wanted,
    ensures
        window_match(w, wanted, true) == MatchKind::Fuzzy,
        window_match(w, wanted, false) == MatchKind::Miss,
{
    assert(last_part(w.app_id->0@, c));
    assert(last_part(wanted, d));
    ids_match_by_lowercase_and_last_part(w, wanted, true, c, d);
    ids_match_by_lowercase_and_last_part(w, wanted, false, c, d);
}

/// Each window is graded, in order, under its own id and by itself alone: with
/// other windows around it its grade is the same.
pub proof fn windows_are_graded_one_by_one(
    windows: Seq<Window>,
    wanted: Seq<char>,
    use_fuzzy: bool,
    i: int,
)
    requires
        0 <= i < windows.len(),
    ensures
        graded(windows, wanted, use_fuzzy).len() == windows.len(),
        graded(windows, wanted, use_fuzzy)[i].0 == windows[i].id,
        graded(windows, wanted, use_fuzzy)[i] == graded(seq![windows[i]], wanted, use_fuzzy)[0],
        graded(windows, wanted, use_fuzzy)[i].1 == window_match(windows[i], wanted, use_fuzzy),
{
}

proof fn of_kind_positions(
    candidates: Seq<(u64, MatchKind)>,
    kind: MatchKind,
    buttons: Set<u64>,
) -> (at: Seq<int>)
    ensures
        at.len() == of_kind(candidates, kind, buttons).len(),
        forall|j: int, k: int| 0 <= j < k < at.len() ==> at[j] < at[k],
        forall|k: int|
            0 <= k < at.len() ==> 0 <= #[trigger] at[k] < candidates.len() && of_kind(
                candidates,
                kind,
                buttons,
            )[k] == candidates[at[k]].0,
        forall|i: int| #[trigger]
            at.contains(i) <==> 0 <= i < candidates.len() && candidates[i].1 == kind
                && buttons.contains(candidates[i].0),
{
    filter_positions(candidates, is_kind(kind, buttons))
}

/// The marked ids are those of candidates in their order: those at the positions
/// `at`. A position is among them exactly where its candidate has a button and
/// matches exactly or, if no exact match has a button, fuzzily.
pub proof fn marks_keep_the_order_of_candidates(
    candidates: Seq<(u64, MatchKind)>,
    buttons: Set<u64>,
) -> (at: Seq<int>)
    ensures
        at.len() == selected(candidates, buttons).len(),
        forall|j: int, k: int| 0 <= j < k < at.len() ==> at[j] < at[k],
        forall|k: int|
            0 <= k < at.len() ==> 0 <= #[trigger] at[k] < candidates.len() && selected(
                candidates,
                buttons,
            )[k] == candidates[at[k]].0,
        forall|i: int| #[trigger]
            at.contains(i) <==> 0 <= i < candidates.len() && buttons.contains(candidates[i].0)
                && candidates[i].1 == (if exists|j: int|
                0 <= j < candidates.len() && (#[trigger] candidates[j]).1 == MatchKind::Exact
                    && buttons.contains(candidates[j].0) {
                MatchKind::Exact
            } else {
                MatchKind::Fuzzy
            }),
{
    let exact_at = of_kind_positions(candidates, MatchKind::Exact, buttons);
    let fuzzy_at = of_kind_positions(candidates, MatchKind::Fuzzy, buttons);
    if exact_at.len() > 0 {
        let k = exact_at[0];
        assert(exact_at.contains(k));
        assert(candidates[k].1 == MatchKind::Exact);
        exact_at
    } else {
        assert forall|j: int|
            0 <= j < candidates.len() && (#[trigger] candidates[j]).1
                == MatchKind::Exact implies !buttons.contains(candidates[j].0) by {
            assert(!exact_at.contains(j));
        }
        fuzzy_at
    }
}

} // verus!
