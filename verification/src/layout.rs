//! What a snapshot of the windows does to a bar: which windows are visible,
//! which buttons have to be made, updated and dropped, and in what order the
//! bar holds them.

use crate::output::Filter;
use crate::window::Window;
use std::collections::BTreeSet;
use vstd::prelude::*;
use vstd::std_specs::cmp::OrdSpec;
use vstd::std_specs::iter::IteratorSpec;

verus! {

broadcast use vstd::std_specs::btree::group_btree_axioms;

/// A widget of the bar, by what it stands for.
#[derive(Clone, Copy, Debug, PartialEq, Eq, Structural)]
pub enum Widget {
    /// The label of a workspace.
    Workspace(u64),
    /// The button of a window.
    Window(u64),
}

/// A change to the widgets of the bar.
#[derive(Debug, PartialEq, Eq)]
pub enum Update {
    /// Make a label for the workspace.
    AddWorkspace(u64),
    /// Make a button for the window.
    AddWindow(Window),
    /// Show the button of the window with that id as focused, or not.
    SetFocus(u64, bool),
    /// Give the button of the window with that id a title.
    SetTitle(u64, Option<String>),
}

/// Whether `filter` shows a window.
pub open spec fn on_output(filter: Filter) -> spec_fn(Window) -> bool {
    |w: Window| filter.shows(w.output_name())
}

/// Whether a window is on the workspace.
pub open spec fn on_workspace(idx: u64) -> spec_fn(Window) -> bool {
    |w: Window| w.workspace_idx == idx
}

/// The windows of a snapshot that the bar shows: those that `filter` shows
/// and, where the bar follows the active workspace and has one output, those
/// on the active workspace of that output. `active` is that workspace, if it
/// is known.
pub open spec fn visible(
    windows: Seq<Window>,
    filter: Filter,
    by_workspace: bool,
    active: Option<u8>,
) -> Seq<Window> {
    let shown = windows.filter(on_output(filter));
    if by_workspace && filter is Only && active is Some {
        shown.filter(on_workspace(active->0 as u64))
    } else {
        shown
    }
}

/// The ids of `windows`.
pub open spec fn ids(windows: Seq<Window>) -> Set<u64> {
    windows.map_values(|w: Window| w.id).to_set()
}

/// The workspaces of `windows`.
pub open spec fn workspaces(windows: Seq<Window>) -> Set<u64> {
    windows.map_values(|w: Window| w.workspace_idx).to_set()
}

/// The workspaces that have a label while `windows` are shown.
pub open spec fn labels(windows: Seq<Window>, labelled: bool) -> Set<u64> {
    if labelled {
        workspaces(windows)
    } else {
        Set::empty()
    }
}

/// What showing `w` changes, where the windows in `buttons` have a button and
/// the workspaces in `labels` have a label.
pub open spec fn update(
    w: Window,
    labelled: bool,
    buttons: Set<u64>,
    labels: Set<u64>,
) -> Seq<Update> {
    (if labelled && !labels.contains(w.workspace_idx) {
        seq![Update::AddWorkspace(w.workspace_idx)]
    } else {
        Seq::empty()
    }) + (if !buttons.contains(w.id) {
        seq![Update::AddWindow(w)]
    } else {
        Seq::empty()
    }) + seq![Update::SetFocus(w.id, w.is_focused), Update::SetTitle(w.id, w.title)]
}

/// What showing `windows` one after the other changes.
pub open spec fn updates(
    windows: Seq<Window>,
    labelled: bool,
    buttons: Set<u64>,
    labels: Set<u64>,
) -> Seq<Update>
    decreases windows.len(),
{
    if windows.len() == 0 {
        Seq::empty()
    } else {
        let before = windows.drop_last();
        updates(before, labelled, buttons, labels) + update(
            windows.last(),
            labelled,
            buttons.union(ids(before)),
            labels.union(workspaces(before)),
        )
    }
}

/// The widgets of the bar in order: a button for each of `windows`, with the
/// label of its workspace before the first window of each workspace.
pub open spec fn order(windows: Seq<Window>, labelled: bool) -> Seq<Widget>
    decreases windows.len(),
{
    if windows.len() == 0 {
        Seq::empty()
    } else {
        let before = windows.drop_last();
        let w = windows.last();
        order(before, labelled) + (if labelled && !workspaces(before).contains(w.workspace_idx) {
            seq![Widget::Workspace(w.workspace_idx), Widget::Window(w.id)]
        } else {
            seq![Widget::Window(w.id)]
        })
    }
}

/// `s` lists `set` in ascending order.
pub open spec fn ascending(s: Seq<u64>, set: Set<u64>) -> bool {
    &&& forall|i: int, j: int| 0 <= i < j < s.len() ==> s[i] < s[j]
    &&& s.to_set() == set
}

pub(crate) proof fn ids_push(windows: Seq<Window>, w: Window)
    ensures
        ids(windows.push(w)) == ids(windows).insert(w.id),
        workspaces(windows.push(w)) == workspaces(windows).insert(w.workspace_idx),
{
    assert(windows.push(w).map_values(|w: Window| w.id) =~= windows.map_values(
        |w: Window| w.id,
    ).push(w.id));
    assert(windows.push(w).map_values(|w: Window| w.workspace_idx) =~= windows.map_values(
        |w: Window| w.workspace_idx,
    ).push(w.workspace_idx));
    windows.map_values(|w: Window| w.id).lemma_push_to_set_commute(w.id);
    windows.map_values(|w: Window| w.workspace_idx).lemma_push_to_set_commute(w.workspace_idx);
}

proof fn filter_push<A>(s: Seq<A>, pred: spec_fn(A) -> bool, w: A)
    ensures
        s.push(w).filter(pred) == (if pred(w) {
            s.filter(pred).push(w)
        } else {
            s.filter(pred)
        }),
{
    reveal(Seq::filter);
    assert(s.push(w).drop_last() =~= s);
}

/// The windows of a snapshot that the bar shows.
pub fn visible_windows<'a>(
    windows: &'a Vec<Window>,
    filter: &Filter,
    by_workspace: bool,
    active: Option<u8>,
) -> (r: Vec<&'a Window>)
    ensures
        r@.unref() == visible(windows@, *filter, by_workspace, active),
{
    let shown = shown_windows(windows, filter);
    if by_workspace {
        if let Filter::Only(_) = filter {
            if let Some(idx) = active {
                return windows_on_workspace(&shown, idx as u64);
            }
        }
    }
    shown
}

fn shown_windows<'a>(windows: &'a Vec<Window>, filter: &Filter) -> (r: Vec<&'a Window>)
    ensures
        r@.unref() == windows@.filter(on_output(*filter)),
{
    let mut r: Vec<&'a Window> = Vec::new();
    let mut i: usize = 0;
    proof {
        reveal(Seq::filter);
        assert(windows@.take(0).filter(on_output(*filter)) =~= r@.unref());
    }
    while i < windows.len()
        invariant
            i <= windows@.len(),
            r@.unref() == windows@.take(i as int).filter(on_output(*filter)),
        decreases windows@.len() - i,
    {
        let w: &'a Window = &windows[i];
        let ghost before = r@;
        if filter.should_show(w.output_or_default()) {
            r.push(w);
            assert(r@.unref() =~= before.unref().push(*w));
        }
        proof {
            filter_push(windows@.take(i as int), on_output(*filter), *w);
            assert(windows@.take(i + 1) =~= windows@.take(i as int).push(*w));
        }
        i = i + 1;
    }
    assert(windows@.take(i as int) =~= windows@);
    r
}

fn windows_on_workspace<'a>(windows: &Vec<&'a Window>, idx: u64) -> (r: Vec<&'a Window>)
    ensures
        r@.unref() == windows@.unref().filter(on_workspace(idx)),
{
    let mut r: Vec<&'a Window> = Vec::new();
    let mut i: usize = 0;
    let ghost all = windows@.unref();
    proof {
        reveal(Seq::filter);
        assert(all.take(0).filter(on_workspace(idx)) =~= r@.unref());
    }
    while i < windows.len()
        invariant
            all == windows@.unref(),
            i <= windows@.len(),
            r@.unref() == all.take(i as int).filter(on_workspace(idx)),
        decreases windows@.len() - i,
    {
        let w: &'a Window = windows[i];
        let ghost before = r@;
        if w.workspace_idx == idx {
            r.push(w);
            assert(r@.unref() =~= before.unref().push(*w));
        }
        proof {
            filter_push(all.take(i as int), on_workspace(idx), *w);
            assert(all.take(i + 1) =~= all.take(i as int).push(*w));
        }
        i = i + 1;
    }
    assert(all.take(i as int) =~= all);
    r
}

/// The widgets of the bar in order.
pub fn widget_order(windows: &Vec<&Window>, labelled: bool) -> (r: Vec<Widget>)
    ensures
        r@ == order(windows@.unref(), labelled),
{
    let mut r: Vec<Widget> = Vec::new();
    let mut seen: BTreeSet<u64> = BTreeSet::new();
    let mut i: usize = 0;
    let ghost all = windows@.unref();
    assert(workspaces(all.take(0)) =~= Set::empty());
    while i < windows.len()
        invariant
            all == windows@.unref(),
            i <= windows@.len(),
            r@ == order(all.take(i as int), labelled),
            seen@ == workspaces(all.take(i as int)),
        decreases windows@.len() - i,
    {
        let w: &Window = windows[i];
        proof {
            assert(all.take(i + 1) =~= all.take(i as int).push(*w));
            assert(all.take(i + 1).drop_last() =~= all.take(i as int));
            ids_push(all.take(i as int), *w);
        }
        let ghost before = r@;
        if labelled && !seen.contains(&w.workspace_idx) {
            r.push(Widget::Workspace(w.workspace_idx));
        }
        seen.insert(w.workspace_idx);
        r.push(Widget::Window(w.id));
        assert(r@ =~= order(all.take(i + 1), labelled));
        i = i + 1;
    }
    assert(all.take(i as int) =~= all);
    r
}

/// Whether the label of a workspace is shown as focused.
pub open spec fn label_focused(label: u64, active: Option<u8>) -> Option<bool> {
    match active {
        Some(idx) => Some(label == idx as u64),
        None => None,
    }
}

/// The index by which a workspace is activated.
pub open spec fn activated(label: u64) -> u8 {
    (label % 256) as u8
}

/// Whether the label of a workspace is shown as focused, where `active` is the
/// active workspace. While that is unknown the label stays as it is.
pub fn label_focus(label: u64, active: Option<u8>) -> (r: Option<bool>)
    ensures
        r == (match active {
            Some(idx) => Some(label == idx as u64),
            None => None,
        }),
        r == label_focused(label, active),
{
    match active {
        Some(idx) => Some(label == idx as u64),
        None => None,
    }
}

/// The index by which the compositor is asked to activate a workspace when its
/// label is clicked. The compositor's indices are bytes: only the lowest one
/// counts.
pub fn activation_index(label: u64) -> (r: u8)
    ensures
        r == label % 256,
        r == activated(label),
{
    assert(#[verifier::truncate] (label as u8) == label % 256) by (bit_vector);
    #[verifier::truncate]
    (label as u8)
}

/// What it means for a walk over a set of ids to be increasing.
proof fn increasing_ids(s: Seq<&u64>)
    requires
        vstd::std_specs::btree::increasing_seq(s),
    ensures
        forall|i: int, j: int| 0 <= i < j < s.len() ==> *s[i] < *s[j],
{
    broadcast use {vstd::laws_eq::group_laws_eq, vstd::laws_cmp::group_laws_cmp};

    reveal(vstd::laws_eq::obeys_eq_spec_properties);
    reveal(vstd::laws_cmp::obeys_partial_cmp_spec_properties);
    reveal(vstd::laws_cmp::obeys_cmp_partial_ord);
    reveal(vstd::laws_cmp::obeys_cmp_ord);
    assert(vstd::laws_cmp::obeys_cmp::<&u64>());
    assert forall|i: int, j: int| 0 <= i < j < s.len() implies *s[i] < *s[j] by {
        assert(OrdSpec::cmp_spec(&s[i], &s[j]) is Less);
    }
}

/// The members of `set` in ascending order.
pub fn members(set: &BTreeSet<u64>) -> (r: Vec<u64>)
    ensures
        ascending(r@, set@),
{
    let ghost all = vstd::std_specs::btree::spec_btree_keys_iter(set).remaining();
    proof {
        increasing_ids(all);
    }
    let mut r: Vec<u64> = Vec::new();
    for x in it: set.iter()
        invariant
            it.seq() == all,
            r@ == all.unref().take(it.index()),
    {
        r.push(*x);
        assert(r@ =~= all.unref().take(it.index() + 1));
    }
    assert(all.unref().take(all.len() as int) =~= all.unref());
    r
}

/// The members of `set` that are not in `kept`, in ascending order.
pub fn missing(set: &BTreeSet<u64>, kept: &BTreeSet<u64>) -> (r: Vec<u64>)
    ensures
        ascending(r@, set@.difference(kept@)),
{
    let all = members(set);
    let mut r: Vec<u64> = Vec::new();
    let mut i: usize = 0;
    while i < all.len()
        invariant
            i <= all@.len(),
            ascending(all@, set@),
            forall|a: int, b: int| 0 <= a < b < r@.len() ==> r@[a] < r@[b],
            forall|a: int, b: int| 0 <= a < r@.len() && i <= b < all@.len() ==> r@[a] < all@[b],
            forall|a: int|
                0 <= a < r@.len() ==> set@.contains(#[trigger] r@[a]) && !kept@.contains(r@[a]),
            forall|b: int|
                0 <= b < i && !kept@.contains(#[trigger] all@[b]) ==> r@.contains(all@[b]),
        decreases all@.len() - i,
    {
        let ghost before = r@;
        assert(all@.to_set().contains(all@[i as int]));
        if !kept.contains(&all[i]) {
            r.push(all[i]);
            assert(r@[before.len() as int] == all@[i as int]);
            assert forall|b: int| 0 <= b < i && !kept@.contains(#[trigger] all@[b]) implies r@.contains(
                all@[b],
            ) by {
                let a = before.index_of(all@[b]);
                assert(r@[a] == all@[b]);
            }
        }
        i = i + 1;
    }
    assert forall|x: u64| set@.difference(kept@).contains(x) implies r@.to_set().contains(x) by {
        assert(all@.to_set().contains(x));
        let b = all@.index_of(x);
        assert(all@[b] == x);
    }
    assert(r@.to_set() =~= set@.difference(kept@));
    r
}

/// A listing in ascending order is determined by what it lists.
pub proof fn ascending_is_unique(s: Seq<u64>, t: Seq<u64>, set: Set<u64>)
    requires
        ascending(s, set),
        ascending(t, set),
    ensures
        s == t,
    decreases s.len(),
{
    if s.len() == 0 {
        if t.len() > 0 {
            assert(t.to_set().contains(t[0]));
            assert(s.contains(t[0]));
        }
        assert(s =~= t);
    } else {
        assert(s.to_set().contains(s.last()));
        assert(t.contains(s.last()));
        assert(t.to_set().contains(t.last()));
        assert(s.contains(t.last()));
        let a = t.index_of(s.last());
        let b = s.index_of(t.last());
        assert(s.last() == t.last());
        let rest = set.remove(s.last());
        drop_last_ascending(s, set);
        drop_last_ascending(t, set);
        ascending_is_unique(s.drop_last(), t.drop_last(), rest);
        assert(s =~= s.drop_last().push(s.last()));
        assert(t =~= t.drop_last().push(t.last()));
    }
}

proof fn drop_last_ascending(s: Seq<u64>, set: Set<u64>)
    requires
        ascending(s, set),
        s.len() > 0,
    ensures
        ascending(s.drop_last(), set.remove(s.last())),
{
    let rest = s.drop_last();
    assert forall|x: u64| set.remove(s.last()).contains(x) implies rest.to_set().contains(x) by {
        assert(s.to_set().contains(x));
        let k = s.index_of(x);
        assert(rest[k] == x);
    }
    assert forall|x: u64| rest.to_set().contains(x) implies set.remove(s.last()).contains(x) by {
        let k = rest.index_of(x);
        assert(s[k] == x);
        assert(s.to_set().contains(x));
    }
    assert(rest.to_set() =~= set.remove(s.last()));
}

/// A window is visible exactly where it is in the snapshot, the filter shows
/// its output and, where the active workspace decides, it is on that
/// workspace. Without a sole output the active workspace never decides.
pub proof fn visible_windows_are_those_shown(
    windows: Seq<Window>,
    filter: Filter,
    by_workspace: bool,
    active: Option<u8>,
    w: Window,
)
    ensures
        visible(windows, filter, by_workspace, active).contains(w) <==> windows.contains(w)
            && filter.shows(w.output_name()) && (by_workspace && filter is Only && active is Some
            ==> w.workspace_idx == active->0 as u64),
        filter is ShowAll ==> visible(windows, filter, by_workspace, active) == windows,
{
    let shown = windows.filter(on_output(filter));
    filter_keeps(windows, on_output(filter), w);
    if active is Some {
        filter_keeps(shown, on_workspace(active->0 as u64), w);
    }
    if filter is ShowAll {
        filter_of_all(windows, on_output(filter));
    }
}

/// The bar shows no window and no workspace that is not in the snapshot.
pub proof fn visible_windows_are_in_snapshot(
    windows: Seq<Window>,
    filter: Filter,
    by_workspace: bool,
    active: Option<u8>,
)
    ensures
        ids(visible(windows, filter, by_workspace, active)).subset_of(ids(windows)),
        workspaces(visible(windows, filter, by_workspace, active)).subset_of(workspaces(windows)),
{
    let shown = visible(windows, filter, by_workspace, active);
    let id = |w: Window| w.id;
    let idx = |w: Window| w.workspace_idx;
    assert forall|x: u64| ids(shown).contains(x) implies ids(windows).contains(x) by {
        let k = shown.map_values(id).index_of(x);
        assert(shown.contains(shown[k]));
        visible_windows_are_those_shown(windows, filter, by_workspace, active, shown[k]);
        let j = windows.index_of(shown[k]);
        assert(windows.map_values(id)[j] == x);
    }
    assert forall|x: u64| workspaces(shown).contains(x) implies workspaces(windows).contains(x) by {
        let k = shown.map_values(idx).index_of(x);
        assert(shown.contains(shown[k]));
        visible_windows_are_those_shown(windows, filter, by_workspace, active, shown[k]);
        let j = windows.index_of(shown[k]);
        assert(windows.map_values(idx)[j] == x);
    }
}

proof fn filter_keeps(s: Seq<Window>, pred: spec_fn(Window) -> bool, w: Window)
    ensures
        s.filter(pred).contains(w) <==> s.contains(w) && pred(w),
    decreases s.len(),
{
    reveal(Seq::filter);
    if s.len() > 0 {
        let before = s.drop_last();
        filter_keeps(before, pred, w);
        assert(s =~= before.push(s.last()));
        if s.contains(w) && w != s.last() {
            let k = s.index_of(w);
            assert(before[k] == w);
        }
        if before.contains(w) {
            assert(s[before.index_of(w)] == w);
        }
        let kept = before.filter(pred);
        if pred(s.last()) {
            assert(kept.push(s.last())[kept.len() as int] == s.last());
            if kept.contains(w) {
                assert(kept.push(s.last())[kept.index_of(w)] == w);
            }
            if kept.push(s.last()).contains(w) && w != s.last() {
                let k = kept.push(s.last()).index_of(w);
                assert(kept[k] == w);
            }
        }
    }
}

proof fn filter_of_all(s: Seq<Window>, pred: spec_fn(Window) -> bool)
    requires
        forall|w: Window| #[trigger] pred(w),
    ensures
        s.filter(pred) == s,
    decreases s.len(),
{
    reveal(Seq::filter);
    if s.len() > 0 {
        filter_of_all(s.drop_last(), pred);
        assert(s =~= s.drop_last().push(s.last()));
    }
}

/// The widgets that there are after `changes`, where there were `buttons` and
/// `labels` before.
pub open spec fn after(changes: Seq<Update>, buttons: Set<u64>, labels: Set<u64>) -> (
    Set<u64>,
    Set<u64>,
)
    decreases changes.len(),
{
    if changes.len() == 0 {
        (buttons, labels)
    } else {
        let (b, l) = after(changes.drop_last(), buttons, labels);
        match changes.last() {
            Update::AddWorkspace(idx) => (b, l.insert(idx)),
            Update::AddWindow(w) => (b.insert(w.id), l),
            Update::SetFocus(_, _) => (b, l),
            Update::SetTitle(_, _) => (b, l),
        }
    }
}

/// Each of `changes` can be carried out when its turn comes: what is made was
/// not there, and what is updated is.
pub open spec fn applicable(changes: Seq<Update>, buttons: Set<u64>, labels: Set<u64>) -> bool
    decreases changes.len(),
{
    changes.len() == 0 || {
        let (b, l) = after(changes.drop_last(), buttons, labels);
        &&& applicable(changes.drop_last(), buttons, labels)
        &&& match changes.last() {
            Update::AddWorkspace(idx) => !l.contains(idx),
            Update::AddWindow(w) => !b.contains(w.id),
            Update::SetFocus(id, _) => b.contains(id),
            Update::SetTitle(id, _) => b.contains(id),
        }
    }
}

proof fn after_chain(s: Seq<Update>, t: Seq<Update>, buttons: Set<u64>, labels: Set<u64>)
    ensures
        after(s + t, buttons, labels) == after(
            t,
            after(s, buttons, labels).0,
            after(s, buttons, labels).1,
        ),
        applicable(s + t, buttons, labels) <==> applicable(s, buttons, labels) && applicable(
            t,
            after(s, buttons, labels).0,
            after(s, buttons, labels).1,
        ),
    decreases t.len(),
{
    if t.len() == 0 {
        assert(s + t =~= s);
    } else {
        assert((s + t).drop_last() =~= s + t.drop_last());
        after_chain(s, t.drop_last(), buttons, labels);
    }
}

proof fn after_one(s: Seq<Update>, u: Update, buttons: Set<u64>, labels: Set<u64>)
    ensures
        ({
            let (b, l) = after(s, buttons, labels);
            &&& after(s.push(u), buttons, labels) == (match u {
                Update::AddWorkspace(idx) => (b, l.insert(idx)),
                Update::AddWindow(w) => (b.insert(w.id), l),
                Update::SetFocus(_, _) => (b, l),
                Update::SetTitle(_, _) => (b, l),
            })
            &&& applicable(s.push(u), buttons, labels) <==> applicable(s, buttons, labels) && (
            match u {
                Update::AddWorkspace(idx) => !l.contains(idx),
                Update::AddWindow(w) => !b.contains(w.id),
                Update::SetFocus(id, _) => b.contains(id),
                Update::SetTitle(id, _) => b.contains(id),
            })
        }),
{
    assert(s.push(u).drop_last() =~= s);
}

proof fn after_update(w: Window, labelled: bool, buttons: Set<u64>, labels: Set<u64>)
    ensures
        applicable(update(w, labelled, buttons, labels), buttons, labels),
        after(update(w, labelled, buttons, labels), buttons, labels) == (
            buttons.insert(w.id),
            if labelled {
                labels.insert(w.workspace_idx)
            } else {
                labels
            },
        ),
{
    let none = Seq::<Update>::empty();
    let one = if labelled && !labels.contains(w.workspace_idx) {
        none.push(Update::AddWorkspace(w.workspace_idx))
    } else {
        none
    };
    let two = if !buttons.contains(w.id) {
        one.push(Update::AddWindow(w))
    } else {
        one
    };
    let focus = Update::SetFocus(w.id, w.is_focused);
    let title = Update::SetTitle(w.id, w.title);
    after_one(none, Update::AddWorkspace(w.workspace_idx), buttons, labels);
    after_one(one, Update::AddWindow(w), buttons, labels);
    after_one(two, focus, buttons, labels);
    after_one(two.push(focus), title, buttons, labels);
    assert(update(w, labelled, buttons, labels) =~= two.push(focus).push(title));
    if labels.contains(w.workspace_idx) {
        assert(labels.insert(w.workspace_idx) =~= labels);
    }
    if buttons.contains(w.id) {
        assert(buttons.insert(w.id) =~= buttons);
    }
}

/// The changes that a snapshot leads to can be carried out one after the
/// other, and together with what is dropped they leave a button for each
/// visible window, a label for each workspace of a visible window if labels
/// are wanted, and nothing else.
pub proof fn changes_lead_to_shown_widgets(
    windows: Seq<Window>,
    labelled: bool,
    buttons: Set<u64>,
    labels_before: Set<u64>,
)
    ensures
        ({
            let changes = updates(windows, labelled, buttons, labels_before);
            let (b, l) = after(changes, buttons, labels_before);
            &&& applicable(changes, buttons, labels_before)
            &&& b.difference(buttons.difference(ids(windows))) == ids(windows)
            &&& l.difference(labels_before.difference(labels(windows, labelled))) == labels(
                windows,
                labelled,
            )
        }),
{
    changes_add_up(windows, labelled, buttons, labels_before);
    let (b, l) = after(updates(windows, labelled, buttons, labels_before), buttons, labels_before);
    assert(b.difference(buttons.difference(ids(windows))) =~= ids(windows));
    assert(l.difference(labels_before.difference(labels(windows, labelled))) =~= labels(
        windows,
        labelled,
    ));
}

proof fn changes_add_up(
    windows: Seq<Window>,
    labelled: bool,
    buttons: Set<u64>,
    labels_before: Set<u64>,
)
    ensures
        applicable(updates(windows, labelled, buttons, labels_before), buttons, labels_before),
        after(updates(windows, labelled, buttons, labels_before), buttons, labels_before) == (
            buttons.union(ids(windows)),
            if labelled {
                labels_before.union(workspaces(windows))
            } else {
                labels_before
            },
        ),
    decreases windows.len(),
{
    if windows.len() == 0 {
        assert(ids(windows) =~= Set::empty());
        assert(workspaces(windows) =~= Set::empty());
        assert(buttons.union(ids(windows)) =~= buttons);
        assert(labels_before.union(workspaces(windows)) =~= labels_before);
    } else {
        let before = windows.drop_last();
        let w = windows.last();
        let b = buttons.union(ids(before));
        let l = labels_before.union(workspaces(before));
        changes_add_up(before, labelled, buttons, labels_before);
        assert(windows =~= before.push(w));
        ids_push(before, w);
        let (b1, l1) = after(
            updates(before, labelled, buttons, labels_before),
            buttons,
            labels_before,
        );
        assert(update(w, labelled, b, l) == update(w, labelled, b1, l1));
        after_update(w, labelled, b1, l1);
        after_chain(
            updates(before, labelled, buttons, labels_before),
            update(w, labelled, b, l),
            buttons,
            labels_before,
        );
        assert(buttons.union(ids(windows)) =~= b.insert(w.id));
        assert(labels_before.union(workspaces(windows)) =~= l.insert(w.workspace_idx));
    }
}

/// Processing the same visible windows again makes no widget and drops none.
pub proof fn repeated_snapshot_changes_no_widget(windows: Seq<Window>, labelled: bool)
    ensures
        forall|k: int|
            0 <= k < updates(windows, labelled, ids(windows), labels(windows, labelled)).len() ==> {
                let u = #[trigger] updates(
                    windows,
                    labelled,
                    ids(windows),
                    labels(windows, labelled),
                )[k];
                u is SetFocus || u is SetTitle
            },
        ids(windows).difference(ids(windows)) == Set::<u64>::empty(),
        labels(windows, labelled).difference(labels(windows, labelled)) == Set::<u64>::empty(),
{
    known_windows_add_nothing(windows, labelled, ids(windows), labels(windows, labelled));
    assert(ids(windows).difference(ids(windows)) =~= Set::<u64>::empty());
    assert(labels(windows, labelled).difference(labels(windows, labelled)) =~= Set::<u64>::empty());
}

proof fn known_windows_add_nothing(
    windows: Seq<Window>,
    labelled: bool,
    buttons: Set<u64>,
    labels_before: Set<u64>,
)
    requires
        ids(windows).subset_of(buttons),
        labelled ==> workspaces(windows).subset_of(labels_before),
    ensures
        forall|k: int|
            0 <= k < updates(windows, labelled, buttons, labels_before).len() ==> {
                let u = #[trigger] updates(windows, labelled, buttons, labels_before)[k];
                u is SetFocus || u is SetTitle
            },
    decreases windows.len(),
{
    if windows.len() > 0 {
        let before = windows.drop_last();
        let w = windows.last();
        assert(windows =~= before.push(w));
        ids_push(before, w);
        assert(ids(windows).contains(w.id));
        assert(workspaces(windows).contains(w.workspace_idx));
        known_windows_add_nothing(before, labelled, buttons, labels_before);
        let old_part = updates(before, labelled, buttons, labels_before);
        let new_part = update(
            w,
            labelled,
            buttons.union(ids(before)),
            labels_before.union(workspaces(before)),
        );
        assert(new_part =~= seq![
            Update::SetFocus(w.id, w.is_focused),
            Update::SetTitle(w.id, w.title),
        ]);
        assert forall|k: int| 0 <= k < (old_part + new_part).len() implies ({
            let u = #[trigger] (old_part + new_part)[k];
            u is SetFocus || u is SetTitle
        }) by {
            if k < old_part.len() {
                assert((old_part + new_part)[k] == old_part[k]);
            }
        }
    }
}

/// Whether a widget is the button of a window.
pub open spec fn is_button() -> spec_fn(Widget) -> bool {
    |x: Widget| x is Window
}

/// The bar holds one button for each visible window, in their order.
pub proof fn bar_holds_windows_in_order(windows: Seq<Window>, labelled: bool)
    ensures
        order(windows, labelled).filter(is_button()) == windows.map_values(
            |w: Window| Widget::Window(w.id),
        ),
    decreases windows.len(),
{
    reveal(Seq::filter);
    if windows.len() > 0 {
        let before = windows.drop_last();
        let w = windows.last();
        bar_holds_windows_in_order(before, labelled);
        let o = order(before, labelled);
        let label = Widget::Workspace(w.workspace_idx);
        let button = Widget::Window(w.id);
        filter_push(o, is_button(), button);
        filter_push(o, is_button(), label);
        filter_push(o.push(label), is_button(), button);
        assert(o + seq![button] =~= o.push(button));
        assert(o + seq![label, button] =~= o.push(label).push(button));
        assert(order(windows, labelled).filter(is_button()) == o.filter(is_button()).push(button));
    }
    assert(order(windows, labelled).filter(is_button()) =~= windows.map_values(
        |w: Window| Widget::Window(w.id),
    ));
}

/// The bar holds exactly the widgets that are kept: a button for each visible
/// window and, if labels are wanted, a label for each of their workspaces.
pub proof fn bar_holds_kept_widgets(windows: Seq<Window>, labelled: bool)
    ensures
        forall|id: u64| #[trigger]
            order(windows, labelled).contains(Widget::Window(id)) <==> ids(windows).contains(id),
        forall|idx: u64| #[trigger]
            order(windows, labelled).contains(Widget::Workspace(idx)) <==> labels(
                windows,
                labelled,
            ).contains(idx),
    decreases windows.len(),
{
    if windows.len() == 0 {
        assert(ids(windows) =~= Set::empty());
        assert(workspaces(windows) =~= Set::empty());
    } else {
        let before = windows.drop_last();
        let w = windows.last();
        bar_holds_kept_widgets(before, labelled);
        assert(windows =~= before.push(w));
        ids_push(before, w);
        let o = order(before, labelled);
        let extra = if labelled && !workspaces(before).contains(w.workspace_idx) {
            seq![Widget::Workspace(w.workspace_idx), Widget::Window(w.id)]
        } else {
            seq![Widget::Window(w.id)]
        };
        assert forall|x: Widget| #[trigger]
            (o + extra).contains(x) <==> o.contains(x) || extra.contains(x) by {
            if o.contains(x) {
                assert((o + extra)[o.index_of(x)] == x);
            }
            if extra.contains(x) {
                assert((o + extra)[o.len() + extra.index_of(x)] == x);
            }
            if (o + extra).contains(x) {
                let k = (o + extra).index_of(x);
                if k < o.len() {
                    assert(o[k] == x);
                } else {
                    assert(extra[k - o.len()] == x);
                }
            }
        }
        assert(extra.contains(Widget::Window(w.id))) by {
            assert(extra.last() == Widget::Window(w.id));
        }
        if labelled && !workspaces(before).contains(w.workspace_idx) {
            assert(extra[0] == Widget::Workspace(w.workspace_idx));
        }
    }
}

proof fn order_grows(windows: Seq<Window>, n: int, labelled: bool)
    requires
        0 <= n <= windows.len(),
    ensures
        order(windows.take(n), labelled).len() <= order(windows, labelled).len(),
        forall|k: int|
            0 <= k < order(windows.take(n), labelled).len() ==> order(windows, labelled)[k]
                == #[trigger] order(windows.take(n), labelled)[k],
    decreases windows.len(),
{
    if n == windows.len() {
        assert(windows.take(n) =~= windows);
    } else {
        let before = windows.drop_last();
        order_grows(before, n, labelled);
        assert(before.take(n) =~= windows.take(n));
    }
}

/// The label of a workspace stands once in the bar, immediately before the
/// button of the first window on that workspace. What stands before the label
/// is what the bar would hold without that window and those after it.
pub proof fn label_precedes_first_window(windows: Seq<Window>, i: int)
    requires
        0 <= i < windows.len(),
        forall|j: int| 0 <= j < i ==> (#[trigger] windows[j]).workspace_idx != windows[i].workspace_idx,
    ensures
        ({
            let bar = order(windows, true);
            let k = order(windows.take(i), true).len() as int;
            &&& k + 1 < bar.len()
            &&& bar.take(k) == order(windows.take(i), true)
            &&& bar[k] == Widget::Workspace(windows[i].workspace_idx)
            &&& bar[k + 1] == Widget::Window(windows[i].id)
            &&& forall|m: int|
                0 <= m < bar.len() && m != k ==> (#[trigger] bar[m]) != Widget::Workspace(
                    windows[i].workspace_idx,
                )
        }),
    decreases windows.len(),
{
    let idx = windows[i].workspace_idx;
    let bar = order(windows, true);
    let head = order(windows.take(i), true);
    let k = head.len() as int;
    order_grows(windows, i, true);
    assert(bar.take(k) =~= head);
    assert(!workspaces(windows.take(i)).contains(idx)) by {
        if workspaces(windows.take(i)).contains(idx) {
            let s = windows.take(i).map_values(|w: Window| w.workspace_idx);
            let j = s.index_of(idx);
            assert(s[j] == windows[j].workspace_idx);
        }
    }
    if i == windows.len() - 1 {
        assert(windows.drop_last() =~= windows.take(i));
        assert(bar == head + seq![Widget::Workspace(idx), Widget::Window(windows[i].id)]);
        bar_holds_kept_widgets(windows.take(i), true);
        assert forall|m: int| 0 <= m < bar.len() && m != k implies (#[trigger] bar[m])
            != Widget::Workspace(idx) by {
            if m < k {
                assert(bar[m] == head[m]);
                if head[m] == Widget::Workspace(idx) {
                    assert(head.contains(Widget::Workspace(idx)));
                }
            }
        }
    } else {
        let before = windows.drop_last();
        assert(before.take(i) =~= windows.take(i));
        assert forall|j: int| 0 <= j < i implies (#[trigger] before[j]).workspace_idx
            != before[i].workspace_idx by {
            assert(before[j] == windows[j]);
        }
        label_precedes_first_window(before, i);
        let o = order(before, true);
        assert(workspaces(before).contains(idx)) by {
            let s = before.map_values(|w: Window| w.workspace_idx);
            assert(s[i] == idx);
            assert(s.contains(idx));
        }
        assert forall|m: int| 0 <= m < bar.len() && m != k implies (#[trigger] bar[m])
            != Widget::Workspace(idx) by {
            if m < o.len() {
                assert(bar[m] == o[m]);
            }
        }
    }
}

/// Where the members of a sequence that satisfy `pred` stand in it.
pub(crate) proof fn filter_positions<A>(s: Seq<A>, pred: spec_fn(A) -> bool) -> (at: Seq<int>)
    ensures
        at.len() == s.filter(pred).len(),
        forall|j: int, k: int| 0 <= j < k < at.len() ==> at[j] < at[k],
        forall|k: int|
            0 <= k < at.len() ==> 0 <= #[trigger] at[k] < s.len() && s.filter(pred)[k] == s[at[k]],
        forall|i: int| #[trigger] at.contains(i) <==> 0 <= i < s.len() && pred(s[i]),
    decreases s.len(),
{
    reveal(Seq::filter);
    if s.len() == 0 {
        Seq::empty()
    } else {
        let before = s.drop_last();
        let last = s.len() - 1;
        let at = filter_positions(before, pred);
        assert forall|k: int| 0 <= k < at.len() implies 0 <= #[trigger] at[k] < before.len()
            && before.filter(pred)[k] == s[at[k]] by {
            assert(s[at[k]] == before[at[k]]);
        }
        if pred(s.last()) {
            let all = at.push(last);
            assert forall|i: int| #[trigger] all.contains(i) <==> 0 <= i < s.len() && pred(s[i]) by {
                if at.contains(i) {
                    assert(all[at.index_of(i)] == i);
                }
                assert(all[at.len() as int] == last);
                if all.contains(i) && i != last {
                    assert(at[all.index_of(i)] == i);
                }
                if 0 <= i < last {
                    assert(s[i] == before[i]);
                }
            }
            all
        } else {
            assert forall|i: int| #[trigger] at.contains(i) <==> 0 <= i < s.len() && pred(s[i]) by {
                if 0 <= i < last {
                    assert(s[i] == before[i]);
                }
            }
            at
        }
    }
}

proof fn filter_twice(s: Seq<Window>, p: spec_fn(Window) -> bool, q: spec_fn(Window) -> bool)
    ensures
        s.filter(p).filter(q) == s.filter(|w: Window| p(w) && q(w)),
    decreases s.len(),
{
    let both = |w: Window| p(w) && q(w);
    if s.len() == 0 {
        reveal(Seq::filter);
    } else {
        let before = s.drop_last();
        filter_twice(before, p, q);
        assert(s =~= before.push(s.last()));
        filter_push(before, p, s.last());
        filter_push(before, both, s.last());
        filter_push(before.filter(p), q, s.last());
    }
}

/// The visible windows are windows of the snapshot in its order, each as often
/// as it is there: those at the positions `at`. A position is among them exactly
/// where its window is on the output that the filter names, if it names one,
/// and, where the bar follows the active workspace of that output and knows it,
/// on that workspace.
pub proof fn visible_windows_keep_their_order(
    windows: Seq<Window>,
    filter: Filter,
    by_workspace: bool,
    active: Option<u8>,
) -> (at: Seq<int>)
    ensures
        at.len() == visible(windows, filter, by_workspace, active).len(),
        forall|j: int, k: int| 0 <= j < k < at.len() ==> at[j] < at[k],
        forall|k: int|
            0 <= k < at.len() ==> 0 <= #[trigger] at[k] < windows.len() && visible(
                windows,
                filter,
                by_workspace,
                active,
            )[k] == windows[at[k]],
        forall|i: int| #[trigger]
            at.contains(i) <==> 0 <= i < windows.len() && (match filter {
                Filter::ShowAll => true,
                Filter::Only(name) => match windows[i].output {
                    Some(output) => output@ == name@,
                    None => name@.len() == 0,
                },
            }) && (by_workspace && filter is Only && active is Some ==> windows[i].workspace_idx
                == active->0),
{
    let p = on_output(filter);
    assert forall|w: Window| #[trigger] p(w) == (match filter {
        Filter::ShowAll => true,
        Filter::Only(name) => match w.output {
            Some(output) => output@ == name@,
            None => name@.len() == 0,
        },
    }) by {
        if let Filter::Only(name) = filter {
            if name@.len() == 0 {
                assert(name@ =~= Seq::empty());
            }
        }
    }
    if by_workspace && filter is Only && active is Some {
        let q = on_workspace(active->0 as u64);
        let both = |w: Window| p(w) && q(w);
        filter_twice(windows, p, q);
        let at = filter_positions(windows, both);
        assert forall|i: int| 0 <= i < windows.len() implies both(#[trigger] windows[i]) == (p(
            windows[i],
        ) && windows[i].workspace_idx == active->0) by {}
        at
    } else {
        filter_positions(windows, p)
    }
}

/// An id, a workspace or a label is there exactly where a window has it; labels
/// are there only if they are wanted.
pub proof fn widgets_stand_for_windows(windows: Seq<Window>, labelled: bool, x: u64)
    ensures
        ids(windows).contains(x) <==> exists|i: int|
            0 <= i < windows.len() && (#[trigger] windows[i]).id == x,
        workspaces(windows).contains(x) <==> exists|i: int|
            0 <= i < windows.len() && (#[trigger] windows[i]).workspace_idx == x,
        labels(windows, labelled).contains(x) <==> labelled && exists|i: int|
            0 <= i < windows.len() && (#[trigger] windows[i]).workspace_idx == x,
{
    let a = windows.map_values(|w: Window| w.id);
    let b = windows.map_values(|w: Window| w.workspace_idx);
    if ids(windows).contains(x) {
        assert(windows[a.index_of(x)].id == x);
    }
    if workspaces(windows).contains(x) {
        assert(windows[b.index_of(x)].workspace_idx == x);
    }
    assert forall|i: int| 0 <= i < windows.len() && (#[trigger] windows[i]).id == x implies ids(
        windows,
    ).contains(x) by {
        assert(a[i] == x);
    }
    assert forall|i: int|
        0 <= i < windows.len() && (#[trigger] windows[i]).workspace_idx == x implies workspaces(
        windows,
    ).contains(x) by {
        assert(b[i] == x);
    }
}

/// An ascending listing goes up from each entry to the next and lists the
/// members of the set and nothing else.
pub proof fn listings_go_up(s: Seq<u64>, set: Set<u64>, x: u64)
    requires
        ascending(s, set),
    ensures
        forall|i: int, j: int| 0 <= i < j < s.len() ==> s[i] < s[j],
        set.contains(x) <==> exists|i: int| 0 <= i < s.len() && #[trigger] s[i] == x,
{
    assert(s.to_set().contains(x) <==> s.contains(x));
}

/// How the buttons look after `changes`: by id, whether the button is shown as
/// focused, and its title.
pub open spec fn faces(changes: Seq<Update>, before: Map<u64, (bool, Option<String>)>) -> Map<
    u64,
    (bool, Option<String>),
>
    decreases changes.len(),
{
    if changes.len() == 0 {
        before
    } else {
        let m = faces(changes.drop_last(), before);
        match changes.last() {
            Update::AddWorkspace(_) => m,
            Update::AddWindow(_) => m,
            Update::SetFocus(id, focused) => m.insert(id, (focused, m[id].1)),
            Update::SetTitle(id, title) => m.insert(id, (m[id].0, title)),
        }
    }
}

proof fn faces_chain(s: Seq<Update>, t: Seq<Update>, m: Map<u64, (bool, Option<String>)>)
    ensures
        faces(s + t, m) == faces(t, faces(s, m)),
    decreases t.len(),
{
    if t.len() == 0 {
        assert(s + t =~= s);
    } else {
        assert((s + t).drop_last() =~= s + t.drop_last());
        faces_chain(s, t.drop_last(), m);
    }
}

proof fn faces_one(s: Seq<Update>, u: Update, before: Map<u64, (bool, Option<String>)>)
    ensures
        ({
            let m = faces(s, before);
            faces(s.push(u), before) == (match u {
                Update::AddWorkspace(_) => m,
                Update::AddWindow(_) => m,
                Update::SetFocus(id, focused) => m.insert(id, (focused, m[id].1)),
                Update::SetTitle(id, title) => m.insert(id, (m[id].0, title)),
            })
        }),
{
    assert(s.push(u).drop_last() =~= s);
}

proof fn face_after_update(
    w: Window,
    labelled: bool,
    buttons: Set<u64>,
    labels: Set<u64>,
    m: Map<u64, (bool, Option<String>)>,
)
    ensures
        faces(update(w, labelled, buttons, labels), m) == m.insert(w.id, (w.is_focused, w.title)),
{
    let none = Seq::<Update>::empty();
    let one = if labelled && !labels.contains(w.workspace_idx) {
        none.push(Update::AddWorkspace(w.workspace_idx))
    } else {
        none
    };
    let two = if !buttons.contains(w.id) {
        one.push(Update::AddWindow(w))
    } else {
        one
    };
    let focus = Update::SetFocus(w.id, w.is_focused);
    let title = Update::SetTitle(w.id, w.title);
    faces_one(none, Update::AddWorkspace(w.workspace_idx), m);
    faces_one(one, Update::AddWindow(w), m);
    faces_one(two, focus, m);
    faces_one(two.push(focus), title, m);
    assert(update(w, labelled, buttons, labels) =~= two.push(focus).push(title));
    assert(faces(two, m) =~= m);
    assert(faces(two.push(focus).push(title), m) =~= m.insert(w.id, (w.is_focused, w.title)));
}

/// Once the changes of a snapshot have been carried out, the button of each
/// visible window is focused as that window is and has its title. Where several
/// visible windows have one id, the last of them counts. The buttons of other
/// windows look as before.
pub proof fn buttons_look_like_their_windows(
    windows: Seq<Window>,
    labelled: bool,
    buttons: Set<u64>,
    labels_before: Set<u64>,
    before: Map<u64, (bool, Option<String>)>,
    id: u64,
    i: int,
)
    ensures
        ({
            let m = faces(updates(windows, labelled, buttons, labels_before), before);
            &&& 0 <= i < windows.len() && windows[i].id == id && (forall|j: int|
                i < j < windows.len() ==> (#[trigger] windows[j]).id != id) ==> m.contains_key(id)
                && m[id] == (windows[i].is_focused, windows[i].title)
            &&& (forall|j: int| 0 <= j < windows.len() ==> (#[trigger] windows[j]).id != id)
                ==> m.contains_key(id) == before.contains_key(id) && (before.contains_key(id)
                ==> m[id] == before[id])
        }),
    decreases windows.len(),
{
    if windows.len() > 0 {
        let rest = windows.drop_last();
        let w = windows.last();
        let b = buttons.union(ids(rest));
        let l = labels_before.union(workspaces(rest));
        let early = updates(rest, labelled, buttons, labels_before);
        buttons_look_like_their_windows(rest, labelled, buttons, labels_before, before, id, i);
        faces_chain(early, update(w, labelled, b, l), before);
        face_after_update(w, labelled, b, l, faces(early, before));
        assert(forall|j: int| 0 <= j < rest.len() ==> rest[j] == windows[j]);
        assert(w == windows[windows.len() - 1]);
    }
}

proof fn ids_concat(a: Seq<Window>, b: Seq<Window>)
    ensures
        ids(a + b) == ids(a).union(ids(b)),
        workspaces(a + b) == workspaces(a).union(workspaces(b)),
    decreases b.len(),
{
    if b.len() == 0 {
        assert(a + b =~= a);
        assert(ids(b) =~= Set::empty());
        assert(workspaces(b) =~= Set::empty());
        assert(ids(a).union(ids(b)) =~= ids(a));
        assert(workspaces(a).union(workspaces(b)) =~= workspaces(a));
    } else {
        let rest = b.drop_last();
        ids_concat(a, rest);
        ids_push(a + rest, b.last());
        ids_push(rest, b.last());
        assert(a + b =~= (a + rest).push(b.last()));
        assert(b =~= rest.push(b.last()));
        assert(ids(a + b) =~= ids(a).union(ids(b)));
        assert(workspaces(a + b) =~= workspaces(a).union(workspaces(b)));
    }
}

/// Showing some windows and then others changes what the first ones change, and
/// then what the others change on a bar that has the widgets of the first.
pub proof fn changes_follow_one_another(
    a: Seq<Window>,
    b: Seq<Window>,
    labelled: bool,
    buttons: Set<u64>,
    labels_before: Set<u64>,
)
    ensures
        updates(a + b, labelled, buttons, labels_before) == updates(
            a,
            labelled,
            buttons,
            labels_before,
        ) + updates(
            b,
            labelled,
            buttons.union(ids(a)),
            labels_before.union(workspaces(a)),
        ),
    decreases b.len(),
{
    let first = updates(a, labelled, buttons, labels_before);
    let b1 = buttons.union(ids(a));
    let l1 = labels_before.union(workspaces(a));
    if b.len() == 0 {
        assert(a + b =~= a);
        assert(first + Seq::<Update>::empty() =~= first);
    } else {
        let rest = b.drop_last();
        changes_follow_one_another(a, rest, labelled, buttons, labels_before);
        ids_concat(a, rest);
        assert((a + b).drop_last() =~= a + rest);
        assert((a + b).last() == b.last());
        assert(buttons.union(ids(a + rest)) =~= b1.union(ids(rest)));
        assert(labels_before.union(workspaces(a + rest)) =~= l1.union(workspaces(rest)));
        let end = update(b.last(), labelled, b1.union(ids(rest)), l1.union(workspaces(rest)));
        let middle = updates(rest, labelled, b1, l1);
        assert((first + middle) + end =~= first + (middle + end));
    }
}

/// What one window changes: it gets a label for its workspace if labels are
/// wanted and there is none, then a button if it has none, then its focus and
/// its title are set, and nothing else happens.
pub proof fn one_window_changes(
    w: Window,
    labelled: bool,
    buttons: Set<u64>,
    labels_before: Set<u64>,
)
    ensures
        ({
            let changes = updates(seq![w], labelled, buttons, labels_before);
            let n = changes.len();
            let new_label = labelled && !labels_before.contains(w.workspace_idx);
            let new_button = !buttons.contains(w.id);
            &&& n == 2 + (if new_label {
                1int
            } else {
                0
            }) + (if new_button {
                1int
            } else {
                0
            })
            &&& changes[n - 1] == Update::SetTitle(w.id, w.title)
            &&& changes[n - 2] == Update::SetFocus(w.id, w.is_focused)
            &&& new_button ==> changes[n - 3] == Update::AddWindow(w)
            &&& new_label ==> changes[0] == Update::AddWorkspace(w.workspace_idx)
        }),
{
    let none = Seq::<Window>::empty();
    assert(seq![w].drop_last() =~= none);
    assert(seq![w].last() == w);
    assert(ids(none) =~= Set::empty());
    assert(workspaces(none) =~= Set::empty());
    assert(buttons.union(ids(none)) =~= buttons);
    assert(labels_before.union(workspaces(none)) =~= labels_before);
    assert(updates(none, labelled, buttons, labels_before) =~= Seq::empty());
    assert(updates(seq![w], labelled, buttons, labels_before) =~= update(
        w,
        labelled,
        buttons,
        labels_before,
    ));
}

/// While the active workspace is unknown no label changes. Else the label of the
/// active workspace is shown as focused and every other label is not.
pub proof fn only_active_label_is_focused(label: u64, active: Option<u8>)
    ensures
        active is None <==> label_focused(label, active) is None,
        active matches Some(idx) ==> (label_focused(label, active) == Some(true) <==> label == idx)
            && (label_focused(label, active) == Some(false) <==> label != idx),
{
}

/// A workspace whose index is a byte is activated by that index. Indices that
/// differ by a multiple of the size of a byte activate the same workspace.
pub proof fn small_indices_are_activated_as_they_are(label: u64, other: u64, k: int)
    ensures
        label < 256 ==> activated(label) == label,
        other == label + 256 * k ==> activated(other) == activated(label),
{
    assert(other == label + 256 * k ==> other % 256 == label % 256);
}

} // verus!
