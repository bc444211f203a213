//! One bar: what it remembers between events, and what each event leads to.

use crate::config::Config;
use crate::layout::{
    after, applicable, ascending, bar_holds_kept_widgets, bar_holds_windows_in_order,
    changes_lead_to_shown_widgets, ids, ids_push, is_button, labels, members, missing, order,
    updates, visible, visible_windows,
    visible_windows_are_in_snapshot, visible_windows_keep_their_order, widget_order,
    widgets_stand_for_windows, workspaces, Update, Widget,
};
use crate::notify::{
    exact_matches_come_first, find_by_pid, grade, graded, marks_keep_the_order_of_candidates,
    select, selected, unfocused_window_of_process_is_marked, urgent_for_pid, window_match,
    MatchKind, Notification,
};
use crate::output::{choose_filter, filter_step, Filter, FilterEvent, FilterStep};
use crate::text::{lowercase, tail};
use crate::window::{copy_text, Window};
use std::collections::BTreeSet;
use vstd::prelude::*;

verus! {

broadcast use vstd::std_specs::btree::group_btree_axioms;

/// Something that happened on the desktop.
#[derive(Debug, PartialEq, Eq)]
pub enum Event {
    Notification(Notification),
    WindowSnapshot(Vec<Window>),
    /// The workspaces changed, and with them perhaps the outputs.
    Workspaces,
}

/// What an event asks for.
#[derive(Debug, PartialEq, Eq)]
pub enum Step {
    /// Carry out the step, and go on with the walk if there is one.
    Notify(NotifyStep),
    /// Process the snapshot, after asking for the active workspace of the output
    /// if one is named.
    Snapshot { windows: Vec<Window>, ask: Option<String> },
    /// Build the output filter anew.
    RebuildFilter,
}

/// A walk from the sender of a notification up through its ancestors.
#[derive(Debug, PartialEq, Eq)]
pub struct Walk {
    /// The process whose parent has to be found next.
    pub pid: i64,
    /// Whether a window was marked on the way.
    pub found: bool,
    /// The desktop entry to fall back to.
    pub desktop_entry: Option<String>,
}

/// One step in the handling of a notification.
#[derive(Debug, PartialEq, Eq)]
pub struct NotifyStep {
    /// The windows to mark as urgent, in this order.
    pub urgent: Vec<u64>,
    /// How to go on, or nothing if the notification is dealt with.
    pub walk: Option<Walk>,
}

/// The workspace labels to check against the active workspace of an output, in
/// this order.
#[derive(Debug, PartialEq, Eq)]
pub struct FocusPass {
    pub output: String,
    pub labels: Vec<u64>,
}

/// What a snapshot does to the bar, in the order of the fields.
#[derive(Debug, PartialEq, Eq)]
pub struct SnapshotPlan {
    /// Widgets to make and update.
    pub updates: Vec<Update>,
    /// Windows whose buttons go.
    pub dropped_windows: Vec<u64>,
    /// Workspaces whose labels go.
    pub dropped_workspaces: Vec<u64>,
    /// Labels whose focus has to be set.
    pub focus: Option<FocusPass>,
    /// All the widgets of the bar, in their order.
    pub order: Vec<Widget>,
}

/// What one bar remembers.
pub struct InstanceView {
    pub config: Config,
    /// The windows that have a button.
    pub buttons: Set<u64>,
    /// The workspaces that have a label.
    pub workspace_buttons: Set<u64>,
    pub last_snapshot: Option<Seq<Window>>,
}

/// One bar.
pub struct Instance {
    config: Config,
    buttons: BTreeSet<u64>,
    workspace_buttons: BTreeSet<u64>,
    last_snapshot: Option<Vec<Window>>,
}

impl InstanceView {
    /// What holds of every bar at all times: it has widgets only for what was in
    /// the last snapshot, and labels only where they are wanted.
    pub open spec fn consistent(self) -> bool {
        &&& match self.last_snapshot {
            None => self.buttons == Set::<u64>::empty() && self.workspace_buttons == Set::<
                u64,
            >::empty(),
            Some(windows) => self.buttons.subset_of(ids(windows))
                && self.workspace_buttons.subset_of(workspaces(windows)),
        }
        &&& !self.config.display.workspace_buttons ==> self.workspace_buttons == Set::<
            u64,
        >::empty()
    }

    /// The id to mark for a process.
    pub open spec fn urgent_by_pid(self, pid: i64) -> Option<u64> {
        match self.last_snapshot {
            Some(windows) => urgent_for_pid(windows, self.buttons, pid),
            None => None,
        }
    }

    /// The ids to mark for a desktop entry.
    pub open spec fn urgent_by_entry(self, desktop_entry: Option<String>) -> Seq<u64> {
        if !self.config.use_desktop_entry || self.last_snapshot is None || desktop_entry is None {
            Seq::empty()
        } else {
            selected(
                graded(
                    self.last_snapshot->0,
                    self.config.mapped(desktop_entry->0@),
                    self.config.use_fuzzy_matching,
                ),
                self.buttons,
            )
        }
    }

    /// The ids to mark on reaching process `pid`, and the walk that goes on from
    /// there.
    pub open spec fn visited(self, pid: i64, found: bool, desktop_entry: Option<String>) -> (
        Seq<u64>,
        Option<Walk>,
    ) {
        match self.urgent_by_pid(pid) {
            Some(id) => (seq![id], Some(Walk { pid, found: true, desktop_entry })),
            None => (Seq::empty(), Some(Walk { pid, found, desktop_entry })),
        }
    }

    /// The first step for a notification.
    pub open spec fn notified(self, notification: Notification) -> (Seq<u64>, Option<Walk>) {
        if self.last_snapshot is None {
            (Seq::empty(), None)
        } else {
            match notification.pid {
                Some(pid) => self.visited(pid, false, notification.desktop_entry),
                None => (self.urgent_by_entry(notification.desktop_entry), None),
            }
        }
    }

    /// The step after the parent of `walk.pid` was looked for.
    pub open spec fn walked(self, walk: Walk, parent: Option<i64>) -> (Seq<u64>, Option<Walk>) {
        match parent {
            Some(pid) => self.visited(pid, walk.found, walk.desktop_entry),
            None => if walk.found {
                (Seq::empty(), None)
            } else {
                (self.urgent_by_entry(walk.desktop_entry), None)
            },
        }
    }

    /// The output whose active workspace decides which windows are visible.
    pub open spec fn active_query(self, filter: Filter) -> Option<String> {
        if self.config.display.filter_by_workspace {
            filter.sole_output()
        } else {
            None
        }
    }

    /// The windows of a snapshot that the bar shows.
    pub open spec fn visible(self, windows: Seq<Window>, filter: Filter, active: Option<u8>) -> Seq<
        Window,
    > {
        visible(windows, filter, self.config.display.filter_by_workspace, active)
    }

    /// What the bar remembers after a snapshot.
    pub open spec fn after_snapshot(
        self,
        windows: Seq<Window>,
        filter: Filter,
        active: Option<u8>,
    ) -> InstanceView {
        let shown = self.visible(windows, filter, active);
        InstanceView {
            config: self.config,
            buttons: ids(shown),
            workspace_buttons: labels(shown, self.config.display.workspace_buttons),
            last_snapshot: Some(windows),
        }
    }
}

impl NotifyStep {
    /// The step as a pair of what it marks and how it goes on.
    pub open spec fn parts(self) -> (Seq<u64>, Option<Walk>) {
        (self.urgent@, self.walk)
    }
}

impl View for Instance {
    type V = InstanceView;

    closed spec fn view(&self) -> InstanceView {
        InstanceView {
            config: self.config,
            buttons: self.buttons@,
            workspace_buttons: self.workspace_buttons@,
            last_snapshot: match self.last_snapshot {
                Some(windows) => Some(windows@),
                None => None,
            },
        }
    }
}

impl Instance {
    /// A bar without widgets that has seen no snapshot.
    pub fn new(config: Config) -> (r: Self)
        ensures
            r@ == (InstanceView {
                config,
                buttons: Set::empty(),
                workspace_buttons: Set::empty(),
                last_snapshot: None,
            }),
            r@.consistent(),
    {
        Instance {
            config,
            buttons: BTreeSet::new(),
            workspace_buttons: BTreeSet::new(),
            last_snapshot: None,
        }
    }

    /// What `event` asks for, where `filter` is the output filter in force.
    pub fn task(&self, event: Event, filter: &Filter) -> (r: Step)
        ensures
            match event {
                Event::Notification(notification) => r matches Step::Notify(step) && step.parts()
                    == self@.notified(notification) && step.urgent@ == self@.notified(
                    notification,
                ).0 && step.walk == self@.notified(notification).1,
                Event::WindowSnapshot(windows) => r == (Step::Snapshot {
                    windows,
                    ask: self@.active_query(*filter),
                }),
                Event::Workspaces => r == Step::RebuildFilter,
            },
    {
        match event {
            Event::Notification(notification) => Step::Notify(
                self.process_notification(notification),
            ),
            Event::WindowSnapshot(windows) => {
                let ask = self.active_query(filter);
                Step::Snapshot { windows, ask }
            },
            Event::Workspaces => Step::RebuildFilter,
        }
    }

    /// What to do next to build the output filter.
    pub fn build_output_filter(&self, event: FilterEvent) -> (r: FilterStep)
        ensures
            r == filter_step(self@.config.display.filter_by_output, event),
    {
        match event {
            FilterEvent::Start => if self.config.display.filter_by_output {
                FilterStep::FetchOutputs
            } else {
                FilterStep::Done(Filter::ShowAll)
            },
            FilterEvent::OutputsUnavailable => FilterStep::Done(Filter::ShowAll),
            FilterEvent::Outputs(count) => if count == 1 {
                FilterStep::Done(Filter::ShowAll)
            } else {
                FilterStep::FindMonitor
            },
            FilterEvent::MonitorUnavailable => FilterStep::Done(Filter::ShowAll),
            FilterEvent::Compared(compared) => FilterStep::Done(choose_filter(&compared)),
        }
    }

    /// The first step for a notification: mark the window of its sender, or fall
    /// back to its desktop entry where the sender is unknown.
    pub fn process_notification(&self, notification: Notification) -> (r: NotifyStep)
        ensures
            r.parts() == self@.notified(notification),
            r.urgent@ == self@.notified(notification).0,
            r.walk == self@.notified(notification).1,
    {
        if self.last_snapshot.is_none() {
            return NotifyStep { urgent: Vec::new(), walk: None };
        }
        match notification.pid {
            Some(pid) => self.visit(pid, false, notification.desktop_entry),
            None => NotifyStep { urgent: self.fall_back(&notification.desktop_entry), walk: None },
        }
    }

    /// The next step for a notification, where `parent` is the parent of
    /// `walk.pid`, or nothing if that process has none or could not be read.
    pub fn walk_up(&self, walk: Walk, parent: Option<i64>) -> (r: NotifyStep)
        ensures
            r.parts() == self@.walked(walk, parent),
            r.urgent@ == self@.walked(walk, parent).0,
            r.walk == self@.walked(walk, parent).1,
    {
        match parent {
            Some(pid) => self.visit(pid, walk.found, walk.desktop_entry),
            None => if walk.found {
                NotifyStep { urgent: Vec::new(), walk: None }
            } else {
                NotifyStep { urgent: self.fall_back(&walk.desktop_entry), walk: None }
            },
        }
    }

    fn visit(&self, pid: i64, found: bool, desktop_entry: Option<String>) -> (r: NotifyStep)
        ensures
            r.parts() == self@.visited(pid, found, desktop_entry),
    {
        let mut urgent: Vec<u64> = Vec::new();
        let mut now_found: bool = found;
        if let Some(windows) = &self.last_snapshot {
            if let Some(id) = find_by_pid(windows, &self.buttons, pid) {
                urgent.push(id);
                now_found = true;
            }
        }
        assert(urgent@ =~= self@.visited(pid, found, desktop_entry).0);
        NotifyStep { urgent, walk: Some(Walk { pid, found: now_found, desktop_entry }) }
    }

    fn fall_back(&self, desktop_entry: &Option<String>) -> (r: Vec<u64>)
        ensures
            r@ == self@.urgent_by_entry(*desktop_entry),
    {
        if !self.config.use_desktop_entry {
            return Vec::new();
        }
        match (&self.last_snapshot, desktop_entry) {
            (Some(windows), Some(entry)) => {
                let wanted = match self.config.notifications_app_map(entry.as_str()) {
                    Some(app_id) => app_id,
                    None => entry,
                };
                select(&grade(windows, wanted, self.config.use_fuzzy_matching), &self.buttons)
            },
            _ => Vec::new(),
        }
    }

    /// The output whose active workspace has to be asked for before a snapshot
    /// can be processed.
    pub fn active_query(&self, filter: &Filter) -> (r: Option<String>)
        ensures
            r == self@.active_query(*filter),
    {
        if self.config.display.filter_by_workspace {
            filter.get_output()
        } else {
            None
        }
    }

    /// Takes in a snapshot and says what it does to the bar. `active` is the
    /// active workspace of the filter's output, if it was asked for and is known.
    pub fn process_window_snapshot(
        &mut self,
        windows: Vec<Window>,
        filter: &Filter,
        active: Option<u8>,
    ) -> (r: SnapshotPlan)
        ensures
            ({
                let labelled = old(self)@.config.display.workspace_buttons;
                let shown = old(self)@.visible(windows@, *filter, active);
                &&& final(self)@ == (InstanceView {
                    config: old(self)@.config,
                    buttons: ids(shown),
                    workspace_buttons: labels(shown, labelled),
                    last_snapshot: Some(windows@),
                })
                &&& r.updates@ == updates(
                    shown,
                    labelled,
                    old(self)@.buttons,
                    old(self)@.workspace_buttons,
                )
                &&& ascending(r.dropped_windows@, old(self)@.buttons.difference(ids(shown)))
                &&& ascending(
                    r.dropped_workspaces@,
                    old(self)@.workspace_buttons.difference(labels(shown, labelled)),
                )
                &&& match r.focus {
                    Some(pass) => *filter == Filter::Only(pass.output) && ascending(
                        pass.labels@,
                        labels(shown, labelled),
                    ),
                    None => *filter == Filter::ShowAll,
                }
                &&& r.order@ == order(shown, labelled)
            }),
            final(self)@.consistent(),
            final(self)@ == old(self)@.after_snapshot(windows@, *filter, active),
            // The updates can be carried out in turn, and with what is dropped they lead
            // from the widgets before to the widgets after.
            applicable(r.updates@, old(self)@.buttons, old(self)@.workspace_buttons),
            after(r.updates@, old(self)@.buttons, old(self)@.workspace_buttons).0.difference(
                r.dropped_windows@.to_set(),
            ) == final(self)@.buttons,
            after(r.updates@, old(self)@.buttons, old(self)@.workspace_buttons).1.difference(
                r.dropped_workspaces@.to_set(),
            ) == final(self)@.workspace_buttons,
            // The bar and the labels to check are made up of the widgets after.
            forall|id: u64| #[trigger]
                r.order@.contains(Widget::Window(id)) <==> final(self)@.buttons.contains(id),
            forall|idx: u64| #[trigger]
                r.order@.contains(Widget::Workspace(idx))
                    <==> final(self)@.workspace_buttons.contains(idx),
            r.order@.filter(is_button()) == old(self)@.visible(windows@, *filter, active).map_values(
                |w: Window| Widget::Window(w.id),
            ),
            r.focus matches Some(pass) ==> ascending(
                pass.labels@,
                final(self)@.workspace_buttons,
            ),
    {
        let labelled: bool = self.config.display.workspace_buttons;
        let shown = visible_windows(
            &windows,
            filter,
            self.config.display.filter_by_workspace,
            active,
        );
        let ghost all = shown@.unref();
        let ghost old_buttons = self.buttons@;
        let ghost old_labels = self.workspace_buttons@;

        let mut changes: Vec<Update> = Vec::new();
        let mut has_button: BTreeSet<u64> = self.buttons.clone();
        let mut has_label: BTreeSet<u64> = self.workspace_buttons.clone();
        let mut seen: BTreeSet<u64> = BTreeSet::new();
        let mut seen_workspaces: BTreeSet<u64> = BTreeSet::new();
        let mut i: usize = 0;
        assert(ids(all.take(0)) =~= Set::empty());
        assert(workspaces(all.take(0)) =~= Set::empty());
        assert(old_buttons.union(Set::empty()) =~= old_buttons);
        assert(old_labels.union(Set::empty()) =~= old_labels);
        while i < shown.len()
            invariant
                i <= shown@.len(),
                all == shown@.unref(),
                seen@ == ids(all.take(i as int)),
                seen_workspaces@ == workspaces(all.take(i as int)),
                has_button@ == old_buttons.union(ids(all.take(i as int))),
                labelled ==> has_label@ == old_labels.union(workspaces(all.take(i as int))),
                changes@ == updates(all.take(i as int), labelled, old_buttons, old_labels),
            decreases shown@.len() - i,
        {
            let w: &Window = shown[i];
            proof {
                assert(all.take(i + 1) =~= all.take(i as int).push(*w));
                assert(all.take(i + 1).drop_last() =~= all.take(i as int));
                ids_push(all.take(i as int), *w);
            }
            if labelled && !has_label.contains(&w.workspace_idx) {
                has_label.insert(w.workspace_idx);
                changes.push(Update::AddWorkspace(w.workspace_idx));
            }
            if !has_button.contains(&w.id) {
                has_button.insert(w.id);
                changes.push(Update::AddWindow(w.clone()));
            }
            changes.push(Update::SetFocus(w.id, w.is_focused));
            changes.push(Update::SetTitle(w.id, copy_text(&w.title)));
            seen.insert(w.id);
            seen_workspaces.insert(w.workspace_idx);
            proof {
                assert(changes@ =~= updates(all.take(i + 1), labelled, old_buttons, old_labels));
                assert(has_button@ =~= old_buttons.union(ids(all.take(i + 1))));
                if labelled {
                    assert(has_label@ =~= old_labels.union(workspaces(all.take(i + 1))));
                }
            }
            i = i + 1;
        }
        proof {
            assert(all.take(i as int) =~= all);
            visible_windows_are_in_snapshot(
                windows@,
                *filter,
                self.config.display.filter_by_workspace,
                active,
            );
        }
        if !labelled {
            seen_workspaces = BTreeSet::new();
        }
        let dropped_windows = missing(&self.buttons, &seen);
        let dropped_workspaces = missing(&self.workspace_buttons, &seen_workspaces);
        let focus = match filter.get_output() {
            Some(output) => Some(FocusPass { output, labels: members(&seen_workspaces) }),
            None => None,
        };
        let arranged = widget_order(&shown, labelled);
        proof {
            changes_lead_to_shown_widgets(all, labelled, old_buttons, old_labels);
            bar_holds_kept_widgets(all, labelled);
            bar_holds_windows_in_order(all, labelled);
        }
        self.buttons = seen;
        self.workspace_buttons = seen_workspaces;
        self.last_snapshot = Some(windows);
        SnapshotPlan {
            updates: changes,
            dropped_windows,
            dropped_workspaces,
            focus,
            order: arranged,
        }
    }
}

impl InstanceView {
    /// The ids that are marked for processes, one after the other.
    pub open spec fn urgent_by_pids(self, pids: Seq<i64>) -> Seq<u64>
        decreases pids.len(),
    {
        if pids.len() == 0 {
            Seq::empty()
        } else {
            (match self.urgent_by_pid(pids[0]) {
                Some(id) => seq![id],
                None => Seq::empty(),
            }) + self.urgent_by_pids(pids.skip(1))
        }
    }

    /// All that is marked from `step` on, where the walk goes up through
    /// `parents` and ends there.
    pub open spec fn marked(self, step: (Seq<u64>, Option<Walk>), parents: Seq<i64>) -> Seq<u64>
        decreases parents.len(),
    {
        match step.1 {
            None => step.0,
            Some(walk) => if parents.len() == 0 {
                step.0 + self.walked(walk, None).0
            } else {
                step.0 + self.marked(self.walked(walk, Some(parents[0])), parents.skip(1))
            },
        }
    }
}

/// Over a whole notification the window of the sender and those of its ancestors
/// are marked, in this order. Only where that marks none does the desktop entry
/// decide.
pub proof fn entry_decides_only_without_ancestor(
    state: InstanceView,
    notification: Notification,
    parents: Seq<i64>,
)
    requires
        state.last_snapshot is Some,
        notification.pid is Some,
    ensures
        ({
            let direct = state.urgent_by_pids(seq![notification.pid->0] + parents);
            state.marked(state.notified(notification), parents) == if direct.len() > 0 {
                direct
            } else {
                state.urgent_by_entry(notification.desktop_entry)
            }
        }),
{
    let pid = notification.pid->0;
    walk_marks(state, pid, false, notification.desktop_entry, parents);
    let direct = state.urgent_by_pids(seq![pid] + parents);
    let entry = state.urgent_by_entry(notification.desktop_entry);
    if direct.len() > 0 {
        assert(direct + Seq::<u64>::empty() =~= direct);
    } else {
        assert(direct + entry =~= entry);
    }
}

proof fn walk_marks(
    state: InstanceView,
    pid: i64,
    found: bool,
    entry: Option<String>,
    parents: Seq<i64>,
)
    ensures
        ({
            let direct = state.urgent_by_pids(seq![pid] + parents);
            state.marked(state.visited(pid, found, entry), parents) == direct + (if found
                || direct.len() > 0 {
                Seq::empty()
            } else {
                state.urgent_by_entry(entry)
            })
        }),
    decreases parents.len(),
{
    let pids = seq![pid] + parents;
    let direct = state.urgent_by_pids(pids);
    assert(pids.skip(1) =~= parents);
    let (here, walk) = state.visited(pid, found, entry);
    let rest = if parents.len() == 0 {
        state.walked(walk->0, None).0
    } else {
        state.marked(state.walked(walk->0, Some(parents[0])), parents.skip(1))
    };
    let tail = if found || direct.len() > 0 {
        Seq::empty()
    } else {
        state.urgent_by_entry(entry)
    };
    if parents.len() == 0 {
        assert(state.urgent_by_pids(parents) =~= Seq::empty());
        assert(direct =~= here);
    } else {
        walk_marks(state, parents[0], walk->0.found, entry, parents.skip(1));
        assert(seq![parents[0]] + parents.skip(1) =~= parents);
        assert(direct =~= here + state.urgent_by_pids(parents));
    }
    assert(here + rest =~= direct + tail);
}

/// Whatever a notification is matched by, only windows that have a button are
/// marked, in its first step and in each step up from a process.
pub proof fn only_buttons_are_marked(
    state: InstanceView,
    notification: Notification,
    walk: Walk,
    parent: Option<i64>,
)
    ensures
        forall|k: int|
            0 <= k < state.notified(notification).0.len() ==> state.buttons.contains(
                #[trigger] state.notified(notification).0[k],
            ),
        forall|k: int|
            0 <= k < state.walked(walk, parent).0.len() ==> state.buttons.contains(
                #[trigger] state.walked(walk, parent).0[k],
            ),
{
    entry_marks_buttons(state, notification.desktop_entry);
    entry_marks_buttons(state, walk.desktop_entry);
}

proof fn entry_marks_buttons(state: InstanceView, entry: Option<String>)
    ensures
        forall|k: int|
            0 <= k < state.urgent_by_entry(entry).len() ==> state.buttons.contains(
                #[trigger] state.urgent_by_entry(entry)[k],
            ),
{
    let marked = state.urgent_by_entry(entry);
    assert forall|k: int| 0 <= k < marked.len() implies state.buttons.contains(
        #[trigger] marked[k],
    ) by {
        assert(marked.contains(marked[k]));
        exact_matches_come_first(
            graded(
                state.last_snapshot->0,
                state.config.mapped(entry->0@),
                state.config.use_fuzzy_matching,
            ),
            state.buttons,
            marked[k],
        );
    }
}

/// Before the first snapshot a notification marks nothing.
pub proof fn nothing_is_marked_without_snapshot(state: InstanceView, notification: Notification)
    requires
        state.last_snapshot is None,
    ensures
        state.notified(notification) == (Seq::<u64>::empty(), None::<Walk>),
{
}

/// The active workspace is asked for at every snapshot, whatever the bar has
/// seen before: of the output that the filter names, exactly where the bar
/// follows the active workspace. Bars with one display configuration ask alike.
pub proof fn active_workspace_is_asked_for_at_every_snapshot(
    state: InstanceView,
    other: InstanceView,
    filter: Filter,
    name: String,
)
    ensures
        state.active_query(filter) == Some(name) <==> state.config.display.filter_by_workspace
            && filter == Filter::Only(name),
        state.active_query(filter) is Some <==> state.config.display.filter_by_workspace
            && filter is Only,
        state.config.display == other.config.display ==> state.active_query(filter)
            == other.active_query(filter),
{
}

/// The bar shows windows of the snapshot in its order, each as often as it is
/// there: those at the positions `at`. A position is among them exactly where
/// its window is on the output that the filter names, if it names one, and, if
/// the bar is configured to follow the active workspace of that output and it
/// is known, on that workspace. What the bar showed before does not matter.
pub proof fn bar_shows_windows_in_snapshot_order(
    state: InstanceView,
    windows: Seq<Window>,
    filter: Filter,
    active: Option<u8>,
) -> (at: Seq<int>)
    ensures
        at.len() == state.visible(windows, filter, active).len(),
        forall|j: int, k: int| 0 <= j < k < at.len() ==> at[j] < at[k],
        forall|k: int|
            0 <= k < at.len() ==> 0 <= #[trigger] at[k] < windows.len() && state.visible(
                windows,
                filter,
                active,
            )[k] == windows[at[k]],
        forall|i: int| #[trigger]
            at.contains(i) <==> 0 <= i < windows.len() && (match filter {
                Filter::ShowAll => true,
                Filter::Only(name) => match windows[i].output {
                    Some(output) => output@ == name@,
                    None => name@.len() == 0,
                },
            }) && (state.config.display.filter_by_workspace && filter is Only && active is Some
                ==> windows[i].workspace_idx == active->0),
{
    visible_windows_keep_their_order(
        windows,
        filter,
        state.config.display.filter_by_workspace,
        active,
    )
}

/// On reaching a process, the last window of the last snapshot that names it is
/// marked exactly where it is not focused and has a button. Without such a
/// window nothing is marked.
pub proof fn window_of_process_is_marked(
    state: InstanceView,
    windows: Seq<Window>,
    pid: i64,
    i: int,
)
    requires
        state.last_snapshot == Some(windows),
    ensures
        0 <= i < windows.len() && windows[i].pid is Some && windows[i].pid->0 == pid && (forall|
            j: int,
        |
            i < j < windows.len() && (#[trigger] windows[j]).pid is Some ==> windows[j].pid->0
                != pid) ==> state.urgent_by_pid(pid) == (if !windows[i].is_focused
            && state.buttons.contains(windows[i].id) {
            Some(windows[i].id)
        } else {
            None
        }),
        (forall|j: int|
            0 <= j < windows.len() && (#[trigger] windows[j]).pid is Some ==> windows[j].pid->0
                != pid) ==> state.urgent_by_pid(pid) is None,
{
    unfocused_window_of_process_is_marked(windows, state.buttons, pid, i);
}

/// Some window with a button has `wanted` as its application id.
pub open spec fn has_equal_id(state: InstanceView, windows: Seq<Window>, wanted: Seq<char>) -> bool {
    exists|i: int|
        0 <= i < windows.len() && (#[trigger] windows[i]).app_id is Some
            && windows[i].app_id->0@ == wanted && state.buttons.contains(windows[i].id)
}

/// A desktop entry marks windows of the last snapshot in its order: those at the
/// positions `at`. A window is among them exactly where it has a button and its
/// application id is the one that is looked for or, if no window with a button
/// has that id and fuzzy matching is on, agrees with it in lowercase, as a whole
/// or in what follows the last dot. What is looked for is the id that the entry
/// is mapped to, or else the entry itself.
pub proof fn entry_marks_matching_windows(
    state: InstanceView,
    windows: Seq<Window>,
    entry: String,
    wanted: Seq<char>,
) -> (at: Seq<int>)
    requires
        state.last_snapshot == Some(windows),
        state.config.use_desktop_entry,
        state.config.app_map@.contains_key(entry@) ==> wanted
            == state.config.app_map@[entry@]@,
        !state.config.app_map@.contains_key(entry@) ==> wanted == entry@,
    ensures
        at.len() == state.urgent_by_entry(Some(entry)).len(),
        forall|j: int, k: int| 0 <= j < k < at.len() ==> at[j] < at[k],
        forall|k: int|
            0 <= k < at.len() ==> 0 <= #[trigger] at[k] < windows.len() && state.urgent_by_entry(
                Some(entry),
            )[k] == windows[at[k]].id,
        forall|i: int| #[trigger]
            at.contains(i) <==> 0 <= i < windows.len() && state.buttons.contains(windows[i].id)
                && windows[i].app_id is Some && (if has_equal_id(state, windows, wanted) {
                windows[i].app_id->0@ == wanted
            } else {
                state.config.use_fuzzy_matching && (lowercase(windows[i].app_id->0@) == lowercase(
                    wanted,
                ) || lowercase(tail(windows[i].app_id->0@)) == lowercase(tail(wanted)))
            }),
{
    let candidates = graded(windows, wanted, state.config.use_fuzzy_matching);
    let at = marks_keep_the_order_of_candidates(candidates, state.buttons);
    let exact = exists|j: int|
        0 <= j < candidates.len() && (#[trigger] candidates[j]).1 == MatchKind::Exact
            && state.buttons.contains(candidates[j].0);
    assert(exact == has_equal_id(state, windows, wanted)) by {
        if exact {
            let j = choose|j: int|
                0 <= j < candidates.len() && (#[trigger] candidates[j]).1 == MatchKind::Exact
                    && state.buttons.contains(candidates[j].0);
            assert(windows[j].app_id is Some);
        }
        if has_equal_id(state, windows, wanted) {
            let j = choose|i: int|
                0 <= i < windows.len() && (#[trigger] windows[i]).app_id is Some
                    && windows[i].app_id->0@ == wanted && state.buttons.contains(windows[i].id);
            assert(candidates[j].1 == MatchKind::Exact);
        }
    }
    assert forall|i: int| 0 <= i < windows.len() implies (#[trigger] candidates[i]) == (
        windows[i].id,
        window_match(windows[i], wanted, state.config.use_fuzzy_matching),
    ) by {}
    assert forall|i: int| #[trigger]
        at.contains(i) <==> 0 <= i < windows.len() && state.buttons.contains(windows[i].id)
            && windows[i].app_id is Some && (if has_equal_id(state, windows, wanted) {
            windows[i].app_id->0@ == wanted
        } else {
            state.config.use_fuzzy_matching && (lowercase(windows[i].app_id->0@) == lowercase(
                wanted,
            ) || lowercase(tail(windows[i].app_id->0@)) == lowercase(tail(wanted)))
        }) by {
        if 0 <= i < windows.len() {
            assert(candidates[i].0 == windows[i].id);
            if !has_equal_id(state, windows, wanted) && windows[i].app_id is Some
                && state.buttons.contains(windows[i].id) {
                assert(windows[i].app_id->0@ != wanted);
            }
        }
    }
    at
}

/// Nothing is marked for a desktop entry that is not there, or while entries are
/// not to be used, or before the first snapshot.
pub proof fn unused_entry_marks_nothing(state: InstanceView, entry: Option<String>)
    requires
        entry is None || !state.config.use_desktop_entry || state.last_snapshot is None,
    ensures
        state.urgent_by_entry(entry).len() == 0,
{
}

/// How a notification is dealt with, step by step. Each process that is reached
/// gets its window marked, and the walk goes on from that very process, keeping
/// the desktop entry and whether something was marked. When there is no parent
/// left the walk ends, and the desktop entry decides exactly where nothing was
/// marked. Without a sender the entry decides at once.
pub proof fn walk_goes_on_from_process_reached(
    state: InstanceView,
    notification: Notification,
    walk: Walk,
    pid: i64,
)
    requires
        state.last_snapshot is Some,
    ensures
        ({
            let (urgent, next) = state.walked(walk, Some(pid));
            &&& state.urgent_by_pid(pid) matches Some(id) ==> urgent == seq![id]
            &&& state.urgent_by_pid(pid) is None ==> urgent.len() == 0
            &&& next is Some
            &&& next->0.pid == pid
            &&& next->0.desktop_entry == walk.desktop_entry
            &&& next->0.found <==> walk.found || urgent.len() > 0
        }),
        state.walked(walk, None).1 is None,
        walk.found ==> state.walked(walk, None).0.len() == 0,
        !walk.found ==> state.walked(walk, None).0 == state.urgent_by_entry(walk.desktop_entry),
        notification.pid == Some(pid) ==> state.notified(notification) == state.walked(
            Walk { pid, found: false, desktop_entry: notification.desktop_entry },
            Some(pid),
        ),
        notification.pid is None ==> state.notified(notification).1 is None && state.notified(
            notification,
        ).0 == state.urgent_by_entry(notification.desktop_entry),
{
}

/// A snapshot is remembered as it came, with what the bar does not show. It
/// leaves a button for exactly the visible windows and, if labels are wanted, a
/// label for exactly their workspaces, whatever was there before.
pub proof fn snapshot_leaves_what_is_visible(
    state: InstanceView,
    windows: Seq<Window>,
    filter: Filter,
    active: Option<u8>,
    x: u64,
)
    ensures
        ({
            let next = state.after_snapshot(windows, filter, active);
            let shown = state.visible(windows, filter, active);
            &&& next.config == state.config
            &&& next.last_snapshot == Some(windows)
            &&& next.buttons.contains(x) <==> exists|i: int|
                0 <= i < shown.len() && (#[trigger] shown[i]).id == x
            &&& next.workspace_buttons.contains(x) <==> state.config.display.workspace_buttons
                && exists|i: int|
                0 <= i < shown.len() && (#[trigger] shown[i]).workspace_idx == x
        }),
{
    widgets_stand_for_windows(
        state.visible(windows, filter, active),
        state.config.display.workspace_buttons,
        x,
    );
}

} // verus!
