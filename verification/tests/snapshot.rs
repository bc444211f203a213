use niri_taskbar::config::{Config, DisplayVars, TaskbarOrientation};
use niri_taskbar::instance::{Event, FocusPass, Instance, Step};
use niri_taskbar::layout::{
    activation_index, label_focus, members, missing, visible_windows, widget_order, Update, Widget,
};
use niri_taskbar::output::Filter;
use niri_taskbar::window::Window;
use std::collections::BTreeSet;

fn instance(filter_by_workspace: bool, workspace_buttons: bool) -> Instance {
    Instance::new(Config::new(
        TaskbarOrientation::Vertical,
        DisplayVars {
            filter_by_output: true,
            filter_by_workspace,
            workspace_buttons,
        },
        false,
        false,
    ))
}

fn window(id: u64, output: &str, workspace_idx: u64) -> Window {
    Window {
        id,
        pid: None,
        app_id: None,
        title: Some(format!("window {}", id)),
        is_focused: id == 2,
        output: Some(output.to_string()),
        workspace_idx,
    }
}

fn windows() -> Vec<Window> {
    vec![
        window(5, "DP-1", 2),
        window(2, "DP-1", 1),
        window(9, "DP-2", 1),
        window(7, "DP-1", 2),
    ]
}

fn only(name: &str) -> Filter {
    Filter::Only(name.to_string())
}

fn touch(w: &Window) -> Vec<Update> {
    vec![
        Update::SetFocus(w.id, w.is_focused),
        Update::SetTitle(w.id, w.title.clone()),
    ]
}

#[test]
fn filter_and_active_workspace_decide_what_is_visible() {
    let all = windows();
    let shown = |filter: Filter, by_workspace: bool, active: Option<u8>| -> Vec<u64> {
        visible_windows(&all, &filter, by_workspace, active)
            .iter()
            .map(|w| w.id)
            .collect()
    };
    assert_eq!(shown(Filter::ShowAll, false, None), vec![5, 2, 9, 7]);
    assert_eq!(shown(only("DP-1"), false, Some(1)), vec![5, 2, 7]);
    assert_eq!(shown(only("DP-1"), true, Some(2)), vec![5, 7]);
    assert_eq!(shown(only("DP-1"), true, Some(4)), Vec::<u64>::new());
    assert_eq!(shown(only("DP-1"), true, None), vec![5, 2, 7]);
    assert_eq!(shown(Filter::ShowAll, true, Some(2)), vec![5, 2, 9, 7]);
    assert_eq!(shown(only("DP-3"), false, None), Vec::<u64>::new());
}

#[test]
fn windows_on_no_output_have_an_empty_name() {
    let mut w = window(1, "", 1);
    w.output = None;
    let all = vec![w];
    assert_eq!(visible_windows(&all, &Filter::ShowAll, false, None).len(), 1);
    assert_eq!(visible_windows(&all, &only(""), false, None).len(), 1);
    assert_eq!(visible_windows(&all, &only("DP-1"), false, None).len(), 0);
}

#[test]
fn labels_precede_the_first_window_of_their_workspace() {
    let all = windows();
    let shown = visible_windows(&all, &Filter::ShowAll, false, None);
    assert_eq!(
        widget_order(&shown, true),
        vec![
            Widget::Workspace(2),
            Widget::Window(5),
            Widget::Workspace(1),
            Widget::Window(2),
            Widget::Window(9),
            Widget::Window(7),
        ]
    );
    assert_eq!(
        widget_order(&shown, false),
        vec![
            Widget::Window(5),
            Widget::Window(2),
            Widget::Window(9),
            Widget::Window(7),
        ]
    );
}

#[test]
fn first_snapshot_makes_every_widget() {
    let mut i = instance(false, true);
    let all = windows();
    let plan = i.process_window_snapshot(windows(), &Filter::ShowAll, None);
    let mut expected = vec![Update::AddWorkspace(2), Update::AddWindow(all[0].clone())];
    expected.extend(touch(&all[0]));
    expected.push(Update::AddWorkspace(1));
    expected.push(Update::AddWindow(all[1].clone()));
    expected.extend(touch(&all[1]));
    expected.push(Update::AddWindow(all[2].clone()));
    expected.extend(touch(&all[2]));
    expected.push(Update::AddWindow(all[3].clone()));
    expected.extend(touch(&all[3]));
    assert_eq!(plan.updates, expected);
    assert_eq!(plan.dropped_windows, Vec::<u64>::new());
    assert_eq!(plan.dropped_workspaces, Vec::<u64>::new());
    assert_eq!(plan.focus, None);
    assert_eq!(plan.order.len(), 6);
}

#[test]
fn repeated_snapshot_only_updates() {
    let mut i = instance(false, true);
    let first = i.process_window_snapshot(windows(), &only("DP-1"), None);
    let second = i.process_window_snapshot(windows(), &only("DP-1"), None);
    let all = windows();
    let mut expected = touch(&all[0]);
    expected.extend(touch(&all[1]));
    expected.extend(touch(&all[3]));
    assert_eq!(second.updates, expected);
    assert_eq!(second.dropped_windows, Vec::<u64>::new());
    assert_eq!(second.dropped_workspaces, Vec::<u64>::new());
    assert_eq!(second.order, first.order);
    assert_eq!(
        second.focus,
        Some(FocusPass {
            output: "DP-1".to_string(),
            labels: vec![1, 2],
        })
    );
}

#[test]
fn missing_windows_are_dropped_in_ascending_order() {
    let mut i = instance(false, true);
    i.process_window_snapshot(windows(), &Filter::ShowAll, None);
    let plan = i.process_window_snapshot(vec![window(2, "DP-1", 3)], &Filter::ShowAll, None);
    assert_eq!(plan.dropped_windows, vec![5, 7, 9]);
    assert_eq!(plan.dropped_workspaces, vec![1, 2]);
    let mut expected = vec![Update::AddWorkspace(3)];
    expected.extend(touch(&window(2, "DP-1", 3)));
    assert_eq!(plan.updates, expected);
    assert_eq!(plan.order, vec![Widget::Workspace(3), Widget::Window(2)]);
}

#[test]
fn without_labels_there_are_only_buttons() {
    let mut i = instance(true, false);
    let plan = i.process_window_snapshot(windows(), &only("DP-1"), Some(2));
    assert_eq!(plan.order, vec![Widget::Window(5), Widget::Window(7)]);
    assert_eq!(plan.updates.len(), 6);
    assert_eq!(
        plan.focus,
        Some(FocusPass {
            output: "DP-1".to_string(),
            labels: Vec::new(),
        })
    );
}

#[test]
fn snapshot_without_windows_empties_the_bar() {
    let mut i = instance(false, true);
    i.process_window_snapshot(windows(), &Filter::ShowAll, None);
    let plan = i.process_window_snapshot(Vec::new(), &Filter::ShowAll, None);
    assert_eq!(plan.updates, Vec::new());
    assert_eq!(plan.dropped_windows, vec![2, 5, 7, 9]);
    assert_eq!(plan.dropped_workspaces, vec![1, 2]);
    assert_eq!(plan.order, Vec::new());
}

#[test]
fn window_listed_twice_gets_one_button() {
    let mut i = instance(false, false);
    let plan = i.process_window_snapshot(
        vec![window(1, "DP-1", 1), window(1, "DP-1", 1)],
        &Filter::ShowAll,
        None,
    );
    assert_eq!(plan.updates.len(), 5);
    assert_eq!(plan.order, vec![Widget::Window(1), Widget::Window(1)]);
}

#[test]
fn active_workspace_is_asked_for_only_where_it_decides() {
    let dp1 = only("DP-1");
    assert_eq!(instance(true, false).active_query(&dp1), Some("DP-1".to_string()));
    assert_eq!(instance(true, false).active_query(&Filter::ShowAll), None);
    assert_eq!(instance(false, false).active_query(&dp1), None);
    assert_eq!(
        instance(true, false).task(Event::WindowSnapshot(windows()), &dp1),
        Step::Snapshot {
            windows: windows(),
            ask: Some("DP-1".to_string()),
        }
    );
    assert_eq!(
        instance(true, false).task(Event::Workspaces, &dp1),
        Step::RebuildFilter
    );
}

#[test]
fn label_of_the_active_workspace_is_focused() {
    assert_eq!(label_focus(2, Some(2)), Some(true));
    assert_eq!(label_focus(3, Some(2)), Some(false));
    assert_eq!(label_focus(258, Some(2)), Some(false));
    assert_eq!(label_focus(2, None), None);
}

#[test]
fn index_keeps_the_lowest_byte() {
    assert_eq!(activation_index(3), 3);
    assert_eq!(activation_index(255), 255);
    assert_eq!(activation_index(256), 0);
    assert_eq!(activation_index(300), 44);
}

#[test]
fn listings_are_ascending() {
    let set: BTreeSet<u64> = [9, 1, 5, 3].into_iter().collect();
    let kept: BTreeSet<u64> = [5, 8].into_iter().collect();
    assert_eq!(members(&set), vec![1, 3, 5, 9]);
    assert_eq!(missing(&set, &kept), vec![1, 3, 9]);
    assert_eq!(missing(&kept, &kept), Vec::<u64>::new());
}

#[test]
fn changes_can_be_carried_out_in_turn() {
    let mut i = instance(false, true);
    let mut buttons: BTreeSet<u64> = BTreeSet::new();
    let mut labels: BTreeSet<u64> = BTreeSet::new();
    let snapshots = vec![
        windows(),
        vec![window(2, "DP-1", 2), window(11, "DP-2", 4)],
        Vec::new(),
        vec![window(11, "DP-2", 4), window(2, "DP-1", 4)],
    ];
    for snapshot in snapshots {
        let plan = i.process_window_snapshot(snapshot, &Filter::ShowAll, None);
        for update in plan.updates {
            match update {
                Update::AddWorkspace(idx) => assert!(labels.insert(idx)),
                Update::AddWindow(w) => assert!(buttons.insert(w.id)),
                Update::SetFocus(id, _) => assert!(buttons.contains(&id)),
                Update::SetTitle(id, _) => assert!(buttons.contains(&id)),
            }
        }
        for id in plan.dropped_windows {
            assert!(buttons.remove(&id));
        }
        for idx in plan.dropped_workspaces {
            assert!(labels.remove(&idx));
        }
        let mut shown_buttons: BTreeSet<u64> = BTreeSet::new();
        let mut shown_labels: BTreeSet<u64> = BTreeSet::new();
        for widget in plan.order {
            match widget {
                Widget::Workspace(idx) => assert!(shown_labels.insert(idx)),
                Widget::Window(id) => assert!(shown_buttons.insert(id)),
            }
        }
        assert_eq!(shown_buttons, buttons);
        assert_eq!(shown_labels, labels);
    }
}
