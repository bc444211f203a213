use niri_taskbar::config::{Config, DisplayVars, TaskbarOrientation};
use niri_taskbar::instance::{Event, Instance, NotifyStep, Step, Walk};
use niri_taskbar::notify::{
    classify, find_by_pid, grade, select, AppId, MatchKind, Notification,
};
use niri_taskbar::output::Filter;
use niri_taskbar::window::Window;
use std::collections::BTreeSet;

fn config(use_desktop_entry: bool, use_fuzzy_matching: bool) -> Config {
    Config::new(
        TaskbarOrientation::Horizontal,
        DisplayVars {
            filter_by_output: false,
            filter_by_workspace: false,
            workspace_buttons: false,
        },
        use_desktop_entry,
        use_fuzzy_matching,
    )
}

fn window(id: u64, pid: i32, app_id: Option<&str>, is_focused: bool) -> Window {
    Window {
        id,
        pid: Some(pid),
        app_id: app_id.map(|s| s.to_string()),
        title: None,
        is_focused,
        output: Some("DP-1".to_string()),
        workspace_idx: 1,
    }
}

fn windows() -> Vec<Window> {
    vec![
        window(1, 100, Some("firefox"), false),
        window(2, 200, Some("org.gnome.Nautilus"), true),
        window(3, 300, Some("FireFox"), false),
        window(4, 400, None, false),
    ]
}

fn started(config: Config) -> Instance {
    let mut i = Instance::new(config);
    i.process_window_snapshot(windows(), &Filter::ShowAll, None);
    i
}

fn notification(pid: Option<i64>, desktop_entry: Option<&str>) -> Notification {
    Notification {
        pid,
        desktop_entry: desktop_entry.map(|s| s.to_string()),
    }
}

fn done(urgent: Vec<u64>) -> NotifyStep {
    NotifyStep { urgent, walk: None }
}

fn app(id: &str) -> AppId {
    AppId::new(&id.to_string())
}

#[test]
fn nothing_is_marked_before_the_first_snapshot() {
    let i = Instance::new(config(true, true));
    assert_eq!(
        i.process_notification(notification(Some(100), Some("firefox"))),
        done(Vec::new())
    );
}

#[test]
fn sender_is_marked_and_its_ancestors_are_visited() {
    let i = started(config(true, true));
    let step = i.process_notification(notification(Some(100), Some("org.gnome.Nautilus")));
    assert_eq!(step.urgent, vec![1]);
    let walk = step.walk.unwrap();
    assert_eq!((walk.pid, walk.found), (100, true));
    let step = i.walk_up(walk, Some(300));
    assert_eq!(step.urgent, vec![3]);
    let step = i.walk_up(step.walk.unwrap(), Some(1));
    assert_eq!(step.urgent, Vec::<u64>::new());
    // Something was marked on the way, so the desktop entry is not looked at.
    assert_eq!(i.walk_up(step.walk.unwrap(), None), done(Vec::new()));
}

#[test]
fn entry_decides_where_no_ancestor_has_a_window() {
    let i = started(config(true, true));
    let step = i.process_notification(notification(Some(5000), Some("firefox")));
    assert_eq!(
        step,
        NotifyStep {
            urgent: Vec::new(),
            walk: Some(Walk {
                pid: 5000,
                found: false,
                desktop_entry: Some("firefox".to_string()),
            }),
        }
    );
    let step = i.walk_up(step.walk.unwrap(), Some(4999));
    assert_eq!(step.urgent, Vec::<u64>::new());
    assert_eq!(i.walk_up(step.walk.unwrap(), None), done(vec![1]));
}

#[test]
fn focused_window_is_not_marked_by_pid() {
    let i = started(config(true, false));
    let step = i.process_notification(notification(Some(200), None));
    assert_eq!(step.urgent, Vec::<u64>::new());
    assert!(!step.walk.unwrap().found);
    let buttons: BTreeSet<u64> = [1, 2].into_iter().collect();
    assert_eq!(find_by_pid(&windows(), &buttons, 100), Some(1));
    assert_eq!(find_by_pid(&windows(), &buttons, 200), None);
    assert_eq!(find_by_pid(&windows(), &buttons, 300), None);
}

#[test]
fn entry_decides_where_the_sender_is_unknown() {
    let i = started(config(true, true));
    let marked = |entry: Option<&str>| i.process_notification(notification(None, entry));
    assert_eq!(marked(Some("firefox")), done(vec![1]));
    assert_eq!(marked(Some("FIREFOX")), done(vec![1, 3]));
    assert_eq!(marked(Some("nautilus")), done(vec![2]));
    assert_eq!(marked(Some("org.gnome.Nautilus")), done(vec![2]));
    assert_eq!(marked(Some("org.mozilla.firefox")), done(vec![1, 3]));
    assert_eq!(marked(Some("org.mozilla.Firefox")), done(vec![1, 3]));
    assert_eq!(marked(Some("thunderbird")), done(Vec::new()));
    assert_eq!(marked(None), done(Vec::new()));
}

#[test]
fn fuzzy_matching_can_be_switched_off() {
    let i = started(config(true, false));
    let marked = |entry: &str| i.process_notification(notification(None, Some(entry)));
    assert_eq!(marked("firefox"), done(vec![1]));
    assert_eq!(marked("FIREFOX"), done(Vec::new()));
    assert_eq!(marked("nautilus"), done(Vec::new()));
}

#[test]
fn desktop_entries_can_be_switched_off() {
    let i = started(config(false, true));
    assert_eq!(
        i.process_notification(notification(None, Some("firefox"))),
        done(Vec::new())
    );
}

#[test]
fn mapped_entry_is_looked_for_instead() {
    let mut c = config(true, false);
    c.map_app("mail".to_string(), "thunderbird".to_string());
    c.map_app("mail".to_string(), "firefox".to_string());
    assert_eq!(c.notifications_app_map("mail"), Some(&"firefox".to_string()));
    assert_eq!(c.notifications_app_map("firefox"), None);
    let i = started(c);
    assert_eq!(
        i.process_notification(notification(None, Some("mail"))),
        done(vec![1])
    );
    assert_eq!(
        i.process_notification(notification(None, Some("firefox"))),
        done(vec![1])
    );
}

#[test]
fn windows_without_a_button_are_passed_over() {
    let mut i = Instance::new(config(true, true));
    i.process_window_snapshot(windows(), &Filter::Only("DP-2".to_string()), None);
    let step = i.process_notification(notification(Some(100), Some("firefox")));
    assert_eq!(step.urgent, Vec::<u64>::new());
    assert_eq!(i.walk_up(step.walk.unwrap(), None), done(Vec::new()));
}

#[test]
fn application_ids_are_classified() {
    let kind = |a: &str, w: &str, fuzzy: bool| classify(&app(a), &app(w), fuzzy);
    assert_eq!(kind("a.b", "a.b", false), MatchKind::Exact);
    assert_eq!(kind("A.B", "a.b", true), MatchKind::Fuzzy);
    assert_eq!(kind("A.B", "a.b", false), MatchKind::Miss);
    assert_eq!(kind("x.B", "a.b", true), MatchKind::Fuzzy);
    assert_eq!(kind("x.B", "b", true), MatchKind::Fuzzy);
    // An id without a dot is its own last component.
    assert_eq!(kind("b", "a.B", true), MatchKind::Fuzzy);
    assert_eq!(kind("b", "a.B", false), MatchKind::Miss);
    assert_eq!(kind("a", "a.b", true), MatchKind::Miss);
    assert_eq!(kind("x.c", "a.b", true), MatchKind::Miss);
    assert_eq!(kind("ÄÖ", "äö", true), MatchKind::Fuzzy);
    assert_eq!(app("Org.Ä").lower, "org.ä");
    assert_eq!(app("Org.Ä").tail_lower, "ä");
}

#[test]
fn windows_are_graded_in_order() {
    assert_eq!(
        grade(&windows(), &"firefox".to_string(), true),
        vec![
            (1, MatchKind::Exact),
            (2, MatchKind::Miss),
            (3, MatchKind::Fuzzy),
            (4, MatchKind::Miss),
        ]
    );
}

#[test]
fn exact_matches_with_a_button_come_first() {
    let candidates = vec![
        (1, MatchKind::Fuzzy),
        (2, MatchKind::Exact),
        (3, MatchKind::Miss),
        (4, MatchKind::Exact),
        (5, MatchKind::Fuzzy),
    ];
    let set = |ids: &[u64]| -> BTreeSet<u64> { ids.iter().copied().collect() };
    assert_eq!(select(&candidates, &set(&[1, 2, 3, 4, 5])), vec![2, 4]);
    assert_eq!(select(&candidates, &set(&[1, 4])), vec![4]);
    assert_eq!(select(&candidates, &set(&[1, 3, 5])), vec![1, 5]);
    assert_eq!(select(&candidates, &set(&[3])), Vec::<u64>::new());
}

#[test]
fn events_lead_to_their_steps() {
    let i = started(config(true, true));
    assert_eq!(
        i.task(
            Event::Notification(notification(None, Some("firefox"))),
            &Filter::ShowAll
        ),
        Step::Notify(done(vec![1]))
    );
}

#[test]
fn last_components_match_without_a_dot_in_the_application_id() {
    let mut i = Instance::new(config(true, true));
    i.process_window_snapshot(
        vec![window(1, 100, Some("firefox"), false)],
        &Filter::ShowAll,
        None,
    );
    assert_eq!(
        i.process_notification(notification(None, Some("org.mozilla.Firefox"))),
        done(vec![1])
    );
}
