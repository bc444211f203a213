use niri_taskbar::window::{PidWindowMap, Window};

fn window(id: u64, pid: Option<i32>) -> Window {
    Window {
        id,
        pid,
        app_id: None,
        title: None,
        is_focused: false,
        output: None,
        workspace_idx: 1,
    }
}

#[test]
fn windows_are_found_by_pid() {
    let windows = vec![window(1, Some(10)), window(2, None), window(3, Some(30))];
    let map = PidWindowMap::new(&windows);
    assert_eq!(map.get(10), Some(&windows[0]));
    assert_eq!(map.get(30), Some(&windows[2]));
    assert_eq!(map.get(0), None);
    assert_eq!(map.get(20), None);
}

#[test]
fn last_window_of_a_process_counts() {
    let windows = vec![window(1, Some(10)), window(2, Some(10)), window(3, None)];
    let map = PidWindowMap::new(&windows);
    assert_eq!(map.get(10).map(|w| w.id), Some(2));
}

#[test]
fn negative_pids_keep_their_sign() {
    let windows = vec![window(1, Some(-1))];
    let map = PidWindowMap::new(&windows);
    assert_eq!(map.get(-1).map(|w| w.id), Some(1));
    assert_eq!(map.get(4294967295), None);
}

#[test]
fn output_defaults_to_empty() {
    let mut w = window(1, None);
    assert_eq!(w.output_or_default(), "");
    w.output = Some("DP-1".to_string());
    assert_eq!(w.output_or_default(), "DP-1");
    assert_eq!(w.clone(), w);
}
