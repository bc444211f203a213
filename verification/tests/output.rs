use niri_taskbar::config::{Config, DisplayVars, TaskbarOrientation};
use niri_taskbar::instance::Instance;
use niri_taskbar::output::{choose_filter, Filter, FilterEvent, FilterStep};

fn instance(filter_by_output: bool) -> Instance {
    Instance::new(Config::new(
        TaskbarOrientation::Horizontal,
        DisplayVars {
            filter_by_output,
            filter_by_workspace: false,
            workspace_buttons: false,
        },
        true,
        true,
    ))
}

fn compared(outputs: &[(&str, bool)]) -> Vec<(String, bool)> {
    outputs.iter().map(|(n, b)| (n.to_string(), *b)).collect()
}

#[test]
fn filter_shows_what_it_names() {
    assert!(Filter::ShowAll.should_show("DP-1"));
    assert!(Filter::ShowAll.should_show(""));
    let only = Filter::Only("DP-1".to_string());
    assert!(only.should_show("DP-1"));
    assert!(!only.should_show("DP-2"));
    assert!(!only.should_show(""));
    assert_eq!(only.get_output(), Some("DP-1".to_string()));
    assert_eq!(Filter::ShowAll.get_output(), None);
}

#[test]
fn unfiltered_bar_asks_nothing() {
    assert_eq!(
        instance(false).build_output_filter(FilterEvent::Start),
        FilterStep::Done(Filter::ShowAll)
    );
}

#[test]
fn filter_is_built_step_by_step() {
    let i = instance(true);
    assert_eq!(i.build_output_filter(FilterEvent::Start), FilterStep::FetchOutputs);
    assert_eq!(i.build_output_filter(FilterEvent::Outputs(2)), FilterStep::FindMonitor);
    assert_eq!(i.build_output_filter(FilterEvent::Outputs(0)), FilterStep::FindMonitor);
    let outputs = compared(&[("DP-1", false), ("DP-2", true), ("DP-3", true)]);
    assert_eq!(
        i.build_output_filter(FilterEvent::Compared(outputs)),
        FilterStep::Done(Filter::Only("DP-2".to_string()))
    );
}

#[test]
fn everything_is_shown_where_the_output_is_unknown() {
    let i = instance(true);
    for event in [
        FilterEvent::OutputsUnavailable,
        FilterEvent::Outputs(1),
        FilterEvent::MonitorUnavailable,
        FilterEvent::Compared(compared(&[("DP-1", false), ("DP-2", false)])),
        FilterEvent::Compared(Vec::new()),
    ] {
        assert_eq!(i.build_output_filter(event), FilterStep::Done(Filter::ShowAll));
    }
}

#[test]
fn first_agreeing_output_is_chosen() {
    assert_eq!(
        choose_filter(&compared(&[("a", true), ("b", true)])),
        Filter::Only("a".to_string())
    );
    assert_eq!(choose_filter(&compared(&[("a", false)])), Filter::ShowAll);
}
