//! Restricting a bar to the windows of one output.

use vstd::prelude::*;

verus! {

/// Which outputs a bar shows windows of.
#[derive(Debug, PartialEq, Eq)]
pub enum Filter {
    ShowAll,
    Only(String),
}

impl Filter {
    /// Whether windows on the output called `output` are shown.
    pub open spec fn shows(self, output: Seq<char>) -> bool {
        match self {
            Filter::ShowAll => true,
            Filter::Only(name) => name@ == output,
        }
    }

    /// The one output that is shown.
    pub open spec fn sole_output(self) -> Option<String> {
        match self {
            Filter::ShowAll => None,
            Filter::Only(name) => Some(name),
        }
    }

    /// Whether windows on the output called `output` are shown.
    pub fn should_show(&self, output: &str) -> (r: bool)
        ensures
            r == self.shows(output@),
    {
        match self {
            Filter::ShowAll => true,
            Filter::Only(name) => *name == output.to_owned(),
        }
    }

    /// The one output that is shown.
    pub fn get_output(&self) -> (r: Option<String>)
        ensures
            r == self.sole_output(),
    {
        match self {
            Filter::ShowAll => None,
            Filter::Only(name) => Some(name.clone()),
        }
    }
}

/// What was learnt while the filter is being built.
#[derive(Debug, PartialEq, Eq)]
pub enum FilterEvent {
    /// Nothing yet.
    Start,
    /// The compositor did not tell its outputs.
    OutputsUnavailable,
    /// The compositor has that many outputs.
    Outputs(usize),
    /// The bar's window is not on a known monitor.
    MonitorUnavailable,
    /// The outputs by name, each with whether all that is known of it agrees
    /// with the bar's monitor.
    Compared(Vec<(String, bool)>),
}

/// What to do next to build the filter.
#[derive(Debug, PartialEq, Eq)]
pub enum FilterStep {
    /// Ask the compositor for its outputs.
    FetchOutputs,
    /// Find the bar's monitor and compare each output with it.
    FindMonitor,
    /// The filter is known.
    Done(Filter),
}

/// The filter that `compared` leads to: the first output that agrees with the
/// monitor, or every output where none does.
pub open spec fn chosen_filter(compared: Seq<(String, bool)>) -> Filter
    decreases compared.len(),
{
    if compared.len() == 0 {
        Filter::ShowAll
    } else if compared[0].1 {
        Filter::Only(compared[0].0)
    } else {
        chosen_filter(compared.skip(1))
    }
}

/// What to do after `event`.
pub open spec fn filter_step(filter_by_output: bool, event: FilterEvent) -> FilterStep {
    match event {
        FilterEvent::Start => if filter_by_output {
            FilterStep::FetchOutputs
        } else {
            FilterStep::Done(Filter::ShowAll)
        },
        FilterEvent::OutputsUnavailable => FilterStep::Done(Filter::ShowAll),
        FilterEvent::Outputs(count) => if count == 1 {
            FilterStep::Done(Filter::ShowAll)
        } else {
            FilterStep::FindMonitor
        },
        FilterEvent::MonitorUnavailable => FilterStep::Done(Filter::ShowAll),
        FilterEvent::Compared(compared) => FilterStep::Done(chosen_filter(compared@)),
    }
}

/// The filter that comes out of building it, where `outputs` is the number of
/// outputs if the compositor tells it, and `compared` how they compare with the
/// bar's monitor if that is known.
pub open spec fn built_filter(
    filter_by_output: bool,
    outputs: Option<usize>,
    compared: Option<Vec<(String, bool)>>,
) -> Option<Filter> {
    let fetched = match outputs {
        Some(count) => FilterEvent::Outputs(count),
        None => FilterEvent::OutputsUnavailable,
    };
    let found = match compared {
        Some(c) => FilterEvent::Compared(c),
        None => FilterEvent::MonitorUnavailable,
    };
    match filter_step(filter_by_output, FilterEvent::Start) {
        FilterStep::Done(filter) => Some(filter),
        FilterStep::FindMonitor => None,
        FilterStep::FetchOutputs => match filter_step(filter_by_output, fetched) {
            FilterStep::Done(filter) => Some(filter),
            FilterStep::FetchOutputs => None,
            FilterStep::FindMonitor => match filter_step(filter_by_output, found) {
                FilterStep::Done(filter) => Some(filter),
                _ => None,
            },
        },
    }
}

/// Building the filter always ends with one. It shows every output, unless the
/// user asked for one output only, the compositor told its outputs and there
/// is not exactly one, and the bar's monitor agrees with an output.
pub proof fn building_ends_with_filter(
    filter_by_output: bool,
    outputs: Option<usize>,
    compared: Option<Vec<(String, bool)>>,
)
    ensures
        built_filter(filter_by_output, outputs, compared) == Some(
            if filter_by_output && outputs is Some && outputs->0 != 1 && compared is Some {
                chosen_filter(compared->0@)
            } else {
                Filter::ShowAll
            },
        ),
{
}

/// The filter for outputs that were compared with the bar's monitor.
pub fn choose_filter(compared: &Vec<(String, bool)>) -> (r: Filter)
    ensures
        r == chosen_filter(compared@),
{
    let mut i: usize = 0;
    assert(compared@.skip(0) =~= compared@);
    while i < compared.len()
        invariant
            i <= compared@.len(),
            chosen_filter(compared@) == chosen_filter(compared@.skip(i as int)),
        decreases compared@.len() - i,
    {
        if compared[i].1 {
            return Filter::Only(compared[i].0.clone());
        }
        assert(compared@.skip(i as int).skip(1) =~= compared@.skip(i + 1));
        i = i + 1;
    }
    Filter::ShowAll
}

/// A filter is restricted to an output exactly where some output agrees with
/// the monitor, and then to the first such output.
pub proof fn chosen_filter_is_first_agreeing(compared: Seq<(String, bool)>)
    ensures
        match chosen_filter(compared) {
            Filter::ShowAll => forall|i: int|
                0 <= i < compared.len() ==> !(#[trigger] compared[i]).1,
            Filter::Only(name) => exists|i: int|
                0 <= i < compared.len() && (#[trigger] compared[i]) == (name, true) && forall|j: int|
                    0 <= j < i ==> !(#[trigger] compared[j]).1,
        },
    decreases compared.len(),
{
    if compared.len() > 0 && !compared[0].1 {
        let rest = compared.skip(1);
        chosen_filter_is_first_agreeing(rest);
        match chosen_filter(rest) {
            Filter::ShowAll => {
                assert forall|i: int| 0 <= i < compared.len() implies !(#[trigger] compared[i]).1 by {
                    if i > 0 {
                        assert(rest[i - 1] == compared[i]);
                    }
                }
            },
            Filter::Only(name) => {
                let k = choose|k: int|
                    0 <= k < rest.len() && (#[trigger] rest[k]) == (name, true) && forall|j: int|
                        0 <= j < k ==> !(#[trigger] rest[j]).1;
                assert(compared[k + 1] == (name, true));
                assert forall|j: int| 0 <= j < k + 1 implies !(#[trigger] compared[j]).1 by {
                    if j > 0 {
                        assert(rest[j - 1] == compared[j]);
                    }
                }
            },
        }
    } else if compared.len() > 0 {
        assert(compared[0] == (compared[0].0, true));
    }
}

/// A filter shows every output, or the one that it names and no other.
pub proof fn filter_shows_the_output_it_names(filter: Filter, name: String, output: Seq<char>)
    ensures
        filter == Filter::ShowAll ==> filter.shows(output) && filter.sole_output() is None,
        filter == Filter::Only(name) ==> filter.sole_output() == Some(name) && (filter.shows(output)
            <==> output == name@),
{
}

/// What is asked next depends on what was learnt last and, at the start, on
/// whether one output is wanted: first for the outputs, then for the monitor
/// unless there is exactly one output. Whatever cannot be learnt ends in showing
/// everything.
pub proof fn each_event_leads_on(
    filter_by_output: bool,
    count: usize,
    compared: Vec<(String, bool)>,
    i: int,
)
    ensures
        filter_step(true, FilterEvent::Start) == FilterStep::FetchOutputs,
        filter_step(false, FilterEvent::Start) == FilterStep::Done(Filter::ShowAll),
        filter_step(filter_by_output, FilterEvent::OutputsUnavailable) == FilterStep::Done(
            Filter::ShowAll,
        ),
        filter_step(filter_by_output, FilterEvent::MonitorUnavailable) == FilterStep::Done(
            Filter::ShowAll,
        ),
        count == 1 ==> filter_step(filter_by_output, FilterEvent::Outputs(count))
            == FilterStep::Done(Filter::ShowAll),
        count != 1 ==> filter_step(filter_by_output, FilterEvent::Outputs(count))
            == FilterStep::FindMonitor,
        (forall|j: int| 0 <= j < compared@.len() ==> !(#[trigger] compared@[j]).1) ==> filter_step(
            filter_by_output,
            FilterEvent::Compared(compared),
        ) == FilterStep::Done(Filter::ShowAll),
        0 <= i < compared@.len() && compared@[i].1 && (forall|j: int|
            0 <= j < i ==> !(#[trigger] compared@[j]).1) ==> filter_step(
            filter_by_output,
            FilterEvent::Compared(compared),
        ) == FilterStep::Done(Filter::Only(compared@[i].0)),
{
    chosen_filter_is_first_agreeing(compared@);
}

} // verus!
