//! Windows as the compositor reports them, and looking them up by process.

use std::collections::HashMap;
use vstd::prelude::*;

verus! {

broadcast use vstd::std_specs::hash::group_hash_axioms;

/// One toplevel window in a snapshot.
#[derive(Debug, PartialEq, Eq)]
pub struct Window {
    pub id: u64,
    pub pid: Option<i32>,
    pub app_id: Option<String>,
    pub title: Option<String>,
    pub is_focused: bool,
    pub output: Option<String>,
    pub workspace_idx: u64,
}

pub(crate) fn copy_text(text: &Option<String>) -> (r: Option<String>)
    ensures
        r == *text,
{
    match text {
        Some(s) => Some(s.clone()),
        None => None,
    }
}

impl Clone for Window {
    fn clone(&self) -> (r: Self)
        ensures
            r == *self,
    {
        Window {
            id: self.id,
            pid: self.pid,
            app_id: copy_text(&self.app_id),
            title: copy_text(&self.title),
            is_focused: self.is_focused,
            output: copy_text(&self.output),
            workspace_idx: self.workspace_idx,
        }
    }
}

impl Window {
    /// The name of the window's output, empty where it is on none.
    pub open spec fn output_name(self) -> Seq<char> {
        match self.output {
            Some(name) => name@,
            None => Seq::empty(),
        }
    }

    /// The name of the window's output, empty where it is on none.
    pub fn output_or_default(&self) -> (r: &str)
        ensures
            r@ == self.output_name(),
    {
        proof {
            reveal_strlit("");
        }
        match &self.output {
            Some(name) => name.as_str(),
            None => "",
        }
    }
}

/// A map from process ids to windows. Windows without a process id are left
/// out, since nothing can be matched on them.
pub struct PidWindowMap<'a>(HashMap<i64, &'a Window>);

/// The windows of `s` by process id. Where several windows share one, the last
/// of them counts.
pub open spec fn windows_by_pid(s: Seq<Window>) -> Map<i64, Window>
    decreases s.len(),
{
    if s.len() == 0 {
        Map::empty()
    } else {
        let rest = windows_by_pid(s.drop_last());
        match s.last().pid {
            Some(pid) => rest.insert(pid as i64, s.last()),
            None => rest,
        }
    }
}

/// A process has a window exactly where some window names it, and then the last
/// window that does. Windows without a process id are never found.
pub proof fn last_window_of_pid_counts(s: Seq<Window>, pid: i64)
    ensures
        windows_by_pid(s).contains_key(pid) <==> exists|i: int|
            0 <= i < s.len() && (#[trigger] s[i]).pid is Some && s[i].pid->0 as i64 == pid,
        windows_by_pid(s).contains_key(pid) ==> exists|i: int|
            0 <= i < s.len() && (#[trigger] s[i]) == windows_by_pid(s)[pid] && s[i].pid is Some
                && s[i].pid->0 as i64 == pid && forall|j: int|
                i < j < s.len() && (#[trigger] s[j]).pid is Some ==> s[j].pid->0 as i64 != pid,
    decreases s.len(),
{
    if s.len() > 0 {
        let before = s.drop_last();
        last_window_of_pid_counts(before, pid);
        let last = s.len() - 1;
        if s[last].pid is Some && s[last].pid->0 as i64 == pid {
            assert(s[last] == windows_by_pid(s)[pid]);
        } else {
            if windows_by_pid(before).contains_key(pid) {
                let k = choose|i: int|
                    0 <= i < before.len() && (#[trigger] before[i]) == windows_by_pid(before)[pid]
                        && before[i].pid is Some && before[i].pid->0 as i64 == pid && forall|j: int|
                        i < j < before.len() && (#[trigger] before[j]).pid is Some
                            ==> before[j].pid->0 as i64 != pid;
                assert(s[k] == windows_by_pid(s)[pid]);
                assert forall|j: int| k < j < s.len() && (#[trigger] s[j]).pid is Some implies s[j].pid->0 as i64
                    != pid by {
                    if j < last {
                        assert(before[j] == s[j]);
                    }
                }
            }
            if exists|i: int|
                0 <= i < s.len() && (#[trigger] s[i]).pid is Some && s[i].pid->0 as i64 == pid {
                let k = choose|i: int|
                    0 <= i < s.len() && (#[trigger] s[i]).pid is Some && s[i].pid->0 as i64 == pid;
                assert(before[k] == s[k]);
            }
        }
    }
}

impl<'a> View for PidWindowMap<'a> {
    type V = Map<i64, Window>;

    closed spec fn view(&self) -> Map<i64, Window> {
        self.0@.map_values(|w: &'a Window| *w)
    }
}

impl<'a> PidWindowMap<'a> {
    /// Collects the windows that have a process id.
    pub fn new(windows: &'a Vec<Window>) -> (r: Self)
        ensures
            r@ == windows_by_pid(windows@),
    {
        let mut map: HashMap<i64, &'a Window> = HashMap::new();
        let mut i: usize = 0;
        assert(windows@.take(0) =~= Seq::empty());
        assert(map@.map_values(|w: &'a Window| *w) =~= Map::empty());
        while i < windows.len()
            invariant
                i <= windows@.len(),
                map@.map_values(|w: &'a Window| *w) == windows_by_pid(windows@.take(i as int)),
            decreases windows@.len() - i,
        {
            let window: &'a Window = &windows[i];
            let ghost before = map@;
            if let Some(pid) = window.pid {
                map.insert(pid as i64, window);
                assert(map@.map_values(|w: &'a Window| *w) =~= before.map_values(
                    |w: &'a Window| *w,
                ).insert(pid as i64, *window));
            }
            assert(windows@.take(i + 1).drop_last() =~= windows@.take(i as int));
            i = i + 1;
        }
        assert(windows@.take(i as int) =~= windows@);
        PidWindowMap(map)
    }

    /// The window of process `pid`.
    pub fn get(&self, pid: i64) -> (r: Option<&'a Window>)
        ensures
            r == (if self@.contains_key(pid) {
                Some(&self@[pid])
            } else {
                None
            }),
    {
        match self.0.get(&pid) {
            Some(window) => Some(*window),
            None => None,
        }
    }
}

/// A window is on the output that it names. One that names none counts as being
/// on an output with an empty name.
pub proof fn windows_are_on_the_output_they_name(w: Window)
    ensures
        w.output matches Some(name) ==> w.output_name() == name@,
        w.output is None ==> w.output_name().len() == 0,
{
}

} // verus!
