//! What the user configured.

use vstd::hash_map::StringHashMap;
use vstd::prelude::*;

verus! {

/// The direction in which the bar runs.
#[derive(Clone, Copy, Debug, PartialEq, Eq, Structural)]
pub enum TaskbarOrientation {
    Horizontal,
    Vertical,
}

/// Which windows a bar shows, and whether it labels their workspaces.
#[derive(Clone, Copy, Debug, PartialEq, Eq, Structural)]
pub struct DisplayVars {
    pub filter_by_output: bool,
    pub filter_by_workspace: bool,
    pub workspace_buttons: bool,
}

/// The configuration of one bar.
pub struct Config {
    pub orientation: TaskbarOrientation,
    pub display: DisplayVars,
    /// Whether a notification may be matched by its desktop entry.
    pub use_desktop_entry: bool,
    /// Whether a desktop entry may match an application id approximately.
    pub use_fuzzy_matching: bool,
    /// The application ids that stand for desktop entries.
    pub app_map: StringHashMap<String>,
}

impl Config {
    /// The application id to look for when a notification names `desktop_entry`.
    pub open spec fn mapped(self, desktop_entry: Seq<char>) -> Seq<char> {
        if self.app_map@.contains_key(desktop_entry) {
            self.app_map@[desktop_entry]@
        } else {
            desktop_entry
        }
    }

    /// A configuration in which no desktop entry is mapped.
    pub fn new(
        orientation: TaskbarOrientation,
        display: DisplayVars,
        use_desktop_entry: bool,
        use_fuzzy_matching: bool,
    ) -> (r: Self)
        ensures
            r.orientation == orientation,
            r.display == display,
            r.use_desktop_entry == use_desktop_entry,
            r.use_fuzzy_matching == use_fuzzy_matching,
            r.app_map@ == Map::<Seq<char>, String>::empty(),
    {
        Config {
            orientation,
            display,
            use_desktop_entry,
            use_fuzzy_matching,
            app_map: StringHashMap::new(),
        }
    }

    /// Lets `app_id` stand for `desktop_entry`.
    pub fn map_app(&mut self, desktop_entry: String, app_id: String)
        ensures
            final(self).app_map@ == old(self).app_map@.insert(desktop_entry@, app_id),
            final(self).orientation == old(self).orientation,
            final(self).display == old(self).display,
            final(self).use_desktop_entry == old(self).use_desktop_entry,
            final(self).use_fuzzy_matching == old(self).use_fuzzy_matching,
    {
        self.app_map.insert(desktop_entry, app_id);
    }

    /// The application id that stands for `desktop_entry`, if one is configured.
    pub fn notifications_app_map(&self, desktop_entry: &str) -> (r: Option<&String>)
        ensures
            r == (if self.app_map@.contains_key(desktop_entry@) {
                Some(&self.app_map@[desktop_entry@])
            } else {
                None
            }),
    {
        self.app_map.get(desktop_entry)
    }
}

/// Without a mapping a desktop entry is looked for as it is. A mapping replaces
/// the entry that it is for, whatever stood there before, and no other.
pub proof fn mapping_replaces_its_entry(
    before: Config,
    after: Config,
    desktop_entry: Seq<char>,
    app_id: String,
    other: Seq<char>,
)
    requires
        after.app_map@ == before.app_map@.insert(desktop_entry, app_id),
    ensures
        after.mapped(desktop_entry) == app_id@,
        other != desktop_entry ==> after.mapped(other) == before.mapped(other),
        !before.app_map@.contains_key(other) ==> before.mapped(other) == other,
{
}

} // verus!
