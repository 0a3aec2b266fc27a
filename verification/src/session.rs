//! The session state the explorer works on: the tabs and the panes of each
//! tab, holding the values the search and the actions read.

use std::collections::HashMap;
use vstd::prelude::*;

verus! {

/// A tab of the session.
pub struct TabInfo {
    /// The tab's 0-indexed position.
    pub position: usize,
    /// The tab's name as shown in the tab bar.
    pub name: String,
}

/// A pane of the session.
pub struct PaneInfo {
    /// The pane's id, unique among panes of its kind (terminal or plugin).
    pub id: u32,
    /// Whether the pane runs a plugin (`true`) or a terminal (`false`).
    pub is_plugin: bool,
    /// The pane's title.
    pub title: String,
}

/// The panes of the session, keyed by the position of the tab they are in.
pub struct PaneManifest {
    pub panes: HashMap<usize, Vec<PaneInfo>>,
}

impl Clone for TabInfo {
    fn clone(&self) -> (r: Self)
        ensures
            r == *self,
    {
        TabInfo { position: self.position, name: self.name.clone() }
    }
}

impl Clone for PaneInfo {
    fn clone(&self) -> (r: Self)
        ensures
            r == *self,
    {
        PaneInfo { id: self.id, is_plugin: self.is_plugin, title: self.title.clone() }
    }
}

impl PaneManifest {
    /// A manifest with no panes.
    pub fn new() -> (r: Self)
        ensures
            r.panes@ == Map::<usize, Vec<PaneInfo>>::empty(),
    {
        PaneManifest { panes: HashMap::new() }
    }
}

/// The panes of the tab at `position`: none where the manifest has no entry.
pub open spec fn panes_of_tab(panes: Map<usize, Vec<PaneInfo>>, position: usize) -> Seq<PaneInfo> {
    if panes.contains_key(position) {
        panes[position]@
    } else {
        Seq::empty()
    }
}

} // verus!
