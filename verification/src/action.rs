//! The host commands that act on a selected row.

use vstd::prelude::*;

use crate::filter::FilteredItem;

verus! {

/// A request to the terminal multiplexer.
#[derive(Debug, Clone, Copy, PartialEq, Eq, Structural)]
pub enum HostCommand {
    /// Switch to the tab with this 1-based index.
    SwitchTabTo(u32),
    /// Focus the terminal pane with this id (floating it if hidden, not in place).
    FocusTerminalPane(u32),
    /// Focus the plugin pane with this id (floating it if hidden, not in place).
    FocusPluginPane(u32),
    /// Hide the explorer.
    HideSelf,
}

/// The tab position a row belongs to.
pub open spec fn row_tab_position(item: FilteredItem) -> usize {
    match item {
        FilteredItem::Tab(tab) => tab.position,
        FilteredItem::Pane { tab_position, .. } => tab_position,
    }
}

/// A tab position whose 1-based index is a `u32`: the position converted to
/// `u32` is below `u32::MAX`.
pub open spec fn tab_index_fits(position: usize) -> bool {
    (position as u32) < u32::MAX
}

/// The 1-based index of the tab at `position`.
pub open spec fn tab_index(position: usize) -> u32 {
    ((position as u32) + 1) as u32
}

/// What selecting a row does: switch to its tab and, for a pane, focus it.
pub open spec fn selection_effect(item: FilteredItem) -> Seq<HostCommand> {
    match item {
        FilteredItem::Pane { pane, tab_position } => seq![
            HostCommand::SwitchTabTo(tab_index(tab_position)),
            if pane.is_plugin {
                HostCommand::FocusPluginPane(pane.id)
            } else {
                HostCommand::FocusTerminalPane(pane.id)
            },
        ],
        FilteredItem::Tab(tab) => seq![HostCommand::SwitchTabTo(tab_index(tab.position))],
    }
}

/// The 1-based index of the tab at `position`.
pub fn tab_number(position: usize) -> (r: u32)
    requires
        tab_index_fits(position),
    ensures
        r == tab_index(position),
{
    let p: u32 = position as u32;
    p + 1
}

/// The commands that act on a selected row.
pub fn selection_commands(item: &FilteredItem) -> (r: Vec<HostCommand>)
    requires
        tab_index_fits(row_tab_position(*item)),
    ensures
        r@ == selection_effect(*item),
{
    let mut commands: Vec<HostCommand> = Vec::new();
    match item {
        FilteredItem::Pane { pane, tab_position } => {
            commands.push(HostCommand::SwitchTabTo(tab_number(*tab_position)));
            if pane.is_plugin {
                commands.push(HostCommand::FocusPluginPane(pane.id));
            } else {
                commands.push(HostCommand::FocusTerminalPane(pane.id));
            }
        },
        FilteredItem::Tab(tab) => {
            commands.push(HostCommand::SwitchTabTo(tab_number(tab.position)));
        },
    }
    assert(commands@ =~= selection_effect(*item));
    commands
}

} // verus!
