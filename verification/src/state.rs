//! The explorer's state and how it answers the multiplexer's events: the
//! selection moves only over selectable rows, every change of the list keeps
//! it on one, and each frame scrolls so that it stays in view.

use vstd::prelude::*;

use crate::action::{
    row_tab_position, selection_commands, selection_effect, tab_index_fits, HostCommand,
};
use crate::filter::{
    compute_filtered, compute_selectable, default_exclusion_names, default_exclusions, filtered,
    is_selectable, lemma_selectable_positions, next_mode, selectable_positions, FilteredItem,
    SearchMode,
};
use crate::input::{key_action, map_key, InputAction, KeyModifier, KeyWithModifier};
use crate::render::{frame, preview_fits, render, visible_count, RenderContext};
use crate::session::{PaneInfo, PaneManifest, TabInfo};
use crate::text::{lowercase, pop_char, push_char};

verus! {

/// The last entry of `indices` (in order) that is below `selection`.
pub open spec fn last_below(indices: Seq<usize>, selection: usize) -> Option<usize>
    decreases indices.len(),
{
    if indices.len() == 0 {
        None
    } else if indices.last() < selection {
        Some(indices.last())
    } else {
        last_below(indices.drop_last(), selection)
    }
}

/// The first entry of `indices` (in order) that is above `selection`.
pub open spec fn first_above(indices: Seq<usize>, selection: usize) -> Option<usize>
    decreases indices.len(),
{
    if indices.len() == 0 {
        None
    } else {
        match first_above(indices.drop_last(), selection) {
            Some(found) => Some(found),
            None => if indices.last() > selection {
                Some(indices.last())
            } else {
                None
            },
        }
    }
}

/// Where the selection goes when the list changes: it stays on a selectable
/// row, else moves to the nearest selectable row above it, else to the first
/// selectable row; with no selectable row it goes to 0.
pub open spec fn clamped(indices: Seq<usize>, selection: usize) -> usize {
    if indices.len() == 0 {
        0
    } else if indices.contains(selection) {
        selection
    } else {
        match last_below(indices, selection) {
            Some(above) => above,
            None => indices[0],
        }
    }
}

/// The entry of `indices` that is the last below `selection`, if any.
pub fn previous_selectable(indices: &Vec<usize>, selection: usize) -> (r: Option<usize>)
    ensures
        r == last_below(indices@, selection),
{
    let mut previous: Option<usize> = None;
    let mut i: usize = 0;
    while i < indices.len()
        invariant
            i <= indices.len(),
            previous == last_below(indices@.take(i as int), selection),
        decreases indices.len() - i,
    {
        assert(indices@.take(i + 1).drop_last() =~= indices@.take(i as int));
        if indices[i] < selection {
            previous = Some(indices[i]);
        }
        i += 1;
    }
    assert(indices@.take(i as int) =~= indices@);
    previous
}

/// The entry of `indices` that is the first above `selection`, if any.
pub fn next_selectable(indices: &Vec<usize>, selection: usize) -> (r: Option<usize>)
    ensures
        r == first_above(indices@, selection),
{
    let mut next: Option<usize> = None;
    let mut i: usize = 0;
    while i < indices.len()
        invariant
            i <= indices.len(),
            next == first_above(indices@.take(i as int), selection),
        decreases indices.len() - i,
    {
        assert(indices@.take(i + 1).drop_last() =~= indices@.take(i as int));
        if next.is_none() && indices[i] > selection {
            next = Some(indices[i]);
        }
        i += 1;
    }
    assert(indices@.take(i as int) =~= indices@);
    next
}

/// Whether `indices` holds `value`.
pub fn holds_index(indices: &Vec<usize>, value: usize) -> (r: bool)
    ensures
        r == indices@.contains(value),
{
    let mut i: usize = 0;
    while i < indices.len()
        invariant
            i <= indices.len(),
            forall|k: int| 0 <= k < i ==> indices@[k] != value,
        decreases indices.len() - i,
    {
        if indices[i] == value {
            return true;
        }
        i += 1;
    }
    false
}

/// The selection after the list changed to one whose selectable rows are
/// `indices`.
pub fn clamp_index(indices: &Vec<usize>, selection: usize) -> (r: usize)
    ensures
        r == clamped(indices@, selection),
{
    if indices.len() == 0 {
        return 0;
    }
    if holds_index(indices, selection) {
        return selection;
    }
    match previous_selectable(indices, selection) {
        Some(above) => above,
        None => indices[0],
    }
}


/// The explorer's state as values: the session, the query, the mode, the
/// selected row, the first drawn row and whether the preview is shown.
pub struct ExplorerModel {
    pub tabs: Seq<TabInfo>,
    pub panes: Map<usize, Vec<PaneInfo>>,
    pub query: Seq<char>,
    pub mode: SearchMode,
    pub selection: usize,
    pub scroll: usize,
    pub preview: bool,
}

impl ExplorerModel {
    /// The rows listed for the current query and mode.
    pub open spec fn results(self) -> Seq<FilteredItem> {
        filtered(self.tabs, self.panes, lowercase(self.query), self.mode, default_exclusion_names())
    }

    /// The positions of the rows that can hold the selection.
    pub open spec fn selectable(self) -> Seq<usize> {
        selectable_positions(self.results(), self.mode)
    }

    /// The state with the selection put back on a selectable row.
    pub open spec fn clamp(self) -> ExplorerModel {
        ExplorerModel { selection: clamped(self.selectable(), self.selection), ..self }
    }

    /// The state after moving to the previous selectable row, if there is one.
    pub open spec fn move_up(self) -> ExplorerModel {
        match last_below(self.selectable(), self.selection) {
            Some(row) => ExplorerModel { selection: row, ..self },
            None => self,
        }
    }

    /// The state after moving to the next selectable row, if there is one.
    pub open spec fn move_down(self) -> ExplorerModel {
        match first_above(self.selectable(), self.selection) {
            Some(row) => ExplorerModel { selection: row, ..self },
            None => self,
        }
    }

    /// The state with the query emptied and the selection on the first row.
    pub open spec fn reset(self) -> ExplorerModel {
        ExplorerModel { query: Seq::empty(), selection: 0, ..self }
    }

    /// The new state, whether to redraw and the host commands for an action.
    pub open spec fn act(self, action: InputAction) -> (ExplorerModel, bool, Seq<HostCommand>) {
        match action {
            InputAction::MoveUp => (self.move_up(), true, Seq::empty()),
            InputAction::MoveDown => (self.move_down(), true, Seq::empty()),
            InputAction::CycleMode => (
                ExplorerModel { mode: next_mode(self.mode), ..self }.clamp(),
                true,
                Seq::empty(),
            ),
            InputAction::Confirm => if self.selection < self.results().len() {
                (
                    self.reset(),
                    false,
                    selection_effect(self.results()[self.selection as int]).push(
                        HostCommand::HideSelf,
                    ),
                )
            } else {
                (self, false, Seq::empty())
            },
            InputAction::DeleteChar => (
                ExplorerModel {
                    query: if self.query.len() > 0 {
                        self.query.drop_last()
                    } else {
                        self.query
                    },
                    ..self
                }.clamp(),
                true,
                Seq::empty(),
            ),
            InputAction::Cancel => (self.reset(), false, seq![HostCommand::HideSelf]),
            InputAction::TogglePreview => (
                ExplorerModel { preview: !self.preview, ..self },
                true,
                Seq::empty(),
            ),
            InputAction::TypeChar(c) => (
                ExplorerModel { query: self.query.push(c), ..self }.clamp(),
                true,
                Seq::empty(),
            ),
        }
    }
}

/// An event from the multiplexer.
pub enum Event {
    /// The session's tabs changed.
    TabUpdate(Vec<TabInfo>),
    /// The session's panes changed.
    PaneUpdate(PaneManifest),
    /// A key was pressed.
    Key(KeyWithModifier),
    /// Any other event.
    Other,
}

/// The new state, whether to redraw and the host commands for an event.
pub open spec fn event_step(model: ExplorerModel, event: Event) -> (
    ExplorerModel,
    bool,
    Seq<HostCommand>,
) {
    match event {
        Event::TabUpdate(tabs) => (
            ExplorerModel { tabs: tabs@, ..model }.clamp(),
            true,
            Seq::empty(),
        ),
        Event::PaneUpdate(panes) => (
            ExplorerModel { panes: panes.panes@, ..model }.clamp(),
            true,
            Seq::empty(),
        ),
        Event::Key(key) => match key_action(
            key.bare_key,
            key.key_modifiers@.contains(KeyModifier::Ctrl),
        ) {
            Some(action) => model.act(action),
            None => (model, false, Seq::empty()),
        },
        Event::Other => (model, false, Seq::empty()),
    }
}

/// Every tab has a 1-based index that is a `u32`.
pub open spec fn tab_indices_fit(tabs: Seq<TabInfo>) -> bool {
    forall|i: int| 0 <= i < tabs.len() ==> tab_index_fits(#[trigger] tabs[i].position)
}

/// Confirming the selection can name its tab: when the selection is on a
/// row, that row's tab has a 1-based index that is a `u32`.
pub open spec fn confirm_fits(model: ExplorerModel) -> bool {
    model.selection < model.results().len() ==> tab_index_fits(
        row_tab_position(model.results()[model.selection as int]),
    )
}

/// The event is a key press that confirms the selection.
pub open spec fn is_confirm(event: Event) -> bool {
    match event {
        Event::Key(key) => key_action(
            key.bare_key,
            key.key_modifiers@.contains(KeyModifier::Ctrl),
        ) == Some(InputAction::Confirm),
        _ => false,
    }
}

/// What an event asks of the multiplexer.
pub struct UpdateOutcome {
    /// Whether the explorer must be drawn again.
    pub should_render: bool,
    /// The commands to send, in order.
    pub commands: Vec<HostCommand>,
}

/// The explorer's state.
pub struct PluginState {
    pub tabs: Vec<TabInfo>,
    pub panes: PaneManifest,
    pub search_query: String,
    pub search_mode: SearchMode,
    pub selection_index: usize,
    pub scroll_offset: usize,
    pub show_preview: bool,
}

impl View for PluginState {
    type V = ExplorerModel;

    open spec fn view(&self) -> ExplorerModel {
        ExplorerModel {
            tabs: self.tabs@,
            panes: self.panes.panes@,
            query: self.search_query@,
            mode: self.search_mode,
            selection: self.selection_index,
            scroll: self.scroll_offset,
            preview: self.show_preview,
        }
    }
}

/// Rows left for the list: the terminal's rows without the two header rows
/// (prompt and rule), and without three more for the preview.
pub open spec fn list_rows_for(rows: usize, show_preview: bool) -> usize {
    if show_preview {
        rows.saturating_sub(2).saturating_sub(3)
    } else {
        rows.saturating_sub(2)
    }
}

/// The first drawn row after scrolling just enough to show the selection.
pub open spec fn scrolled(selection: usize, scroll: usize, list_rows: usize) -> usize {
    if list_rows > 0 {
        if selection >= scroll + list_rows {
            (selection - list_rows + 1) as usize
        } else if selection < scroll {
            selection
        } else {
            scroll
        }
    } else {
        0
    }
}

impl Default for PluginState {
    fn default() -> (r: Self)
        ensures
            r@ == (ExplorerModel {
                tabs: Seq::empty(),
                panes: Map::empty(),
                query: Seq::empty(),
                mode: SearchMode::TabAndPane,
                selection: 0,
                scroll: 0,
                preview: false,
            }),
    {
        PluginState::new()
    }
}

impl PluginState {
    /// A state with no session, an empty query, the tab-and-pane mode, the
    /// first row selected and no preview.
    pub fn new() -> (r: Self)
        ensures
            r@ == (ExplorerModel {
                tabs: Seq::empty(),
                panes: Map::empty(),
                query: Seq::empty(),
                mode: SearchMode::TabAndPane,
                selection: 0,
                scroll: 0,
                preview: false,
            }),
    {
        PluginState {
            tabs: Vec::new(),
            panes: PaneManifest::new(),
            search_query: String::new(),
            search_mode: SearchMode::TabAndPane,
            selection_index: 0,
            scroll_offset: 0,
            show_preview: false,
        }
    }

    /// The rows listed for the current query and mode.
    pub fn filtered_results(&self) -> (r: Vec<FilteredItem>)
        ensures
            r@ == self@.results(),
    {
        let exclusions = default_exclusions();
        compute_filtered(
            self.tabs.as_slice(),
            &self.panes,
            self.search_query.as_str(),
            &self.search_mode,
            exclusions.as_slice(),
        )
    }

    /// The positions of the rows that can hold the selection.
    pub fn selectable_indices(&self) -> (r: Vec<usize>)
        ensures
            r@ == self@.selectable(),
    {
        let results = self.filtered_results();
        compute_selectable(results.as_slice(), &self.search_mode)
    }

    /// Puts the selection back on a selectable row.
    pub fn clamp_selection(&mut self)
        ensures
            final(self)@ == old(self)@.clamp(),
    {
        let indices = self.selectable_indices();
        self.selection_index = clamp_index(&indices, self.selection_index);
    }

    /// Moves the selection to the previous selectable row, if there is one.
    pub fn move_selection_up(&mut self)
        ensures
            final(self)@ == old(self)@.move_up(),
    {
        let indices = self.selectable_indices();
        if let Some(row) = previous_selectable(&indices, self.selection_index) {
            self.selection_index = row;
        }
    }

    /// Moves the selection to the next selectable row, if there is one.
    pub fn move_selection_down(&mut self)
        ensures
            final(self)@ == old(self)@.move_down(),
    {
        let indices = self.selectable_indices();
        if let Some(row) = next_selectable(&indices, self.selection_index) {
            self.selection_index = row;
        }
    }
}


impl PluginState {
    /// Carries out an action: moves the selection, cycles the mode, edits
    /// the query, toggles the preview, or confirms or cancels the search.
    pub fn apply_action(&mut self, action: InputAction) -> (r: UpdateOutcome)
        requires
            action == InputAction::Confirm ==> confirm_fits(old(self)@),
        ensures
            (final(self)@, r.should_render, r.commands@) == old(self)@.act(action),
    {
        let mut commands: Vec<HostCommand> = Vec::new();
        let should_render = match action {
            InputAction::MoveUp => {
                self.move_selection_up();
                true
            },
            InputAction::MoveDown => {
                self.move_selection_down();
                true
            },
            InputAction::CycleMode => {
                self.search_mode = self.search_mode.cycle();
                self.clamp_selection();
                true
            },
            InputAction::Confirm => {
                let results = self.filtered_results();
                if self.selection_index < results.len() {
                    commands = selection_commands(&results[self.selection_index]);
                    commands.push(HostCommand::HideSelf);
                    self.search_query = String::new();
                    self.selection_index = 0;
                }
                false
            },
            InputAction::DeleteChar => {
                let _ = pop_char(&mut self.search_query);
                self.clamp_selection();
                true
            },
            InputAction::Cancel => {
                self.search_query = String::new();
                self.selection_index = 0;
                commands.push(HostCommand::HideSelf);
                false
            },
            InputAction::TogglePreview => {
                self.show_preview = !self.show_preview;
                true
            },
            InputAction::TypeChar(c) => {
                push_char(&mut self.search_query, c);
                self.clamp_selection();
                true
            },
        };
        UpdateOutcome { should_render, commands }
    }

    /// Answers an event: tab and pane updates replace the session and keep
    /// the selection on a selectable row; a key press carries out its
    /// action; other events change nothing.
    pub fn update(&mut self, event: Event) -> (r: UpdateOutcome)
        requires
            is_confirm(event) ==> confirm_fits(old(self)@),
        ensures
            (final(self)@, r.should_render, r.commands@) == event_step(old(self)@, event),
    {
        match event {
            Event::TabUpdate(tabs) => {
                self.tabs = tabs;
                self.clamp_selection();
                UpdateOutcome { should_render: true, commands: Vec::new() }
            },
            Event::PaneUpdate(panes) => {
                self.panes = panes;
                self.clamp_selection();
                UpdateOutcome { should_render: true, commands: Vec::new() }
            },
            Event::Key(key) => match map_key(&key) {
                Some(action) => self.apply_action(action),
                None => UpdateOutcome { should_render: false, commands: Vec::new() },
            },
            Event::Other => UpdateOutcome { should_render: false, commands: Vec::new() },
        }
    }

    /// Whether confirming now can name the selected row's tab (see
    /// `confirm_fits`).
    pub fn confirm_allowed(&self) -> (r: bool)
        ensures
            r == confirm_fits(self@),
    {
        let results = self.filtered_results();
        if self.selection_index < results.len() {
            let position: usize = match &results[self.selection_index] {
                FilteredItem::Tab(tab) => tab.position,
                FilteredItem::Pane { tab_position, .. } => *tab_position,
            };
            let index: u32 = position as u32;
            index < u32::MAX
        } else {
            true
        }
    }

    /// Answers an event as `update` does, except that a confirming key press
    /// whose selected row's tab index does not fit in a `u32` is refused:
    /// then nothing changes and the answer is `None`.
    pub fn try_update(&mut self, event: Event) -> (r: Option<UpdateOutcome>)
        ensures
            is_confirm(event) && !confirm_fits(old(self)@) ==> r is None && final(self)@ == old(
                self,
            )@,
            !(is_confirm(event) && !confirm_fits(old(self)@)) ==> (r matches Some(outcome) && (
                final(self)@,
                outcome.should_render,
                outcome.commands@,
            ) == event_step(old(self)@, event)),
    {
        let confirming = match &event {
            Event::Key(key) => matches!(map_key(key), Some(InputAction::Confirm)),
            _ => false,
        };
        if confirming && !self.confirm_allowed() {
            return None;
        }
        Some(self.update(event))
    }

    /// Draws a frame for a terminal of `rows` by `cols`: scrolls just enough
    /// to keep the selection among the drawn rows, then draws the listed rows
    /// from the new first row on.
    pub fn render(&mut self, rows: usize, cols: usize) -> (r: String)
        requires
            list_rows_for(rows, old(self).show_preview) > 0 ==> old(self).scroll_offset
                + list_rows_for(rows, old(self).show_preview) <= usize::MAX,
            old(self).show_preview ==> preview_fits(cols),
        ensures
            final(self)@ == (ExplorerModel {
                scroll: scrolled(
                    old(self).selection_index,
                    old(self).scroll_offset,
                    list_rows_for(rows, old(self).show_preview),
                ),
                ..old(self)@
            }),
            r@ == frame(
                old(self).search_query@,
                old(self)@.results(),
                old(self).selection_index,
                final(self).scroll_offset,
                list_rows_for(rows, old(self).show_preview),
                old(self).search_mode,
                cols,
                old(self).show_preview,
            ),
    {
        let items = self.filtered_results();
        let mut list_rows = rows.saturating_sub(2);
        if self.show_preview {
            list_rows = list_rows.saturating_sub(3);
        }
        if list_rows > 0 {
            if self.selection_index >= self.scroll_offset + list_rows {
                self.scroll_offset = self.selection_index - list_rows + 1;
            } else if self.selection_index < self.scroll_offset {
                self.scroll_offset = self.selection_index;
            }
        } else {
            self.scroll_offset = 0;
        }
        let ctx = RenderContext {
            query: self.search_query.as_str(),
            items: items.as_slice(),
            selection_index: self.selection_index,
            scroll_offset: self.scroll_offset,
            list_rows,
            search_mode: &self.search_mode,
            cols,
            show_preview: self.show_preview,
        };
        render(&ctx)
    }
}


/// Strictly increasing.
pub open spec fn increasing(indices: Seq<usize>) -> bool {
    forall|i: int, j: int| 0 <= i < j < indices.len() ==> #[trigger] indices[i] < #[trigger] indices[j]
}

/// In an increasing sequence, the last entry below `selection` is the
/// greatest entry below it; there is none when every entry is at least
/// `selection`.
pub proof fn lemma_last_below(indices: Seq<usize>, selection: usize)
    requires
        increasing(indices),
    ensures
        last_below(indices, selection) matches Some(row) ==> {
            &&& indices.contains(row)
            &&& row < selection
            &&& forall|k: int| 0 <= k < indices.len() && #[trigger] indices[k] < selection ==> indices[k] <= row
        },
        last_below(indices, selection) is None ==> forall|k: int|
            0 <= k < indices.len() ==> #[trigger] indices[k] >= selection,
    decreases indices.len(),
{
    if indices.len() > 0 {
        let front = indices.drop_last();
        assert(increasing(front)) by {
            assert forall|i: int, j: int| 0 <= i < j < front.len() implies #[trigger] front[i] < #[trigger] front[j] by {
                assert(indices[i] < indices[j]);
            }
        }
        lemma_last_below(front, selection);
        if indices.last() < selection {
            assert(indices[indices.len() - 1] == indices.last());
            assert forall|k: int| 0 <= k < indices.len() && #[trigger] indices[k] < selection implies indices[k]
                <= indices.last() by {
                if k < indices.len() - 1 {
                    assert(indices[k] < indices[indices.len() - 1]);
                }
            }
        } else {
            assert forall|k: int| 0 <= k < indices.len() && #[trigger] indices[k] < selection implies (
            last_below(indices, selection) matches Some(row) && indices[k] <= row) by {
                assert(k < indices.len() - 1);
                assert(front[k] == indices[k]);
            }
            if let Some(row) = last_below(front, selection) {
                let i = choose|i: int| 0 <= i < front.len() && front[i] == row;
                assert(indices[i] == row);
            } else {
                assert forall|k: int| 0 <= k < indices.len() implies #[trigger] indices[k] >= selection by {
                    if k < indices.len() - 1 {
                        assert(front[k] == indices[k]);
                    }
                }
            }
        }
    }
}

/// In an increasing sequence, the first entry above `selection` is the
/// least entry above it; there is none when every entry is at most
/// `selection`.
pub proof fn lemma_first_above(indices: Seq<usize>, selection: usize)
    requires
        increasing(indices),
    ensures
        first_above(indices, selection) matches Some(row) ==> {
            &&& indices.contains(row)
            &&& row > selection
            &&& forall|k: int| 0 <= k < indices.len() && #[trigger] indices[k] > selection ==> indices[k] >= row
        },
        first_above(indices, selection) is None ==> forall|k: int|
            0 <= k < indices.len() ==> #[trigger] indices[k] <= selection,
    decreases indices.len(),
{
    if indices.len() > 0 {
        let front = indices.drop_last();
        assert(increasing(front)) by {
            assert forall|i: int, j: int| 0 <= i < j < front.len() implies #[trigger] front[i] < #[trigger] front[j] by {
                assert(indices[i] < indices[j]);
            }
        }
        lemma_first_above(front, selection);
        match first_above(front, selection) {
            Some(row) => {
                let i = choose|i: int| 0 <= i < front.len() && front[i] == row;
                assert(indices[i] == row);
                assert forall|k: int| 0 <= k < indices.len() && #[trigger] indices[k] > selection implies indices[k]
                    >= row by {
                    if k < indices.len() - 1 {
                        assert(front[k] == indices[k]);
                    } else {
                        assert(indices[i] < indices[k]);
                    }
                }
            },
            None => {
                assert forall|k: int| 0 <= k < indices.len() - 1 implies #[trigger] indices[k] <= selection by {
                    assert(front[k] == indices[k]);
                }
                assert(indices[indices.len() - 1] == indices.last());
            },
        }
    }
}

/// The selection after a change of the list is on a selectable row whenever
/// there is one (and is 0 otherwise); a selection already on a selectable row
/// stays where it is.
pub proof fn lemma_clamp_lands_on_selectable(indices: Seq<usize>, selection: usize)
    ensures
        indices.len() > 0 ==> indices.contains(clamped(indices, selection)),
        indices.len() == 0 ==> clamped(indices, selection) == 0,
        indices.contains(selection) ==> clamped(indices, selection) == selection,
    decreases indices.len(),
{
    if indices.len() > 0 && !indices.contains(selection) {
        lemma_last_below_is_entry(indices, selection);
        assert(indices.contains(indices[0]));
    }
}

proof fn lemma_last_below_is_entry(indices: Seq<usize>, selection: usize)
    ensures
        last_below(indices, selection) matches Some(row) ==> indices.contains(row) && row < selection,
    decreases indices.len(),
{
    if indices.len() > 0 {
        lemma_last_below_is_entry(indices.drop_last(), selection);
        if let Some(row) = last_below(indices.drop_last(), selection) {
            if indices.last() >= selection {
                let i = choose|i: int| 0 <= i < indices.len() - 1 && indices.drop_last()[i] == row;
                assert(indices[i] == row);
            }
        }
        assert(indices[indices.len() - 1] == indices.last());
    }
}

/// Every change of the list keeps the selection on a selectable row: after
/// a tab update, a pane update, a mode change or an edit of the query, the
/// selection is on a selectable row of the new list when it has one, and 0
/// otherwise.
pub proof fn lemma_list_changes_keep_selection_selectable(model: ExplorerModel, event: Event)
    requires
        match event {
            Event::TabUpdate(_) | Event::PaneUpdate(_) => true,
            Event::Key(key) => match key_action(
                key.bare_key,
                key.key_modifiers@.contains(KeyModifier::Ctrl),
            ) {
                Some(InputAction::CycleMode) | Some(InputAction::DeleteChar) | Some(
                    InputAction::TypeChar(_),
                ) => true,
                _ => false,
            },
            Event::Other => false,
        },
    ensures
        ({
            let next = event_step(model, event).0;
            &&& next.selectable().len() > 0 ==> next.selectable().contains(next.selection)
            &&& next.selectable().len() == 0 ==> next.selection == 0
        }),
{
    let next = event_step(model, event).0;
    let before = ExplorerModel { selection: model.selection, ..next };
    assert(next == before.clamp());
    lemma_clamp_lands_on_selectable(before.selectable(), before.selection);
}

/// Moving up or down lands on the neighbouring selectable row, skipping the
/// rows that cannot hold the selection (tab headers in the pane modes), and
/// stays put when there is none in that direction; going down and then up
/// from a selectable row comes back to it.
pub proof fn lemma_navigation(model: ExplorerModel)
    requires
        model.results().len() <= usize::MAX,
    ensures
        ({
            let rows = model.results();
            let up = model.move_up().selection;
            &&& (exists|k: int| 0 <= k < rows.len() && is_selectable(rows[k], model.mode) && k < model.selection)
                ==> {
                &&& up < model.selection
                &&& up < rows.len()
                &&& is_selectable(rows[up as int], model.mode)
                &&& forall|k: int|
                    up < k < model.selection && k < rows.len() ==> !is_selectable(
                        #[trigger] rows[k],
                        model.mode,
                    )
            }
            &&& !(exists|k: int| 0 <= k < rows.len() && is_selectable(rows[k], model.mode) && k < model.selection)
                ==> up == model.selection
        }),
        ({
            let rows = model.results();
            let down = model.move_down().selection;
            &&& (exists|k: int| 0 <= k < rows.len() && is_selectable(rows[k], model.mode) && k > model.selection)
                ==> {
                &&& down > model.selection
                &&& down < rows.len()
                &&& is_selectable(rows[down as int], model.mode)
                &&& forall|k: int|
                    model.selection < k < down ==> !is_selectable(#[trigger] rows[k], model.mode)
            }
            &&& !(exists|k: int| 0 <= k < rows.len() && is_selectable(rows[k], model.mode) && k > model.selection)
                ==> down == model.selection
        }),
        model.selection < model.results().len() && is_selectable(
            model.results()[model.selection as int],
            model.mode,
        ) && (exists|k: int|
            0 <= k < model.results().len() && is_selectable(model.results()[k], model.mode) && k
                > model.selection) ==> model.move_down().move_up().selection == model.selection,
{
    let rows = model.results();
    let ix = model.selectable();
    lemma_selectable_positions(rows, model.mode);
    assert(increasing(ix));
    lemma_last_below(ix, model.selection);
    lemma_first_above(ix, model.selection);
    if exists|k: int| 0 <= k < rows.len() && is_selectable(rows[k], model.mode) && k < model.selection {
        let k = choose|k: int| 0 <= k < rows.len() && is_selectable(rows[k], model.mode) && k < model.selection;
        assert(ix.contains(k as usize));
        let i = choose|i: int| 0 <= i < ix.len() && ix[i] == k as usize;
        assert(ix[i] < model.selection);
        let up = model.move_up().selection;
        assert forall|j: int| up < j < model.selection && j < rows.len() implies !is_selectable(
            #[trigger] rows[j],
            model.mode,
        ) by {
            if is_selectable(rows[j], model.mode) {
                assert(ix.contains(j as usize));
                let m = choose|m: int| 0 <= m < ix.len() && ix[m] == j as usize;
                assert(ix[m] < model.selection);
            }
        }
    } else {
        if let Some(row) = last_below(ix, model.selection) {
            let i = choose|i: int| 0 <= i < ix.len() && ix[i] == row;
            assert(is_selectable(rows[ix[i] as int], model.mode));
        }
    }
    if exists|k: int| 0 <= k < rows.len() && is_selectable(rows[k], model.mode) && k > model.selection {
        let k = choose|k: int| 0 <= k < rows.len() && is_selectable(rows[k], model.mode) && k > model.selection;
        assert(ix.contains(k as usize));
        let i = choose|i: int| 0 <= i < ix.len() && ix[i] == k as usize;
        assert(ix[i] > model.selection);
        let down = model.move_down().selection;
        assert forall|j: int| model.selection < j < down implies !is_selectable(#[trigger] rows[j], model.mode) by {
            if is_selectable(rows[j], model.mode) {
                assert(ix.contains(j as usize));
                let m = choose|m: int| 0 <= m < ix.len() && ix[m] == j as usize;
                assert(ix[m] > model.selection);
            }
        }
    } else {
        if let Some(row) = first_above(ix, model.selection) {
            let i = choose|i: int| 0 <= i < ix.len() && ix[i] == row;
            assert(is_selectable(rows[ix[i] as int], model.mode));
        }
    }
    if model.selection < rows.len() && is_selectable(rows[model.selection as int], model.mode) {
        let moved = model.move_down();
        assert(moved.selectable() == ix);
        if let Some(down) = first_above(ix, model.selection) {
            lemma_last_below(ix, down);
            assert(ix.contains(model.selection));
            let i = choose|i: int| 0 <= i < ix.len() && ix[i] == model.selection;
            assert(ix[i] < down);
            if let Some(back) = last_below(ix, down) {
                let j = choose|j: int| 0 <= j < ix.len() && ix[j] == back;
                assert(ix[j] >= model.selection);
                assert(!(ix[j] > model.selection));
            }
        }
    }
}


/// The viewport keeps the selection in view: after scrolling, the selected
/// row is among the `list_rows` drawn rows, and when it is a row of the list
/// it is among the rows actually drawn.
pub proof fn lemma_selection_in_view(selection: usize, scroll: usize, list_rows: usize, len: nat)
    requires
        list_rows > 0,
        scroll + list_rows <= usize::MAX,
    ensures
        scrolled(selection, scroll, list_rows) <= selection < scrolled(selection, scroll, list_rows)
            + list_rows,
        selection < len ==> selection < scrolled(selection, scroll, list_rows) + visible_count(
            len,
            scrolled(selection, scroll, list_rows),
            list_rows,
        ),
{
}


/// Row `k` of `rows` exists and can hold the selection under `mode`: a tab
/// row in tab-only mode, a pane row in the other modes.
pub open spec fn can_hold_selection(rows: Seq<FilteredItem>, mode: SearchMode, k: int) -> bool {
    0 <= k < rows.len() && ((rows[k] is Tab) <==> mode == SearchMode::TabOnly)
}

proof fn lemma_can_hold_is_selectable(rows: Seq<FilteredItem>, mode: SearchMode)
    ensures
        forall|k: int|
            0 <= k < rows.len() ==> (#[trigger] can_hold_selection(rows, mode, k) <==> is_selectable(
                rows[k],
                mode,
            )),
{
}

/// Up and Down move over the rows that can hold the selection under the
/// current mode: Down goes to the nearest such row below the selection and
/// Up to the nearest one above it, staying put when there is none; nothing
/// else changes, the list is redrawn and no command is sent.
pub proof fn lemma_arrow_keys_move_selection(model: ExplorerModel)
    requires
        model.results().len() <= usize::MAX,
    ensures
        ({
            let rows = model.results();
            let (down, redraw, commands) = model.act(InputAction::MoveDown);
            &&& redraw
            &&& commands.len() == 0
            &&& down == ExplorerModel { selection: down.selection, ..model }
            &&& (exists|k: int| k > model.selection && #[trigger] can_hold_selection(rows, model.mode, k))
                ==> {
                &&& down.selection > model.selection
                &&& can_hold_selection(rows, model.mode, down.selection as int)
                &&& forall|k: int|
                    model.selection < k < down.selection ==> !#[trigger] can_hold_selection(
                        rows,
                        model.mode,
                        k,
                    )
            }
            &&& !(exists|k: int| k > model.selection && #[trigger] can_hold_selection(rows, model.mode, k))
                ==> down.selection == model.selection
        }),
        ({
            let rows = model.results();
            let (up, redraw, commands) = model.act(InputAction::MoveUp);
            &&& redraw
            &&& commands.len() == 0
            &&& up == ExplorerModel { selection: up.selection, ..model }
            &&& (exists|k: int| k < model.selection && #[trigger] can_hold_selection(rows, model.mode, k))
                ==> {
                &&& up.selection < model.selection
                &&& can_hold_selection(rows, model.mode, up.selection as int)
                &&& forall|k: int|
                    up.selection < k < model.selection ==> !#[trigger] can_hold_selection(
                        rows,
                        model.mode,
                        k,
                    )
            }
            &&& !(exists|k: int| k < model.selection && #[trigger] can_hold_selection(rows, model.mode, k))
                ==> up.selection == model.selection
        }),
{
    let rows = model.results();
    lemma_navigation(model);
    lemma_can_hold_is_selectable(rows, model.mode);
    if exists|k: int| k > model.selection && #[trigger] can_hold_selection(rows, model.mode, k) {
        let k = choose|k: int| k > model.selection && #[trigger] can_hold_selection(rows, model.mode, k);
        assert(0 <= k < rows.len() && is_selectable(rows[k], model.mode) && k > model.selection);
    } else {
        assert forall|k: int| 0 <= k < rows.len() && is_selectable(rows[k], model.mode) implies !(k
            > model.selection) by {
            assert(can_hold_selection(rows, model.mode, k));
        }
    }
    if exists|k: int| k < model.selection && #[trigger] can_hold_selection(rows, model.mode, k) {
        let k = choose|k: int| k < model.selection && #[trigger] can_hold_selection(rows, model.mode, k);
        assert(0 <= k < rows.len() && is_selectable(rows[k], model.mode) && k < model.selection);
    } else {
        assert forall|k: int| 0 <= k < rows.len() && is_selectable(rows[k], model.mode) implies !(k
            < model.selection) by {
            assert(can_hold_selection(rows, model.mode, k));
        }
    }
}

/// Editing the query and changing the mode redraw at once and send nothing:
/// typing a character appends exactly that character to the query, deleting
/// removes the last character (if any), and the Tab key moves to the next
/// mode in the order tab-and-pane, tab only, pane only; the session, the
/// scroll offset and the preview flag stay as they were.
pub proof fn lemma_edits_redraw(model: ExplorerModel, c: char)
    ensures
        ({
            let (next, redraw, commands) = model.act(InputAction::TypeChar(c));
            &&& redraw && commands.len() == 0
            &&& next.query == model.query.push(c)
            &&& next.query.len() == model.query.len() + 1 && next.query.last() == c
            &&& next.tabs == model.tabs && next.panes == model.panes && next.mode == model.mode
            &&& next.scroll == model.scroll && next.preview == model.preview
        }),
        ({
            let (next, redraw, commands) = model.act(InputAction::DeleteChar);
            &&& redraw && commands.len() == 0
            &&& model.query.len() > 0 ==> next.query == model.query.subrange(
                0,
                model.query.len() - 1,
            )
            &&& model.query.len() == 0 ==> next.query.len() == 0
            &&& next.tabs == model.tabs && next.panes == model.panes && next.mode == model.mode
            &&& next.scroll == model.scroll && next.preview == model.preview
        }),
        ({
            let (next, redraw, commands) = model.act(InputAction::CycleMode);
            &&& redraw && commands.len() == 0
            &&& next.mode == match model.mode {
                SearchMode::TabAndPane => SearchMode::TabOnly,
                SearchMode::TabOnly => SearchMode::PaneOnly,
                SearchMode::PaneOnly => SearchMode::TabAndPane,
            }
            &&& next.query == model.query
            &&& next.tabs == model.tabs && next.panes == model.panes
            &&& next.scroll == model.scroll && next.preview == model.preview
        }),
{
}


/// Cancelling, and confirming on a listed row, hide the explorer and leave
/// it with an empty query and the first row selected, without a redraw;
/// confirming first switches to the selected row's tab (1-based) and, for a
/// pane row, focuses that pane. Confirming with no row selected does
/// nothing. Toggling the preview flips only the preview flag and redraws.
pub proof fn lemma_confirm_cancel_preview(model: ExplorerModel)
    ensures
        ({
            let (next, redraw, commands) = model.act(InputAction::Cancel);
            &&& !redraw && commands == seq![HostCommand::HideSelf]
            &&& next == ExplorerModel { query: Seq::empty(), selection: 0, ..model }
        }),
        ({
            let rows = model.results();
            let (next, redraw, commands) = model.act(InputAction::Confirm);
            &&& !redraw
            &&& model.selection < rows.len() ==> {
                &&& next == ExplorerModel { query: Seq::empty(), selection: 0, ..model }
                &&& commands.len() >= 2 && commands.last() == HostCommand::HideSelf
                &&& commands[0] == HostCommand::SwitchTabTo(
                    ((row_tab_position(rows[model.selection as int]) as u32) + 1) as u32,
                )
                &&& rows[model.selection as int] matches FilteredItem::Pane { pane, .. } ==> commands.len()
                    == 3 && commands[1] == (if pane.is_plugin {
                    HostCommand::FocusPluginPane(pane.id)
                } else {
                    HostCommand::FocusTerminalPane(pane.id)
                })
                &&& rows[model.selection as int] is Tab ==> commands.len() == 2
            }
            &&& model.selection >= rows.len() ==> next == model && commands.len() == 0
        }),
        ({
            let (next, redraw, commands) = model.act(InputAction::TogglePreview);
            &&& redraw && commands.len() == 0
            &&& next == ExplorerModel { preview: !model.preview, ..model }
        }),
{
}

} // verus!
