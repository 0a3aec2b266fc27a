use std::collections::HashMap;

use zellij_spotlight::action::HostCommand;
use zellij_spotlight::filter::SearchMode;
use zellij_spotlight::input::{BareKey, KeyModifier, KeyWithModifier};
use zellij_spotlight::session::{PaneInfo, PaneManifest, TabInfo};
use zellij_spotlight::state::{clamp_index, next_selectable, previous_selectable, Event, PluginState};

fn tabs() -> Vec<TabInfo> {
    vec![
        TabInfo { position: 0, name: "Editor".to_string() },
        TabInfo { position: 1, name: "Logs".to_string() },
    ]
}

fn manifest() -> PaneManifest {
    let mut panes = HashMap::new();
    panes.insert(
        0,
        vec![
            PaneInfo { id: 1, is_plugin: false, title: "vim".to_string() },
            PaneInfo { id: 9, is_plugin: true, title: "status-bar".to_string() },
            PaneInfo { id: 2, is_plugin: false, title: "shell".to_string() },
        ],
    );
    panes.insert(1, vec![PaneInfo { id: 3, is_plugin: true, title: "log viewer".to_string() }]);
    PaneManifest { panes }
}

fn press(bare_key: BareKey) -> Event {
    Event::Key(KeyWithModifier { bare_key, key_modifiers: vec![] })
}

fn ctrl(c: char) -> Event {
    Event::Key(KeyWithModifier { bare_key: BareKey::Char(c), key_modifiers: vec![KeyModifier::Ctrl] })
}

/// A state over the session above; rows: 0 Editor, 1 vim, 2 shell, 3 Logs, 4 log viewer.
fn loaded() -> PluginState {
    let mut state = PluginState::new();
    assert!(state.update(Event::TabUpdate(tabs())).should_render);
    assert!(state.update(Event::PaneUpdate(manifest())).should_render);
    state
}

#[test]
fn new_state_is_empty() {
    let state = PluginState::new();
    assert!(state.tabs.is_empty());
    assert!(state.panes.panes.is_empty());
    assert_eq!(state.search_query, "");
    assert_eq!(state.search_mode, SearchMode::TabAndPane);
    assert_eq!(state.selection_index, 0);
    assert_eq!(state.scroll_offset, 0);
    assert!(!state.show_preview);
}

#[test]
fn updates_put_the_selection_on_the_first_pane() {
    let state = loaded();
    assert_eq!(state.selectable_indices(), vec![1, 2, 4]);
    assert_eq!(state.selection_index, 1);
}

#[test]
fn navigation_skips_tab_headers() {
    let mut state = loaded();
    state.update(press(BareKey::Down));
    assert_eq!(state.selection_index, 2);
    state.update(press(BareKey::Down));
    assert_eq!(state.selection_index, 4);
    let outcome = state.update(press(BareKey::Down));
    assert!(outcome.should_render);
    assert_eq!(state.selection_index, 4);
    state.update(press(BareKey::Up));
    assert_eq!(state.selection_index, 2);
    state.update(press(BareKey::Up));
    state.update(press(BareKey::Up));
    assert_eq!(state.selection_index, 1);
}

#[test]
fn down_then_up_returns() {
    let mut state = loaded();
    for start in [1usize, 2] {
        state.selection_index = start;
        state.move_selection_down();
        state.move_selection_up();
        assert_eq!(state.selection_index, start);
    }
}

#[test]
fn typing_filters_and_keeps_selection_on_a_pane() {
    let mut state = loaded();
    state.selection_index = 4;
    for c in "SH".chars() {
        let outcome = state.update(press(BareKey::Char(c)));
        assert!(outcome.should_render);
        assert!(outcome.commands.is_empty());
    }
    assert_eq!(state.search_query, "SH");
    // Rows: 0 Editor, 1 shell; the selection moves to the nearest pane above.
    assert_eq!(state.selection_index, 1);
    state.update(press(BareKey::Backspace));
    assert_eq!(state.search_query, "S");
    state.update(press(BareKey::Backspace));
    state.update(press(BareKey::Backspace));
    assert_eq!(state.search_query, "");
}

#[test]
fn no_match_resets_selection() {
    let mut state = loaded();
    state.selection_index = 4;
    state.update(press(BareKey::Char('z')));
    assert_eq!(state.selection_index, 0);
    assert!(state.filtered_results().is_empty());
}

#[test]
fn tab_key_cycles_mode_and_clamps() {
    let mut state = loaded();
    state.selection_index = 2;
    state.update(press(BareKey::Tab));
    assert_eq!(state.search_mode, SearchMode::TabOnly);
    // Only tabs are listed: 0 Editor, 1 Logs; 2 is past the end, so the
    // nearest selectable row above is chosen.
    assert_eq!(state.selectable_indices(), vec![0, 1]);
    assert_eq!(state.selection_index, 1);
    state.update(press(BareKey::Tab));
    assert_eq!(state.search_mode, SearchMode::PaneOnly);
    state.update(press(BareKey::Tab));
    assert_eq!(state.search_mode, SearchMode::TabAndPane);
}

#[test]
fn enter_focuses_the_selected_pane_and_hides() {
    let mut state = loaded();
    state.update(press(BareKey::Char('l')));
    state.update(press(BareKey::Char('o')));
    state.update(press(BareKey::Char('g')));
    // Rows: 0 Logs, 1 log viewer.
    assert_eq!(state.selection_index, 1);
    let outcome = state.update(press(BareKey::Enter));
    assert!(!outcome.should_render);
    assert_eq!(
        outcome.commands,
        vec![HostCommand::SwitchTabTo(2), HostCommand::FocusPluginPane(3), HostCommand::HideSelf]
    );
    assert_eq!(state.search_query, "");
    assert_eq!(state.selection_index, 0);
}

#[test]
fn enter_on_tab_in_tab_only_mode() {
    let mut state = loaded();
    state.search_mode = SearchMode::TabOnly;
    state.selection_index = 0;
    let outcome = state.try_update(press(BareKey::Enter)).unwrap();
    assert_eq!(outcome.commands, vec![HostCommand::SwitchTabTo(1), HostCommand::HideSelf]);
}

#[test]
fn enter_with_nothing_selected_does_nothing() {
    let mut state = PluginState::new();
    let outcome = state.update(press(BareKey::Enter));
    assert!(!outcome.should_render);
    assert!(outcome.commands.is_empty());
}

#[test]
fn escape_and_ctrl_c_cancel() {
    for event in [press(BareKey::Esc), ctrl('c')] {
        let mut state = loaded();
        state.update(press(BareKey::Char('v')));
        let outcome = state.update(event);
        assert!(!outcome.should_render);
        assert_eq!(outcome.commands, vec![HostCommand::HideSelf]);
        assert_eq!(state.search_query, "");
        assert_eq!(state.selection_index, 0);
    }
}

#[test]
fn ctrl_e_toggles_preview() {
    let mut state = loaded();
    assert!(state.update(ctrl('e')).should_render);
    assert!(state.show_preview);
    state.update(ctrl('e'));
    assert!(!state.show_preview);
}

#[test]
fn ignored_events() {
    let mut state = loaded();
    let outcome = state.update(Event::Other);
    assert!(!outcome.should_render);
    let outcome = state.update(ctrl('x'));
    assert!(!outcome.should_render);
    assert_eq!(state.search_query, "");
    let outcome = state.update(press(BareKey::F(5)));
    assert!(!outcome.should_render);
}

#[test]
fn refused_confirm_leaves_state_alone() {
    let mut state = PluginState::new();
    state.update(Event::TabUpdate(vec![TabInfo { position: u32::MAX as usize, name: "Far".to_string() }]));
    state.search_mode = SearchMode::TabOnly;
    state.selection_index = 0;
    assert!(!state.confirm_allowed());
    assert!(state.try_update(press(BareKey::Enter)).is_none());
    assert_eq!(state.selection_index, 0);
    assert!(state.try_update(press(BareKey::Down)).is_some());
}

#[test]
fn render_scrolls_to_keep_selection_visible() {
    let mut state = loaded();
    state.selection_index = 4;
    // 5 rows leave 3 for the list, below the prompt and the rule.
    let frame = state.render(5, 20);
    assert_eq!(state.scroll_offset, 2);
    assert!(frame.contains("    > \x1b[32mlog viewer\x1b[0m\n"));
    assert!(!frame.contains("vim"));
    state.selection_index = 1;
    state.render(5, 20);
    assert_eq!(state.scroll_offset, 1);
    state.selection_index = 2;
    state.render(5, 20);
    assert_eq!(state.scroll_offset, 1);
    // With the preview three more rows go; 5 rows leave none.
    state.show_preview = true;
    state.render(5, 20);
    assert_eq!(state.scroll_offset, 0);
}

#[test]
fn render_keeps_selection_in_view_for_all_sizes() {
    let mut state = loaded();
    for rows in 0..10usize {
        for sel in [1usize, 2, 4] {
            state.selection_index = sel;
            state.render(rows, 30);
            let list_rows = rows.saturating_sub(2);
            if list_rows > 0 {
                assert!(state.scroll_offset <= sel && sel < state.scroll_offset + list_rows);
            } else {
                assert_eq!(state.scroll_offset, 0);
            }
        }
    }
}

#[test]
fn index_helpers() {
    let ix = vec![1usize, 4, 6];
    assert_eq!(previous_selectable(&ix, 4), Some(1));
    assert_eq!(previous_selectable(&ix, 1), None);
    assert_eq!(next_selectable(&ix, 4), Some(6));
    assert_eq!(next_selectable(&ix, 6), None);
    assert_eq!(next_selectable(&ix, 0), Some(1));
    assert_eq!(clamp_index(&ix, 4), 4);
    assert_eq!(clamp_index(&ix, 5), 4);
    assert_eq!(clamp_index(&ix, 0), 1);
    assert_eq!(clamp_index(&ix, 100), 6);
    assert_eq!(clamp_index(&vec![], 3), 0);
}

#[test]
fn ten_rows_draw_eight_list_rows() {
    let mut state = PluginState::new();
    let tabs: Vec<TabInfo> = (0..12).map(|i| TabInfo { position: i, name: format!("tab {}", i) }).collect();
    state.update(Event::TabUpdate(tabs));
    state.search_mode = SearchMode::TabOnly;
    let frame = state.render(10, 20);
    assert_eq!(frame.lines().count(), 10);
    assert!(frame.contains("tab 7"));
    assert!(!frame.contains("tab 8"));
}
