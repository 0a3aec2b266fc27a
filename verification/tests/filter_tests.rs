use std::collections::HashMap;

use zellij_spotlight::filter::{
    compute_filtered, compute_selectable, default_exclusions, is_excluded_plugin,
    should_include_pane, should_include_tab, title_is_excluded, FilteredItem, SearchMode,
};
use zellij_spotlight::session::{PaneInfo, PaneManifest, TabInfo};
use zellij_spotlight::text::contains_text;

fn tab(position: usize, name: &str) -> TabInfo {
    TabInfo { position, name: name.to_string() }
}

fn pane(id: u32, is_plugin: bool, title: &str) -> PaneInfo {
    PaneInfo { id, is_plugin, title: title.to_string() }
}

fn session() -> (Vec<TabInfo>, PaneManifest) {
    let tabs = vec![tab(0, "Editor"), tab(1, "Logs"), tab(2, "Scratch")];
    let mut panes = HashMap::new();
    panes.insert(
        0,
        vec![pane(1, false, "vim src/main.rs"), pane(7, true, "Tab-Bar"), pane(2, false, "cargo watch")],
    );
    panes.insert(1, vec![pane(3, false, "tail -f app.log"), pane(4, false, "journalctl")]);
    (tabs, PaneManifest { panes })
}

/// Describes rows as (is_tab, tab position, pane id) for comparison.
fn shape(items: &[FilteredItem]) -> Vec<(bool, usize, u32)> {
    items
        .iter()
        .map(|item| match item {
            FilteredItem::Tab(t) => (true, t.position, 0),
            FilteredItem::Pane { pane, tab_position } => (false, *tab_position, pane.id),
        })
        .collect()
}

#[test]
fn cycle_visits_all_modes_in_order() {
    assert_eq!(SearchMode::TabAndPane.cycle(), SearchMode::TabOnly);
    assert_eq!(SearchMode::TabOnly.cycle(), SearchMode::PaneOnly);
    assert_eq!(SearchMode::PaneOnly.cycle(), SearchMode::TabAndPane);
}

#[test]
fn cycle_has_period_three() {
    for mode in [SearchMode::TabAndPane, SearchMode::TabOnly, SearchMode::PaneOnly] {
        assert_ne!(mode.cycle(), mode);
        assert_eq!(mode.cycle().cycle().cycle(), mode);
    }
}

#[test]
fn labels() {
    assert_eq!(SearchMode::TabAndPane.label(), "TAB & PANE");
    assert_eq!(SearchMode::TabOnly.label(), "TAB ONLY");
    assert_eq!(SearchMode::PaneOnly.label(), "PANE ONLY");
}

#[test]
fn default_mode_is_tab_and_pane() {
    assert_eq!(SearchMode::default(), SearchMode::TabAndPane);
}

#[test]
fn default_exclusion_list() {
    assert_eq!(default_exclusions(), vec!["tab-bar", "status-bar", "zellij-spotlight", "session-manager"]);
}

#[test]
fn contains_text_cases() {
    assert!(contains_text("vim src/main.rs", "main"));
    assert!(contains_text("abc", ""));
    assert!(contains_text("", ""));
    assert!(!contains_text("", "a"));
    assert!(!contains_text("ab", "abc"));
    assert!(contains_text("aab", "ab"));
    assert!(!contains_text("Main", "main"));
    assert!(contains_text("héllo", "él"));
}

#[test]
fn excluded_plugins() {
    let ex = default_exclusions();
    assert!(is_excluded_plugin(&pane(1, true, "Tab-Bar"), &ex));
    assert!(is_excluded_plugin(&pane(1, true, "zellij:status-bar"), &ex));
    assert!(!is_excluded_plugin(&pane(1, false, "tab-bar"), &ex));
    assert!(!is_excluded_plugin(&pane(1, true, "strider"), &ex));
    assert!(title_is_excluded("my session-manager", &ex));
    assert!(!title_is_excluded("Session-Manager", &ex));
}

#[test]
fn inclusion_rules() {
    assert!(!should_include_pane(&SearchMode::TabAndPane, false, true));
    assert!(should_include_pane(&SearchMode::TabAndPane, true, false));
    assert!(should_include_pane(&SearchMode::TabAndPane, true, true));
    assert!(!should_include_pane(&SearchMode::TabAndPane, false, false));
    assert!(should_include_pane(&SearchMode::TabOnly, false, true));
    assert!(!should_include_pane(&SearchMode::TabOnly, true, false));
    assert!(should_include_pane(&SearchMode::PaneOnly, true, false));
    assert!(!should_include_pane(&SearchMode::PaneOnly, false, true));
    assert!(should_include_tab(&SearchMode::TabAndPane, false, true));
    assert!(!should_include_tab(&SearchMode::TabOnly, false, true));
    assert!(should_include_tab(&SearchMode::PaneOnly, false, true));
    assert!(!should_include_tab(&SearchMode::PaneOnly, true, false));
}

#[test]
fn empty_query_lists_everything_but_excluded_plugins() {
    let (tabs, panes) = session();
    let items = compute_filtered(&tabs, &panes, "", &SearchMode::TabAndPane, &default_exclusions());
    assert_eq!(
        shape(&items),
        vec![(true, 0, 0), (false, 0, 1), (false, 0, 2), (true, 1, 0), (false, 1, 3), (false, 1, 4), (true, 2, 0)]
    );
}

#[test]
fn query_matching_a_pane_shows_its_tab_and_hides_other_panes() {
    let (tabs, panes) = session();
    let items = compute_filtered(&tabs, &panes, "vim", &SearchMode::TabAndPane, &default_exclusions());
    assert_eq!(shape(&items), vec![(true, 0, 0), (false, 0, 1)]);
}

#[test]
fn matching_ignores_case() {
    let (tabs, panes) = session();
    let items = compute_filtered(&tabs, &panes, "LOGS", &SearchMode::TabAndPane, &default_exclusions());
    // The tab name matches; none of its pane titles does, so they are hidden.
    assert_eq!(shape(&items), vec![(true, 1, 0)]);
    let items = compute_filtered(&tabs, &panes, "App.Log", &SearchMode::TabAndPane, &default_exclusions());
    assert_eq!(shape(&items), vec![(true, 1, 0), (false, 1, 3)]);
    let items = compute_filtered(&tabs, &panes, "Cargo", &SearchMode::PaneOnly, &default_exclusions());
    assert_eq!(shape(&items), vec![(true, 0, 0), (false, 0, 2)]);
}

#[test]
fn tab_only_mode_lists_matching_tabs_alone() {
    let (tabs, panes) = session();
    let items = compute_filtered(&tabs, &panes, "s", &SearchMode::TabOnly, &default_exclusions());
    assert_eq!(shape(&items), vec![(true, 1, 0), (true, 2, 0)]);
    let items = compute_filtered(&tabs, &panes, "vim", &SearchMode::TabOnly, &default_exclusions());
    assert!(items.is_empty());
}

#[test]
fn pane_only_mode_ignores_tab_names() {
    let (tabs, panes) = session();
    let items = compute_filtered(&tabs, &panes, "logs", &SearchMode::PaneOnly, &default_exclusions());
    assert!(items.is_empty());
    let items = compute_filtered(&tabs, &panes, "a", &SearchMode::PaneOnly, &default_exclusions());
    // "Tab-Bar" matches but is an excluded plugin; a tab without panes is never listed.
    assert_eq!(
        shape(&items),
        vec![(true, 0, 0), (false, 0, 1), (false, 0, 2), (true, 1, 0), (false, 1, 3), (false, 1, 4)]
    );
}

#[test]
fn excluded_plugin_hidden_even_when_it_matches() {
    let (tabs, panes) = session();
    let items = compute_filtered(&tabs, &panes, "bar", &SearchMode::TabAndPane, &default_exclusions());
    assert!(items.is_empty());
    let items = compute_filtered(&tabs, &panes, "bar", &SearchMode::TabAndPane, &[]);
    assert_eq!(shape(&items), vec![(true, 0, 0), (false, 0, 7)]);
}

#[test]
fn tabs_without_manifest_entry_have_no_panes() {
    let tabs = vec![tab(5, "Solo")];
    let panes = PaneManifest::new();
    let items = compute_filtered(&tabs, &panes, "", &SearchMode::PaneOnly, &default_exclusions());
    assert!(items.is_empty());
    let items = compute_filtered(&tabs, &panes, "", &SearchMode::TabAndPane, &default_exclusions());
    assert_eq!(shape(&items), vec![(true, 5, 0)]);
}

#[test]
fn selectable_rows_are_panes_or_tabs_by_mode() {
    let (tabs, panes) = session();
    let ex = default_exclusions();
    let items = compute_filtered(&tabs, &panes, "", &SearchMode::TabAndPane, &ex);
    assert_eq!(compute_selectable(&items, &SearchMode::TabAndPane), vec![1, 2, 4, 5]);
    assert_eq!(compute_selectable(&items, &SearchMode::PaneOnly), vec![1, 2, 4, 5]);
    assert_eq!(compute_selectable(&items, &SearchMode::TabOnly), vec![0, 3, 6]);
    assert_eq!(compute_selectable(&[], &SearchMode::TabOnly), Vec::<usize>::new());
}

#[test]
fn non_matching_panes_are_hidden_under_a_matching_tab() {
    let tabs = vec![tab(0, "work")];
    let mut panes = HashMap::new();
    panes.insert(0, vec![pane(1, false, "htop"), pane(2, false, "work notes")]);
    let panes = PaneManifest { panes };
    let items = compute_filtered(&tabs, &panes, "work", &SearchMode::TabAndPane, &default_exclusions());
    assert_eq!(shape(&items), vec![(true, 0, 0), (false, 0, 2)]);
}

#[test]
fn narrower_query_never_adds_rows() {
    let (tabs, panes) = session();
    let ex = default_exclusions();
    for mode in [SearchMode::TabAndPane, SearchMode::TabOnly, SearchMode::PaneOnly] {
        let wide = shape(&compute_filtered(&tabs, &panes, "a", &mode, &ex));
        let narrow = shape(&compute_filtered(&tabs, &panes, "ap", &mode, &ex));
        let mut it = wide.iter();
        for row in &narrow {
            assert!(it.any(|w| w == row));
        }
    }
}

#[test]
fn tab_and_pane_mode_lists_union_of_single_modes() {
    let (tabs, panes) = session();
    let ex = default_exclusions();
    let both = shape(&compute_filtered(&tabs, &panes, "t", &SearchMode::TabAndPane, &ex));
    let tabs_only = shape(&compute_filtered(&tabs, &panes, "t", &SearchMode::TabOnly, &ex));
    let panes_only = shape(&compute_filtered(&tabs, &panes, "t", &SearchMode::PaneOnly, &ex));
    // "Editor" and "Scratch" match; "Logs" is listed for its matching panes.
    assert_eq!(tabs_only, vec![(true, 0, 0), (true, 2, 0)]);
    assert_eq!(panes_only, vec![(true, 0, 0), (false, 0, 2), (true, 1, 0), (false, 1, 3), (false, 1, 4)]);
    assert_eq!(
        both,
        vec![(true, 0, 0), (false, 0, 2), (true, 1, 0), (false, 1, 3), (false, 1, 4), (true, 2, 0)]
    );
}
