use zellij_spotlight::filter::{FilteredItem, SearchMode};
use zellij_spotlight::render::{render, truncate_with_ellipsis, RenderContext};
use zellij_spotlight::session::{PaneInfo, TabInfo};

fn items() -> Vec<FilteredItem> {
    vec![
        FilteredItem::Tab(TabInfo { position: 0, name: "Editor".to_string() }),
        FilteredItem::Pane {
            pane: PaneInfo { id: 1, is_plugin: false, title: "vim".to_string() },
            tab_position: 0,
        },
        FilteredItem::Pane {
            pane: PaneInfo { id: 2, is_plugin: false, title: "a very long pane title indeed".to_string() },
            tab_position: 0,
        },
    ]
}

#[test]
fn truncation() {
    assert_eq!(truncate_with_ellipsis("hello world", 8), "hello...");
    assert_eq!(truncate_with_ellipsis("hello", 5), "hello");
    assert_eq!(truncate_with_ellipsis("hello", 8), "hello");
    assert_eq!(truncate_with_ellipsis("hello", 2), "...");
    assert_eq!(truncate_with_ellipsis("", 0), "");
    assert_eq!(truncate_with_ellipsis("héllo wörld", 8), "héllo...");
}

#[test]
fn truncated_names_fit_the_width() {
    for text in ["", "a", "abcdef", "ünïcödé strîng of some length"] {
        for max in 3..12 {
            let cut = truncate_with_ellipsis(text, max);
            assert!(cut.chars().count() <= max);
            if text.chars().count() <= max {
                assert_eq!(cut, text);
            } else {
                assert!(cut.ends_with("..."));
            }
        }
    }
}

#[test]
fn frame_with_preview() {
    let items = items();
    let ctx = RenderContext {
        query: "vi",
        items: &items,
        selection_index: 1,
        scroll_offset: 0,
        list_rows: 5,
        search_mode: &SearchMode::TabAndPane,
        cols: 30,
        show_preview: true,
    };
    let rule = "─".repeat(30);
    let expected = format!(
        "Find > vi_{}[TAB & PANE]\n{}\n  \x1b[36mEditor\x1b[0m\n    > \x1b[32mvim\x1b[0m\n      \x1b[90ma very long pane titl...\x1b[0m\n{}\n  \x1b[1mPane: vim\x1b[0m\n",
        " ".repeat(8),
        rule,
        rule
    );
    assert_eq!(render(&ctx), expected);
}

#[test]
fn mode_indicator_pinned_to_the_right() {
    let items: Vec<FilteredItem> = Vec::new();
    for query in ["", "a", "abc", "ab✓", "é"] {
        let ctx = RenderContext {
            query,
            items: &items,
            selection_index: 0,
            scroll_offset: 0,
            list_rows: 3,
            search_mode: &SearchMode::TabOnly,
            cols: 40,
            show_preview: false,
        };
        let out = render(&ctx);
        let first = out.lines().next().unwrap();
        assert_eq!(first.chars().count(), 40);
        assert!(first.ends_with("[TAB ONLY]"));
        assert!(first.starts_with(&format!("Find > {}_", query)));
    }
}

#[test]
fn narrow_terminal_keeps_one_space_and_one_rule_char() {
    let items: Vec<FilteredItem> = Vec::new();
    let ctx = RenderContext {
        query: "x",
        items: &items,
        selection_index: 0,
        scroll_offset: 0,
        list_rows: 0,
        search_mode: &SearchMode::PaneOnly,
        cols: 0,
        show_preview: false,
    };
    assert_eq!(render(&ctx), "Find > x_ [PANE ONLY]\n─\n");
}

#[test]
fn scrolled_window_and_selected_tab() {
    let items = items();
    let ctx = RenderContext {
        query: "",
        items: &items,
        selection_index: 0,
        scroll_offset: 1,
        list_rows: 1,
        search_mode: &SearchMode::TabOnly,
        cols: 12,
        show_preview: true,
    };
    // Only the row at the offset is drawn; the selection is off-screen, so
    // the preview is empty. Pane titles are cut to cols - 6 characters.
    let rule = "─".repeat(12);
    let expected = format!(
        "Find > _{}[TAB ONLY]\n{}\n      \x1b[90mvim\x1b[0m\n{}\n  \x1b[1m\x1b[0m\n",
        " ",
        rule,
        rule
    );
    assert_eq!(render(&ctx), expected);
}

#[test]
fn selected_tab_and_long_preview() {
    let items = vec![FilteredItem::Tab(TabInfo { position: 0, name: "abcdefghijklmnop".to_string() })];
    let ctx = RenderContext {
        query: "",
        items: &items,
        selection_index: 0,
        scroll_offset: 0,
        list_rows: 4,
        search_mode: &SearchMode::TabOnly,
        cols: 8,
        show_preview: true,
    };
    let rule = "─".repeat(8);
    let expected = format!(
        "Find > _ [TAB ONLY]\n{}\n> \x1b[32mabc...\x1b[0m\n{}\n  \x1b[1mTab: abcd...\x1b[0m\n",
        rule, rule
    );
    assert_eq!(render(&ctx), expected);
}
