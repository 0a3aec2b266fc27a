use zellij_spotlight::action::{selection_commands, tab_number, HostCommand};
use zellij_spotlight::filter::FilteredItem;
use zellij_spotlight::input::{holds_ctrl, map_key, BareKey, InputAction, KeyModifier, KeyWithModifier};
use zellij_spotlight::session::{PaneInfo, TabInfo};

fn key(bare_key: BareKey, key_modifiers: Vec<KeyModifier>) -> KeyWithModifier {
    KeyWithModifier { bare_key, key_modifiers }
}

#[test]
fn navigation_keys() {
    assert_eq!(map_key(&key(BareKey::Up, vec![])), Some(InputAction::MoveUp));
    assert_eq!(map_key(&key(BareKey::Down, vec![])), Some(InputAction::MoveDown));
    assert_eq!(map_key(&key(BareKey::Tab, vec![])), Some(InputAction::CycleMode));
    assert_eq!(map_key(&key(BareKey::Enter, vec![])), Some(InputAction::Confirm));
    assert_eq!(map_key(&key(BareKey::Backspace, vec![])), Some(InputAction::DeleteChar));
    assert_eq!(map_key(&key(BareKey::Esc, vec![])), Some(InputAction::Cancel));
    assert_eq!(map_key(&key(BareKey::Up, vec![KeyModifier::Ctrl])), Some(InputAction::MoveUp));
}

#[test]
fn ctrl_shortcuts() {
    assert_eq!(map_key(&key(BareKey::Char('c'), vec![KeyModifier::Ctrl])), Some(InputAction::Cancel));
    assert_eq!(
        map_key(&key(BareKey::Char('e'), vec![KeyModifier::Alt, KeyModifier::Ctrl])),
        Some(InputAction::TogglePreview)
    );
    assert_eq!(map_key(&key(BareKey::Char('x'), vec![KeyModifier::Ctrl])), None);
}

#[test]
fn plain_characters_are_typed() {
    assert_eq!(map_key(&key(BareKey::Char('c'), vec![])), Some(InputAction::TypeChar('c')));
    assert_eq!(map_key(&key(BareKey::Char('E'), vec![KeyModifier::Shift])), Some(InputAction::TypeChar('E')));
    assert_eq!(map_key(&key(BareKey::Char('é'), vec![KeyModifier::Alt])), Some(InputAction::TypeChar('é')));
}

#[test]
fn other_keys_do_nothing() {
    assert_eq!(map_key(&key(BareKey::F(1), vec![])), None);
    assert_eq!(map_key(&key(BareKey::PageDown, vec![])), None);
    assert_eq!(map_key(&key(BareKey::Left, vec![])), None);
    assert_eq!(map_key(&key(BareKey::Menu, vec![KeyModifier::Ctrl])), None);
}

#[test]
fn ctrl_detection() {
    assert!(holds_ctrl(&vec![KeyModifier::Shift, KeyModifier::Ctrl]));
    assert!(!holds_ctrl(&vec![KeyModifier::Shift, KeyModifier::Super]));
    assert!(!holds_ctrl(&vec![]));
}

#[test]
fn tab_numbers_are_one_based() {
    assert_eq!(tab_number(0), 1);
    assert_eq!(tab_number(4), 5);
}

#[test]
fn selecting_a_terminal_pane_switches_tab_and_focuses_it() {
    let item = FilteredItem::Pane {
        pane: PaneInfo { id: 12, is_plugin: false, title: "vim".to_string() },
        tab_position: 2,
    };
    assert_eq!(
        selection_commands(&item),
        vec![HostCommand::SwitchTabTo(3), HostCommand::FocusTerminalPane(12)]
    );
}

#[test]
fn selecting_a_plugin_pane_focuses_the_plugin() {
    let item = FilteredItem::Pane {
        pane: PaneInfo { id: 4, is_plugin: true, title: "strider".to_string() },
        tab_position: 0,
    };
    assert_eq!(
        selection_commands(&item),
        vec![HostCommand::SwitchTabTo(1), HostCommand::FocusPluginPane(4)]
    );
}

#[test]
fn selecting_a_tab_switches_to_it() {
    let item = FilteredItem::Tab(TabInfo { position: 6, name: "Logs".to_string() });
    assert_eq!(selection_commands(&item), vec![HostCommand::SwitchTabTo(7)]);
}
