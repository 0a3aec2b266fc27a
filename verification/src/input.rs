//! Keys and the actions they stand for.

use vstd::prelude::*;

verus! {

/// A key without its modifiers.
#[derive(Debug, Clone, Copy, PartialEq, Eq, Structural)]
pub enum BareKey {
    PageDown,
    PageUp,
    Left,
    Down,
    Up,
    Right,
    Home,
    End,
    Backspace,
    Delete,
    Insert,
    F(u8),
    Char(char),
    Tab,
    Esc,
    Enter,
    CapsLock,
    ScrollLock,
    NumLock,
    PrintScreen,
    Pause,
    Menu,
}

/// A modifier held with a key.
#[derive(Debug, Clone, Copy, PartialEq, Eq, Structural)]
pub enum KeyModifier {
    Ctrl,
    Alt,
    Shift,
    Super,
}

/// A key press: the key and the modifiers held with it.
pub struct KeyWithModifier {
    pub bare_key: BareKey,
    pub key_modifiers: Vec<KeyModifier>,
}

/// What a key press asks the explorer to do.
#[derive(Debug, Clone, Copy, PartialEq, Eq, Structural)]
pub enum InputAction {
    MoveUp,
    MoveDown,
    CycleMode,
    Confirm,
    DeleteChar,
    TogglePreview,
    Cancel,
    TypeChar(char),
}

/// The action of a key, given whether Ctrl is held: arrows move, Tab cycles
/// the mode, Enter confirms, Backspace deletes, Ctrl+c and Esc cancel,
/// Ctrl+e toggles the preview and a character without Ctrl is typed.
pub open spec fn key_action(bare_key: BareKey, ctrl: bool) -> Option<InputAction> {
    match bare_key {
        BareKey::Up => Some(InputAction::MoveUp),
        BareKey::Down => Some(InputAction::MoveDown),
        BareKey::Tab => Some(InputAction::CycleMode),
        BareKey::Enter => Some(InputAction::Confirm),
        BareKey::Backspace => Some(InputAction::DeleteChar),
        BareKey::Char(c) => if ctrl {
            if c == 'c' {
                Some(InputAction::Cancel)
            } else if c == 'e' {
                Some(InputAction::TogglePreview)
            } else {
                None
            }
        } else {
            Some(InputAction::TypeChar(c))
        },
        BareKey::Esc => Some(InputAction::Cancel),
        _ => None,
    }
}

/// Whether Ctrl is among the modifiers.
pub fn holds_ctrl(modifiers: &Vec<KeyModifier>) -> (r: bool)
    ensures
        r == modifiers@.contains(KeyModifier::Ctrl),
{
    let mut i: usize = 0;
    while i < modifiers.len()
        invariant
            i <= modifiers.len(),
            forall|k: int| 0 <= k < i ==> modifiers@[k] != KeyModifier::Ctrl,
        decreases modifiers.len() - i,
    {
        if modifiers[i] == KeyModifier::Ctrl {
            return true;
        }
        i += 1;
    }
    false
}

/// The action a key press stands for, if any.
pub fn map_key(key: &KeyWithModifier) -> (r: Option<InputAction>)
    ensures
        r == key_action(key.bare_key, key.key_modifiers@.contains(KeyModifier::Ctrl)),
{
    let has_ctrl = holds_ctrl(&key.key_modifiers);
    match key.bare_key {
        BareKey::Up => Some(InputAction::MoveUp),
        BareKey::Down => Some(InputAction::MoveDown),
        BareKey::Tab => Some(InputAction::CycleMode),
        BareKey::Enter => Some(InputAction::Confirm),
        BareKey::Backspace => Some(InputAction::DeleteChar),
        BareKey::Char('c') if has_ctrl => Some(InputAction::Cancel),
        BareKey::Char('e') if has_ctrl => Some(InputAction::TogglePreview),
        BareKey::Char(c) if !has_ctrl => Some(InputAction::TypeChar(c)),
        BareKey::Esc => Some(InputAction::Cancel),
        _ => None,
    }
}


/// Without Ctrl every character key is typed as itself; the preview toggle
/// and Ctrl+c need Ctrl held, and a character with Ctrl is never typed.
pub proof fn lemma_characters_are_typed(c: char, key: BareKey, ctrl: bool)
    ensures
        key_action(BareKey::Char(c), false) == Some(InputAction::TypeChar(c)),
        key_action(key, ctrl) == Some(InputAction::TogglePreview) <==> (ctrl && key == BareKey::Char(
            'e',
        )),
        key_action(key, ctrl) == Some(InputAction::Cancel) <==> (key == BareKey::Esc || (ctrl && key
            == BareKey::Char('c'))),
        key_action(key, ctrl) matches Some(InputAction::TypeChar(t)) ==> !ctrl && key == BareKey::Char(
            t,
        ),
{
}

} // verus!
