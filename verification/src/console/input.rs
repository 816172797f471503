//! Key mapping: which key means what, in which mode.

use vstd::prelude::*;

use crate::console::app::{Action, Mode};

verus! {

/// The keys the console reads.
#[derive(Debug, Clone, Copy, PartialEq, Eq)]
pub enum KeyCode {
    Char(char),
    Enter,
    Esc,
    Backspace,
    Delete,
    Left,
    Right,
    Up,
    Down,
    Home,
    End,
    /// Any key the console has no use for.
    Other,
}

/// A key press: the key, and whether Control was held.
#[derive(Debug, Clone, Copy, PartialEq, Eq)]
pub struct Key {
    pub code: KeyCode,
    pub ctrl: bool,
}

/// The keyboard contract. Control keys work in both modes (quit, block
/// mode, scrolling); in prompt mode keys edit and submit; in block mode
/// they move the focus, fold, copy and re-run.
pub open spec fn action_spec(key: Key, mode: Mode) -> Option<Action> {
    if key.ctrl {
        match key.code {
            KeyCode::Char('c') => Some(Action::Quit),
            KeyCode::Char('k') => Some(Action::EnterBlockMode),
            KeyCode::Char('u') => Some(Action::ScrollUp),
            KeyCode::Char('d') => Some(Action::ScrollDown),
            _ => None,
        }
    } else {
        match mode {
            Mode::Prompt => match key.code {
                KeyCode::Enter => Some(Action::Submit),
                KeyCode::Esc => Some(Action::EnterBlockMode),
                KeyCode::Backspace => Some(Action::Backspace),
                KeyCode::Delete => Some(Action::Delete),
                KeyCode::Left => Some(Action::Left),
                KeyCode::Right => Some(Action::Right),
                KeyCode::Up => Some(Action::EnterBlockMode),
                KeyCode::Home => Some(Action::Home),
                KeyCode::End => Some(Action::End),
                KeyCode::Char(c) => Some(Action::Insert(c)),
                _ => None,
            },
            Mode::Block => match key.code {
                KeyCode::Esc | KeyCode::Char('i') => Some(Action::ExitBlockMode),
                KeyCode::Char('j') | KeyCode::Down => Some(Action::FocusNext),
                KeyCode::Char('k') | KeyCode::Up => Some(Action::FocusPrev),
                KeyCode::Enter | KeyCode::Char(' ') => Some(Action::ToggleCollapse),
                KeyCode::Char('y') => Some(Action::Copy),
                KeyCode::Char('r') => Some(Action::Rerun),
                _ => None,
            },
        }
    }
}

/// The action a key asks for in a mode, if any.
pub fn action_for(key: Key, mode: Mode) -> (r: Option<Action>)
    ensures
        r == action_spec(key, mode),
{
    if key.ctrl {
        return match key.code {
            KeyCode::Char('c') => Some(Action::Quit),
            KeyCode::Char('k') => Some(Action::EnterBlockMode),
            KeyCode::Char('u') => Some(Action::ScrollUp),
            KeyCode::Char('d') => Some(Action::ScrollDown),
            _ => None,
        };
    }
    match mode {
        Mode::Prompt => match key.code {
            KeyCode::Enter => Some(Action::Submit),
            KeyCode::Esc => Some(Action::EnterBlockMode),
            KeyCode::Backspace => Some(Action::Backspace),
            KeyCode::Delete => Some(Action::Delete),
            KeyCode::Left => Some(Action::Left),
            KeyCode::Right => Some(Action::Right),
            KeyCode::Up => Some(Action::EnterBlockMode),
            KeyCode::Home => Some(Action::Home),
            KeyCode::End => Some(Action::End),
            KeyCode::Char(c) => Some(Action::Insert(c)),
            _ => None,
        },
        Mode::Block => match key.code {
            KeyCode::Esc | KeyCode::Char('i') => Some(Action::ExitBlockMode),
            KeyCode::Char('j') | KeyCode::Down => Some(Action::FocusNext),
            KeyCode::Char('k') | KeyCode::Up => Some(Action::FocusPrev),
            KeyCode::Enter | KeyCode::Char(' ') => Some(Action::ToggleCollapse),
            KeyCode::Char('y') => Some(Action::Copy),
            KeyCode::Char('r') => Some(Action::Rerun),
            _ => None,
        },
    }
}

/// Esc moves between the two modes and back.
pub proof fn law_esc_toggles_mode()
    ensures
        action_spec(Key { code: KeyCode::Esc, ctrl: false }, Mode::Prompt) == Some(
            Action::EnterBlockMode,
        ),
        action_spec(Key { code: KeyCode::Esc, ctrl: false }, Mode::Block) == Some(
            Action::ExitBlockMode,
        ),
{
}

/// Control keys mean the same in both modes.
pub proof fn law_ctrl_keys_ignore_mode(code: KeyCode)
    ensures
        action_spec(Key { code, ctrl: true }, Mode::Prompt) == action_spec(
            Key { code, ctrl: true },
            Mode::Block,
        ),
{
}

/// In prompt mode every plain character types itself.
pub proof fn law_prompt_types_characters(c: char)
    ensures
        action_spec(Key { code: KeyCode::Char(c), ctrl: false }, Mode::Prompt) == Some(
            Action::Insert(c),
        ),
{
}

} // verus!
