//! Keys of the terminal interface and the transitions they stand for.
use vstd::prelude::*;

use crate::selection::{Action, AppState};

verus! {

/// A key press, as far as the interface tells keys apart.
#[derive(Clone, Copy, Debug, PartialEq, Eq, Structural)]
pub enum Key {
    Char(char),
    Up,
    Down,
    Left,
    Right,
    Tab,
    BackTab,
    Enter,
    Other,
}

/// The transition that a key stands for.
pub open spec fn key_action(k: Key) -> Option<Action> {
    match k {
        Key::Char('j') | Key::Down => Some(Action::MoveDown),
        Key::Char('k') | Key::Up => Some(Action::MoveUp),
        Key::Char('g') => Some(Action::JumpTop),
        Key::Char('G') => Some(Action::JumpBottom),
        Key::Char('h') | Key::Left | Key::BackTab => Some(Action::PrevGroup),
        Key::Char('l') | Key::Right | Key::Tab => Some(Action::NextGroup),
        Key::Enter => Some(Action::Confirm),
        Key::Char('q') => Some(Action::Quit),
        _ => None,
    }
}

/// The transition that `k` stands for, if any.
pub fn action_for_key(k: Key) -> (r: Option<Action>)
    ensures
        r == key_action(k),
{
    match k {
        Key::Char('j') | Key::Down => Some(Action::MoveDown),
        Key::Char('k') | Key::Up => Some(Action::MoveUp),
        Key::Char('g') => Some(Action::JumpTop),
        Key::Char('G') => Some(Action::JumpBottom),
        Key::Char('h') | Key::Left | Key::BackTab => Some(Action::PrevGroup),
        Key::Char('l') | Key::Right | Key::Tab => Some(Action::NextGroup),
        Key::Enter => Some(Action::Confirm),
        Key::Char('q') => Some(Action::Quit),
        _ => None,
    }
}

/// Applies the transition of one key press; returns whether the state is
/// now finished, that is whether the input loop ends.
pub fn handle_key(app: &mut AppState, k: Key) -> (done: bool)
    requires
        old(app)@.wf(),
    ensures
        final(app)@ == (match key_action(k) {
            Some(a) => old(app)@.step(a),
            None => old(app)@,
        }),
        final(app)@.wf(),
        done == final(app)@.finished,
{
    match action_for_key(k) {
        Some(a) => app.apply(a),
        None => {},
    }
    app.finished
}

} // verus!
