//! Key events, editor modes, and the pending multi-key command states,
//! together with the command log used by the repeat and macro players.

use vstd::prelude::*;

verus! {

/// One key, reduced to what the dispatcher reads.
#[derive(Clone, Copy, PartialEq, Eq, Structural, Debug)]
pub enum Key {
    Char(char),
    Esc,
    Enter,
    Backspace,
    Delete,
    Tab,
    BackTab,
    Other,
}

/// A key press together with its control-modifier flag.
#[derive(Clone, Copy, PartialEq, Eq, Structural, Debug)]
pub struct KeyInput {
    pub key: Key,
    pub ctrl: bool,
}

/// The editor's exclusive mode.
#[derive(Clone, Copy, PartialEq, Eq, Structural, Debug)]
pub enum Mode {
    Normal,
    Insert,
    VisualChar,
    VisualLine,
    Search,
}

/// The pending prefix of a multi-key command.
#[derive(Clone, Copy, PartialEq, Eq, Structural, Debug)]
pub enum Pending {
    Empty,
    G,
    R,
    C,
    D,
    Y,
    Ci,
    Di,
    Yi,
}

/// Appends a key to the command log while recording is on.
pub fn log_command(code: Key, ctrl: bool, last_command: &mut Vec<KeyInput>, recording: bool)
    ensures
        final(last_command)@ == if recording {
            old(last_command)@.push(KeyInput { key: code, ctrl })
        } else {
            old(last_command)@
        },
{
    if recording {
        last_command.push(KeyInput { key: code, ctrl });
    }
}

} // verus!
