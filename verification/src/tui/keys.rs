//! Key presses as the interface's state machine receives them.

use vstd::prelude::*;

verus! {

/// The key of a key press.
#[derive(Clone, Copy, Debug, PartialEq, Eq, Structural)]
pub enum KeyCode {
    Char(char),
    Esc,
    Enter,
    Left,
    Right,
    Up,
    Down,
    Home,
    End,
    PageUp,
    PageDown,
    Tab,
    Backspace,
    Delete,
    /// Any other key.
    Other,
}

/// The configurable action whose binding a key press matches.
#[derive(Clone, Copy, Debug, PartialEq, Eq, Structural)]
pub enum BoundKey {
    Delete,
    Resume,
    Fork,
}

/// A key press: the key, the Control and Alt modifiers, the configurable
/// binding it matches (delete before resume before fork), and the time of the
/// press in milliseconds of a monotonic clock.
#[derive(Clone, Copy, Debug)]
pub struct KeyInput {
    pub code: KeyCode,
    pub ctrl: bool,
    pub alt: bool,
    pub bound: Option<BoundKey>,
    pub now_ms: u64,
}

/// The key is character `c` pressed with Control.
pub open spec fn ctrl_char(k: KeyInput, c: char) -> bool {
    k.code == KeyCode::Char(c) && k.ctrl
}

/// The key is character `c` pressed with Alt.
pub open spec fn alt_char(k: KeyInput, c: char) -> bool {
    k.code == KeyCode::Char(c) && k.alt
}

pub fn is_ctrl_char(k: &KeyInput, c: char) -> (r: bool)
    ensures
        r == ctrl_char(*k, c),
{
    match k.code {
        KeyCode::Char(x) => x == c && k.ctrl,
        _ => false,
    }
}

pub fn is_alt_char(k: &KeyInput, c: char) -> (r: bool)
    ensures
        r == alt_char(*k, c),
{
    match k.code {
        KeyCode::Char(x) => x == c && k.alt,
        _ => false,
    }
}

pub fn is_char(k: &KeyInput, c: char) -> (r: bool)
    ensures
        r == (k.code == KeyCode::Char(c)),
{
    match k.code {
        KeyCode::Char(x) => x == c,
        _ => false,
    }
}

} // verus!
