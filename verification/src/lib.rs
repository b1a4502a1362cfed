//! Session browser for an opencode endpoint: the data model of sessions and
//! messages, the conversation renderer and exporters, and the state machine
//! of the terminal interface.

pub mod claude;
pub mod error;
pub mod history;
pub mod opencode;
pub mod text;
pub mod tui;
