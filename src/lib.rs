//! Navigation and line-input core of a terminal file browser: directory
//! changes over a cache of visited views, and ticket-gated completion of a
//! line editor's buffer, with the debouncing and prompt decisions around them.

pub mod text;
pub mod input;
pub mod url;
pub mod tab;
pub mod debounce;
pub mod prompt;
