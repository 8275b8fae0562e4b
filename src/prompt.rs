//! The decisions of the interactive directory prompt: what each debounced
//! event of the line-input session leads to.

use vstd::prelude::*;
use crate::text::{normal_of, trim, trim_of};
use crate::url::{Url, UrlView};

verus! {

/// The window, in milliseconds, within which input events are coalesced.
pub const DEBOUNCE_MS: u64 = 50;

/// An event of a line-input session.
pub enum InputEvent {
    /// The line was submitted.
    Submitted(String),
    /// Completion was asked for: the text before the cursor and the ticket
    /// of that moment.
    Completed(String, usize),
    /// Anything else: the session was cancelled or closed.
    Closed,
}

/// What the prompt does next.
pub enum PromptAction {
    /// Change directory to this location.
    Cd(Url),
    /// Ask the completion provider about this text, under this ticket.
    Complete(String, usize),
    /// End the session.
    Stop,
}

/// What an event of the session leads to: a submitted line, trimmed, is a
/// regular location to change to; a completion request is passed on with
/// its text and ticket; anything else ends the session.
pub fn next_action(ev: InputEvent) -> (r: PromptAction)
    ensures
        match ev {
            InputEvent::Submitted(s) => match r {
                PromptAction::Cd(u) => u@ == (UrlView { path: normal_of(trim_of(s@)), regular: true }),
                _ => false,
            },
            InputEvent::Completed(before, ticket) => match r {
                PromptAction::Complete(b, t) => b@ == before@ && t == ticket,
                _ => false,
            },
            InputEvent::Closed => r is Stop,
        },
{
    match ev {
        InputEvent::Submitted(s) => {
            let path = trim(s.as_str());
            PromptAction::Cd(Url::regular(path.as_str()))
        },
        InputEvent::Completed(before, ticket) => PromptAction::Complete(before, ticket),
        InputEvent::Closed => PromptAction::Stop,
    }
}

} // verus!
