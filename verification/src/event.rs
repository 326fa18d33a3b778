//! Application events, and the rule that turns a pressed key into one.
use vstd::prelude::*;

verus! {

/// What the surrounding terminal loop asks the application to do.
#[derive(Clone, Copy, PartialEq, Eq, Structural, Debug)]
pub enum AppEvent {
    Quit,
    Nothing,
}

/// The key-dispatch rule: the character of a pressed key (or nothing, for any
/// other kind of input) decides the event. Only 'q' quits.
pub fn classify_key(key: Option<char>) -> (r: AppEvent)
    ensures
        r == (if key == Some('q') {
            AppEvent::Quit
        } else {
            AppEvent::Nothing
        }),
{
    match key {
        Some(c) => if c == 'q' {
            AppEvent::Quit
        } else {
            AppEvent::Nothing
        },
        None => AppEvent::Nothing,
    }
}

} // verus!
