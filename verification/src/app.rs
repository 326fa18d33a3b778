//! The interactive application's state and how events change it. Rendering
//! and event capture live outside; this state machine is what they drive.
use vstd::prelude::*;

use crate::event::AppEvent;

verus! {

/// The state of the viewer: the text being shown, the scroll offset, and
/// whether the user asked to leave.
pub struct App {
    pub log: String,
    pub scroll_state: u16,
    pub quit: bool,
}

impl App {
    /// A fresh viewer over the given text: unscrolled, not quitting.
    pub fn new(log: &str) -> (r: Self)
        ensures
            r.log@ == log@,
            r.scroll_state == 0,
            r.quit == false,
    {
        App { log: log.to_owned(), scroll_state: 0, quit: false }
    }

    /// Apply one event: `Quit` latches the quit flag; nothing else changes.
    pub fn handle_event(&mut self, event: AppEvent)
        ensures
            final(self).quit == (event is Quit || old(self).quit),
            final(self).log == old(self).log,
            final(self).scroll_state == old(self).scroll_state,
    {
        match event {
            AppEvent::Quit => self.quit = true,
            _ => {},
        }
    }

    /// One step of the interactive loop, given the event the terminal
    /// captured.
    pub fn update(&mut self, event: AppEvent)
        ensures
            final(self).quit == (event is Quit || old(self).quit),
            final(self).log == old(self).log,
            final(self).scroll_state == old(self).scroll_state,
    {
        self.handle_event(event);
    }
}

} // verus!
