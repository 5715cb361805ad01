//! The state of the terminal dashboard and how it answers keys.

use vstd::prelude::*;

verus! {

/// A key that the dashboard reads.
#[derive(Clone, Copy, Debug, PartialEq, Eq, Structural)]
pub enum Key {
    Char(char),
    Esc,
    Other,
}

/// The dashboard.
#[derive(Debug)]
pub struct App {
    pub running: bool,
}

/// The key ends the dashboard: `q` or escape.
pub open spec fn quits(key: Key) -> bool {
    key == Key::Char('q') || key == Key::Esc
}

impl App {
    /// A running dashboard.
    pub fn new() -> (r: App)
        ensures
            r.running,
    {
        App { running: true }
    }

    /// Answers a key: `q` and escape stop the dashboard and return false;
    /// any other key returns true and changes nothing.
    pub fn handle_key(&mut self, key: Key) -> (r: bool)
        ensures
            r == !quits(key),
            final(self).running == if quits(key) { false } else { old(self).running },
    {
        match key {
            Key::Char('q') | Key::Esc => {
                self.running = false;
                false
            },
            _ => true,
        }
    }
}

} // verus!
