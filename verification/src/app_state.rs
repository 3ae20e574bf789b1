//! The viewer's global keys: quitting, reloading and moving the focus
//! between its six panels.
use vstd::prelude::*;
use crate::layout::KeyCode;

verus! {

/// The number of panels the focus moves through.
pub const PANELS: u8 = 6;

/// What a key asks of the viewer as a whole.
#[derive(Debug, Clone, Copy, PartialEq, Eq, Structural)]
pub enum GlobalAction {
    /// Leave at once; the panels do not see the key.
    Quit,
    /// Hand the key on to the panels.
    Continue,
}

/// Which panel has the focus and whether a reload is pending.
#[derive(Debug, Clone, Copy, PartialEq, Eq, Structural)]
pub struct AppState {
    pub focused_widget: u8,
    pub needs_refresh: bool,
    pub is_refreshing: bool,
}

impl AppState {
    /// The focus on the first panel, nothing pending.
    pub fn new() -> (r: Self)
        ensures
            r == (AppState { focused_widget: 0, needs_refresh: false, is_refreshing: false }),
    {
        AppState { focused_widget: 0, needs_refresh: false, is_refreshing: false }
    }

    /// The state after a global key: `q` quits; `r` and F5 ask for a
    /// reload; Tab and BackTab move the focus to the next or previous panel,
    /// round the ends.
    pub open spec fn after_key(self, key: KeyCode) -> Self {
        match key {
            KeyCode::Char('r') | KeyCode::F(5) => AppState { needs_refresh: true, ..self },
            KeyCode::Tab => AppState { focused_widget: ((self.focused_widget + 1) % 6) as u8, ..self },
            KeyCode::BackTab => AppState { focused_widget: ((self.focused_widget + 5) % 6) as u8, ..self },
            _ => self,
        }
    }

    /// Applies a global key (see `after_key`).
    pub fn handle_global_key(&mut self, key: KeyCode) -> (r: GlobalAction)
        requires
            old(self).focused_widget < PANELS,
        ensures
            r == (if key == KeyCode::Char('q') {
                GlobalAction::Quit
            } else {
                GlobalAction::Continue
            }),
            key == KeyCode::Char('q') ==> *final(self) == *old(self),
            key != KeyCode::Char('q') ==> *final(self) == old(self).after_key(key),
            final(self).focused_widget < PANELS,
    {
        match key {
            KeyCode::Char('q') => return GlobalAction::Quit,
            KeyCode::Char('r') | KeyCode::F(5) => {
                self.needs_refresh = true;
            },
            KeyCode::Tab => {
                self.focused_widget = (self.focused_widget + 1) % PANELS;
            },
            KeyCode::BackTab => {
                self.focused_widget = (self.focused_widget + PANELS - 1) % PANELS;
            },
            _ => {},
        }
        GlobalAction::Continue
    }

    /// Whether a panel with the given id has the focus.
    pub fn is_focused(&self, id: u8) -> (r: bool)
        ensures
            r == (self.focused_widget == id),
    {
        self.focused_widget == id
    }

    /// A reload is due when one was asked for, the file watcher saw new
    /// files, or the directory changed.
    pub fn note_changes(&mut self, watcher_saw_change: bool, directory_changed: bool)
        ensures
            *final(self) == (AppState {
                needs_refresh: old(self).needs_refresh || watcher_saw_change || directory_changed,
                ..*old(self)
            }),
    {
        self.needs_refresh = self.needs_refresh || watcher_saw_change || directory_changed;
    }

    /// A reload finished.
    pub fn refreshed(&mut self)
        ensures
            *final(self) == (AppState { needs_refresh: false, is_refreshing: false, ..*old(self) }),
    {
        self.is_refreshing = false;
        self.needs_refresh = false;
    }
}

/// Tab then BackTab leave the focus where it was.
pub proof fn lemma_focus_round_trip(focused: u8)
    requires
        focused < 6,
    ensures
        (((focused + 1) % 6) + 5) % 6 == focused,
{
}

} // verus!
