//! Screen geometry and input events as plain values.
use vstd::prelude::*;

verus! {

/// A rectangle of terminal cells.
#[derive(Debug, Clone, Copy, PartialEq, Eq, Structural)]
pub struct Rect {
    pub x: u16,
    pub y: u16,
    pub width: u16,
    pub height: u16,
}

/// The selected row of a table.
#[derive(Debug, Clone, Copy, PartialEq, Eq, Structural)]
pub struct TableState {
    pub selected: Option<usize>,
}

impl TableState {
    pub fn new() -> (r: Self)
        ensures
            r.selected is None,
    {
        TableState { selected: None }
    }

    pub fn select(&mut self, row: Option<usize>)
        ensures
            final(self).selected == row,
    {
        self.selected = row;
    }

    pub fn selected(&self) -> (r: Option<usize>)
        ensures
            r == self.selected,
    {
        self.selected
    }
}

/// The width rule of a table column.
#[derive(Debug, Clone, Copy, PartialEq, Eq, Structural)]
pub enum Constraint {
    Length(u16),
    Min(u16),
    Percentage(u16),
}

/// A key press, as far as the views tell keys apart.
#[derive(Debug, Clone, Copy, PartialEq, Eq, Structural)]
pub enum KeyCode {
    Up,
    Down,
    Left,
    Right,
    PageUp,
    PageDown,
    Home,
    End,
    Enter,
    Esc,
    Backspace,
    Tab,
    BackTab,
    F(u8),
    Char(char),
    Other,
}

/// What a mouse event was, as far as the views tell them apart.
#[derive(Debug, Clone, Copy, PartialEq, Eq, Structural)]
pub enum MouseKind {
    Down,
    Other,
}

/// A mouse event at a terminal cell.
#[derive(Debug, Clone, Copy, PartialEq, Eq, Structural)]
pub struct MouseEvent {
    pub kind: MouseKind,
    pub column: u16,
    pub row: u16,
}

} // verus!
