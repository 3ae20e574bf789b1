//! The tab bar: which view is selected, by key and by click.
use vstd::prelude::*;
use crate::layout::{KeyCode, MouseEvent, MouseKind, Rect};

verus! {

/// A view of the dashboard.
#[derive(Debug, Clone, Copy, PartialEq, Eq, Structural)]
pub enum ViewMode {
    Overview,
    Logs,
    Metrics,
    Alerts,
    Performance,
    Network,
}

/// The name of a view.
pub open spec fn view_name(v: ViewMode) -> Seq<char> {
    match v {
        ViewMode::Overview => "Overview"@,
        ViewMode::Logs => "Logs"@,
        ViewMode::Metrics => "Metrics"@,
        ViewMode::Alerts => "Alerts"@,
        ViewMode::Performance => "Performance"@,
        ViewMode::Network => "Network"@,
    }
}

/// The width of a tab: its name with a space on each side.
pub open spec fn tab_width(v: ViewMode) -> int {
    view_name(v).len() as int + 2
}

proof fn lemma_tab_width_bound(v: ViewMode)
    ensures
        2 <= tab_width(v) <= 13,
{
    reveal_strlit("Overview");
    reveal_strlit("Logs");
    reveal_strlit("Metrics");
    reveal_strlit("Alerts");
    reveal_strlit("Performance");
    reveal_strlit("Network");
}

impl ViewMode {
    /// The view's name.
    pub fn as_str(&self) -> (r: &'static str)
        ensures
            r@ == view_name(*self),
    {
        match self {
            ViewMode::Overview => "Overview",
            ViewMode::Logs => "Logs",
            ViewMode::Metrics => "Metrics",
            ViewMode::Alerts => "Alerts",
            ViewMode::Performance => "Performance",
            ViewMode::Network => "Network",
        }
    }

    /// The width of this view's tab.
    pub fn tab_width(&self) -> (r: u16)
        ensures
            r == tab_width(*self),
    {
        proof {
            reveal_strlit("Overview");
            reveal_strlit("Logs");
            reveal_strlit("Metrics");
            reveal_strlit("Alerts");
            reveal_strlit("Performance");
            reveal_strlit("Network");
        }
        match self {
            ViewMode::Overview => 10,
            ViewMode::Logs => 6,
            ViewMode::Metrics => 9,
            ViewMode::Alerts => 8,
            ViewMode::Performance => 13,
            ViewMode::Network => 9,
        }
    }
}

/// The tab under `column` when the tabs start at `x` (the first tab with
/// `x <= column < x + width`), counting from `from`.
pub open spec fn tab_hit(items: Seq<ViewMode>, x: int, column: int, from: int) -> Option<int>
    decreases items.len() - from,
{
    if from < 0 || from >= items.len() {
        None
    } else if x <= column < x + tab_width(items[from]) {
        Some(from)
    } else {
        tab_hit(items, x + tab_width(items[from]), column, from + 1)
    }
}

/// The tab bar.
pub struct ListWidget {
    pub id: usize,
    pub title: &'static str,
    pub items: [ViewMode; 2],
    pub selected: usize,
    pub area: Option<Rect>,
}

impl ListWidget {
    /// Overview and Logs, the first selected.
    pub fn new() -> (r: Self)
        ensures
            r.id == 0,
            r.title@ == "~ Menu ~"@,
            r.items@ == seq![ViewMode::Overview, ViewMode::Logs],
            r.selected == 0,
            r.area is None,
    {
        ListWidget { id: 0, title: "~ Menu ~", items: [ViewMode::Overview, ViewMode::Logs], selected: 0, area: None }
    }

    /// Tab selects the next tab and BackTab the previous one, round the
    /// ends; other keys change nothing.
    pub fn on_key(&mut self, key: KeyCode)
        requires
            key == KeyCode::Tab ==> old(self).selected < usize::MAX,
            key == KeyCode::BackTab ==> old(self).selected + 1 < usize::MAX,
        ensures
            final(self).id == old(self).id,
            final(self).title == old(self).title,
            final(self).items == old(self).items,
            final(self).area == old(self).area,
            final(self).selected == (match key {
                KeyCode::Tab => ((old(self).selected + 1) % 2) as usize,
                KeyCode::BackTab => ((old(self).selected + 1) % 2) as usize,
                _ => old(self).selected,
            }),
    {
        let n = self.items.len();
        match key {
            KeyCode::Tab => {
                self.selected = (self.selected + 1) % n;
            },
            KeyCode::BackTab => {
                self.selected = (self.selected + n - 1) % n;
            },
            _ => {},
        }
    }

    /// A press on the tab row selects the tab under it (the tabs start one
    /// cell right of the area's left edge, inside the border).
    pub fn on_mouse(&mut self, me: MouseEvent)
        requires
            old(self).area matches Some(a) ==> a.x + 1 + 26 <= u16::MAX,
        ensures
            final(self).id == old(self).id,
            final(self).title == old(self).title,
            final(self).items == old(self).items,
            final(self).area == old(self).area,
            final(self).selected == (match old(self).area {
                Some(a) => if me.kind == MouseKind::Down && me.row == a.y {
                    match tab_hit(old(self).items@, a.x + 1, me.column as int, 0) {
                        Some(i) => i as usize,
                        None => old(self).selected,
                    }
                } else {
                    old(self).selected
                },
                None => old(self).selected,
            }),
    {
        if let Some(area) = self.area {
            if me.kind == MouseKind::Down && me.row == area.y {
                let mut x: u16 = area.x + 1;
                let mut i: usize = 0;
                while i < self.items.len()
                    invariant
                        self.items@.len() == 2,
                        i <= 2,
                        x == area.x + 1 + (if i == 0 {
                            0
                        } else if i == 1 {
                            tab_width(self.items@[0])
                        } else {
                            tab_width(self.items@[0]) + tab_width(self.items@[1])
                        }),
                        area.x + 1 + 26 <= u16::MAX,
                        old(self).area == Some(area),
                        me.kind == MouseKind::Down,
                        me.row == area.y,
                        tab_hit(self.items@, area.x + 1, me.column as int, 0) == tab_hit(
                            self.items@,
                            x as int,
                            me.column as int,
                            i as int,
                        ),
                        self.area == Some(area),
                        self.selected == old(self).selected,
                        self.id == old(self).id,
                        self.title == old(self).title,
                        self.items == old(self).items,
                    decreases 2 - i,
                {
                    proof {
                        lemma_tab_width_bound(self.items@[0]);
                        lemma_tab_width_bound(self.items@[1]);
                    }
                    let w = self.items[i].tab_width();
                    if me.column >= x && me.column < x + w {
                        assert(tab_hit(self.items@, x as int, me.column as int, i as int) == Some(i as int));
                        self.selected = i;
                        return;
                    }
                    x = x + w;
                    i = i + 1;
                }
            }
        }
    }
}

} // verus!

verus! {

/// BackTab undoes Tab, and Tab undoes BackTab, on a tab of the bar.
pub proof fn lemma_tab_back_tab(selected: usize)
    requires
        selected < 2,
    ensures
        ((((selected + 1) % 2) + 1) % 2) == selected,
{
}

} // verus!
