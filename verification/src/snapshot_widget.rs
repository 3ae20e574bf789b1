//! The snapshot table: search over name, path and creation stamp, ordering
//! by one of them, navigation, bookmarks, and the events of the selected
//! snapshot.
use vstd::prelude::*;
use crate::layout::{Constraint, KeyCode, Rect, TableState};
use crate::logs_widget::{
    edited_query, find_marked, first_index, first_marked, lemma_first_index, min_nat,
    popup_offset_after, sat_sub, toggled, LogsWidget,
};
use crate::snapshots::{ResolvedEvent, SnapshotFile};
use crate::sort::{arrange_by_text, arranged, text_before};
use crate::text::{chars_of, contains_text, has_substring, lowercase, lowercase_chars, push_str_chars};

verus! {

#[derive(Debug, Clone, Copy, PartialEq, Eq, Structural)]
pub enum SortBy {
    Name,
    Path,
    CreateTime,
}

#[derive(Debug, Clone, Copy, PartialEq, Eq, Structural)]
pub enum SortOrder {
    Ascending,
    Descending,
}

#[derive(Debug, Clone, Copy, PartialEq, Eq, Structural)]
pub enum ViewState {
    Normal,
    Search,
    Help,
    SnapshotDetail,
    EventDetail,
}

/// A snapshot passes the (lower-cased) search text.
pub open spec fn snapshot_matches(s: SnapshotFile, query: Option<Seq<char>>) -> bool {
    match query {
        Some(q) => {
            ||| has_substring(lowercase(s.name@), q)
            ||| has_substring(lowercase(s.path@), q)
            ||| has_substring(lowercase(s.create_at@), q)
        },
        None => true,
    }
}

/// Indices, in increasing order, of the first `n` snapshots that match.
pub open spec fn snapshot_matches_upto(snaps: Seq<SnapshotFile>, query: Option<Seq<char>>, n: nat) -> Seq<usize>
    decreases n,
{
    if n == 0 {
        Seq::empty()
    } else {
        let r = snapshot_matches_upto(snaps, query, (n - 1) as nat);
        if snapshot_matches(snaps[n - 1], query) {
            r.push((n - 1) as usize)
        } else {
            r
        }
    }
}

proof fn lemma_snapshot_matches_props(snaps: Seq<SnapshotFile>, query: Option<Seq<char>>, n: nat)
    requires
        n <= snaps.len(),
        snaps.len() <= usize::MAX,
    ensures
        snapshot_matches_upto(snaps, query, n).len() <= n,
        forall|k: int|
            0 <= k < snapshot_matches_upto(snaps, query, n).len() ==> #[trigger] snapshot_matches_upto(
                snaps,
                query,
                n,
            )[k] < n,
        forall|k: int, l: int|
            0 <= k < l < snapshot_matches_upto(snaps, query, n).len() ==> #[trigger] snapshot_matches_upto(
                snaps,
                query,
                n,
            )[k] < #[trigger] snapshot_matches_upto(snaps, query, n)[l],
        snapshot_matches_upto(snaps, query, n).no_duplicates(),
    decreases n,
{
    if n > 0 {
        lemma_snapshot_matches_props(snaps, query, (n - 1) as nat);
    }
    let r = snapshot_matches_upto(snaps, query, n);
    assert forall|i: int, j: int| 0 <= i < r.len() && 0 <= j < r.len() && i != j implies r[i] != r[j] by {
        if i < j {
            assert(r[i] < r[j]);
        } else {
            assert(r[j] < r[i]);
        }
    }
}

/// The text a snapshot is ordered by.
pub open spec fn snapshot_key(s: SnapshotFile, by: SortBy) -> Seq<char> {
    match by {
        SortBy::Name => s.name@,
        SortBy::Path => s.path@,
        SortBy::CreateTime => s.create_at@,
    }
}

pub open spec fn snapshot_order(snaps: Seq<SnapshotFile>, by: SortBy, order: SortOrder) -> spec_fn(usize, usize) -> bool {
    text_before(|i: usize| snapshot_key(snaps[i as int], by), order == SortOrder::Descending)
}

pub open spec fn snapshot_rows(snaps: Seq<SnapshotFile>, ids: Seq<usize>) -> Seq<(usize, SnapshotFile)> {
    ids.map_values(|i: usize| (i, snaps[i as int]))
}

pub open spec fn same_snapshot_rows(r: Seq<(usize, &SnapshotFile)>, v: Seq<(usize, SnapshotFile)>) -> bool {
    &&& r.len() == v.len()
    &&& forall|k: int| 0 <= k < r.len() ==> (#[trigger] r[k]).0 == v[k].0 && *r[k].1 == v[k].1
}

/// The line counts of the popups' contents, computed by the caller: the
/// selected snapshot's pretty JSON, the selected event's, and the inner log
/// table's detail popup.
#[derive(Debug, Clone, Copy, PartialEq, Eq, Structural)]
pub struct PopupHeights {
    pub snapshot_detail: Option<u16>,
    pub event_detail: Option<u16>,
    pub log_detail: Option<u16>,
}

pub struct SnapshotWidget<'a> {
    pub id: u8,
    pub title: &'static str,
    pub snapshots: &'a Vec<SnapshotFile>,
    pub view_state: ViewState,
    pub focused: bool,
    pub paused: bool,
    pub selected_row: usize,
    pub scroll_offset: u16,
    pub events_selected_row: usize,
    pub events_scroll_offset: u16,
    pub search_query: String,
    pub sort_by: SortBy,
    pub sort_order: SortOrder,
    pub show_timestamps: bool,
    pub show_line_numbers: bool,
    pub wrap_lines: bool,
    pub follow_tail: bool,
    pub auto_scroll: bool,
    pub bookmarks: Vec<usize>,
    pub area: Option<Rect>,
    pub table_state: TableState,
    pub events_table_state: TableState,
    pub events_widget: Option<LogsWidget<'a>>,
}

impl<'a> SnapshotWidget<'a> {
    pub open spec fn query(&self) -> Option<Seq<char>> {
        if self.search_query@.len() > 0 {
            Some(lowercase(self.search_query@))
        } else {
            None
        }
    }

    pub open spec fn matched(&self) -> Seq<usize> {
        snapshot_matches_upto(self.snapshots@, self.query(), self.snapshots@.len())
    }

    /// The snapshots the table shows, in table order.
    pub open spec fn visible_rows(&self) -> Seq<(usize, SnapshotFile)> {
        snapshot_rows(
            self.snapshots@,
            arranged(self.matched(), snapshot_order(self.snapshots@, self.sort_by, self.sort_order)),
        )
    }

    /// The events of the selected snapshot, when a shown row is selected.
    pub open spec fn current_events(&self) -> Option<Seq<ResolvedEvent>> {
        if self.selected_row < self.visible_rows().len() {
            Some(self.visible_rows()[self.selected_row as int].1.data.events@)
        } else {
            None
        }
    }

    /// The number of events of the selected snapshot (0 when none).
    pub open spec fn events_count(&self) -> nat {
        match self.current_events() {
            Some(e) => e.len(),
            None => 0,
        }
    }

    proof fn lemma_matched_props(&self)
        ensures
            self.matched().len() <= self.snapshots@.len(),
            forall|k: int| 0 <= k < self.matched().len() ==> #[trigger] self.matched()[k] < self.snapshots@.len(),
            self.matched().no_duplicates(),
    {
        assert(self.snapshots@.len() == self.snapshots.len());
        lemma_snapshot_matches_props(self.snapshots@, self.query(), self.snapshots@.len());
    }

    fn matched_indices(&self) -> (r: Vec<usize>)
        ensures
            r@ == self.matched(),
    {
        let q = if !self.search_query.as_str().is_empty() {
            Some(lowercase_chars(self.search_query.as_str()))
        } else {
            None
        };
        let mut r: Vec<usize> = Vec::new();
        for i in 0..self.snapshots.len()
            invariant
                (match q {
                    Some(q) => Some(q@),
                    None => None,
                }) == self.query(),
                r@ == snapshot_matches_upto(self.snapshots@, self.query(), i as nat),
        {
            let s = &self.snapshots[i];
            let hit = match &q {
                Some(q) => contains_text(&lowercase_chars(s.name.as_str()), q) || contains_text(
                    &lowercase_chars(s.path.as_str()),
                    q,
                ) || contains_text(&lowercase_chars(s.create_at.as_str()), q),
                None => true,
            };
            if hit {
                r.push(i);
            }
        }
        r
    }

    /// The snapshots the table shows, in table order.
    pub fn filtered_and_sorted_snapshots(&self) -> (r: Vec<(usize, &'a SnapshotFile)>)
        ensures
            same_snapshot_rows(r@, self.visible_rows()),
    {
        proof {
            self.lemma_matched_props();
        }
        let ids = self.matched_indices();
        let snaps: &'a Vec<SnapshotFile> = self.snapshots;
        let mut keys: Vec<Vec<char>> = Vec::new();
        let ghost by = self.sort_by;
        for k in 0..ids.len()
            invariant
                snaps@ == self.snapshots@,
                by == self.sort_by,
                ids@ == self.matched(),
                forall|j: int| 0 <= j < ids.len() ==> #[trigger] ids@[j] < snaps.len(),
                keys.len() == k,
                forall|j: int| 0 <= j < k ==> #[trigger] keys@[j]@ == snapshot_key(snaps@[ids@[j] as int], by),
        {
            let s = &snaps[ids[k]];
            let key = match self.sort_by {
                SortBy::Name => chars_of(s.name.as_str()),
                SortBy::Path => chars_of(s.path.as_str()),
                SortBy::CreateTime => chars_of(s.create_at.as_str()),
            };
            keys.push(key);
        }
        let descending = self.sort_order == SortOrder::Descending;
        let ghost all = snaps@;
        let ghost key = |i: usize| snapshot_key(all[i as int], by);
        let sorted = arrange_by_text(ids, keys, descending, Ghost(key));
        proof {
            broadcast use vstd::seq_lib::to_multiset_contains;

            assert forall|k: int| 0 <= k < sorted.len() implies #[trigger] sorted@[k] < snaps.len() by {
                let x = sorted@[k];
                assert(sorted@.contains(x));
                assert(sorted@.to_multiset().count(x) > 0);
                assert(self.matched().contains(x));
            }
        }
        let mut r: Vec<(usize, &'a SnapshotFile)> = Vec::new();
        for k in 0..sorted.len()
            invariant
                snaps@ == self.snapshots@,
                forall|j: int| 0 <= j < sorted.len() ==> #[trigger] sorted@[j] < snaps.len(),
                same_snapshot_rows(r@, snapshot_rows(snaps@, sorted@.take(k as int))),
        {
            let i = sorted[k];
            r.push((i, &snaps[i]));
            assert(sorted@.take(k + 1) =~= sorted@.take(k as int).push(i));
        }
        assert(sorted@.take(sorted.len() as int) =~= sorted@);
        r
    }

    /// The events of the selected snapshot, when a shown row is selected.
    pub fn get_current_snapshot_events(&self) -> (r: Option<&'a [ResolvedEvent]>)
        ensures
            match r {
                Some(e) => self.current_events() == Some(e@),
                None => self.current_events() is None,
            },
    {
        let rows = self.filtered_and_sorted_snapshots();
        if self.selected_row < rows.len() {
            Some(rows[self.selected_row].1.data.events.as_slice())
        } else {
            None
        }
    }

    /// The event under the event cursor, when there is one.
    pub fn get_selected_event(&self) -> (r: Option<&'a ResolvedEvent>)
        ensures
            r == (match self.current_events() {
                Some(e) => if self.events_selected_row < e.len() {
                    Some(&e[self.events_selected_row as int])
                } else {
                    None
                },
                None => None,
            }),
    {
        match self.get_current_snapshot_events() {
            Some(events) => if self.events_selected_row < events.len() {
                Some(&events[self.events_selected_row])
            } else {
                None
            },
            None => None,
        }
    }

    /// The number of events of the selected snapshot (0 when none).
    fn events_count_exec(&self) -> (r: usize)
        ensures
            r == self.events_count(),
    {
        let rows = self.filtered_and_sorted_snapshots();
        if self.selected_row < rows.len() {
            rows[self.selected_row].1.data.events.len()
        } else {
            0
        }
    }
}

} // verus!

verus! {

impl<'a> SnapshotWidget<'a> {
    /// A widget over `snapshots`: newest first by creation stamp, timestamps
    /// shown, auto-scroll on, the first row of both tables selected.
    pub fn new(snapshots: &'a Vec<SnapshotFile>) -> (r: Self)
        ensures
            r.id == 5,
            r.title@ == "~ System Snapshots ~──"@,
            r.snapshots == snapshots,
            r.view_state == ViewState::Normal,
            !r.focused,
            !r.paused,
            r.selected_row == 0,
            r.scroll_offset == 0,
            r.events_selected_row == 0,
            r.events_scroll_offset == 0,
            r.search_query@ == Seq::<char>::empty(),
            r.sort_by == SortBy::CreateTime,
            r.sort_order == SortOrder::Descending,
            r.show_timestamps,
            !r.show_line_numbers,
            !r.wrap_lines,
            !r.follow_tail,
            r.auto_scroll,
            r.bookmarks@ == Seq::<usize>::empty(),
            r.area is None,
            r.table_state.selected == Some(0usize),
            r.events_table_state.selected == Some(0usize),
            r.events_widget is None,
    {
        let mut table_state = TableState::new();
        table_state.select(Some(0));
        let mut events_table_state = TableState::new();
        events_table_state.select(Some(0));
        SnapshotWidget {
            id: 5,
            title: "~ System Snapshots ~──",
            snapshots,
            view_state: ViewState::Normal,
            focused: false,
            paused: false,
            selected_row: 0,
            scroll_offset: 0,
            events_selected_row: 0,
            events_scroll_offset: 0,
            search_query: String::new(),
            sort_by: SortBy::CreateTime,
            sort_order: SortOrder::Descending,
            show_timestamps: true,
            show_line_numbers: false,
            wrap_lines: false,
            follow_tail: false,
            auto_scroll: true,
            bookmarks: Vec::new(),
            area: None,
            table_state,
            events_table_state,
            events_widget: None,
        }
    }

    /// The event row a key of the event table moves to (`None`: the table
    /// stays as it is).
    pub open spec fn events_row_for_key(self, key: KeyCode) -> Option<usize> {
        let n = self.events_count();
        let row = self.events_selected_row;
        match key {
            KeyCode::Up | KeyCode::Char('k') => if row > 0 {
                Some((row - 1) as usize)
            } else {
                None
            },
            KeyCode::Down | KeyCode::Char('j') => if n > 0 && row + 1 < n {
                Some((row + 1) as usize)
            } else {
                None
            },
            KeyCode::PageUp => Some(sat_sub(row as int, 10) as usize),
            KeyCode::PageDown => if n > 0 {
                Some(min_nat(row + 10, n - 1) as usize)
            } else {
                None
            },
            KeyCode::Home => Some(0usize),
            KeyCode::End => if n > 0 {
                Some((n - 1) as usize)
            } else {
                None
            },
            _ => None,
        }
    }

    /// The widget with the event cursor (and the event table's selection)
    /// on `row`, when there is one.
    pub open spec fn with_events_row(self, row: Option<usize>) -> Self {
        match row {
            Some(i) => SnapshotWidget {
                events_selected_row: i,
                events_table_state: TableState { selected: Some(i) },
                ..self
            },
            None => self,
        }
    }

    fn set_events_row(&mut self, row: usize)
        ensures
            *final(self) == old(self).with_events_row(Some(row)),
    {
        self.events_selected_row = row;
        self.events_table_state.select(Some(row));
    }

    fn move_events_cursor_up(&mut self)
        ensures
            *final(self) == old(self).with_events_row(old(self).events_row_for_key(KeyCode::Up)),
    {
        if self.events_selected_row > 0 {
            let row = self.events_selected_row - 1;
            self.set_events_row(row);
        }
    }

    fn move_events_cursor_down(&mut self)
        ensures
            *final(self) == old(self).with_events_row(old(self).events_row_for_key(KeyCode::Down)),
    {
        let n = self.events_count_exec();
        if n > 0 && self.events_selected_row < n - 1 {
            let row = self.events_selected_row + 1;
            self.set_events_row(row);
        }
    }

    fn events_page_up(&mut self)
        ensures
            *final(self) == old(self).with_events_row(old(self).events_row_for_key(KeyCode::PageUp)),
    {
        let row = self.events_selected_row.saturating_sub(10);
        self.set_events_row(row);
    }

    fn events_page_down(&mut self)
        ensures
            *final(self) == old(self).with_events_row(old(self).events_row_for_key(KeyCode::PageDown)),
    {
        let n = self.events_count_exec();
        if n > 0 {
            let last = n - 1;
            let row = if self.events_selected_row < last && last - self.events_selected_row >= 10 {
                self.events_selected_row + 10
            } else {
                last
            };
            self.set_events_row(row);
        }
    }

    fn events_go_to_top(&mut self)
        ensures
            *final(self) == old(self).with_events_row(old(self).events_row_for_key(KeyCode::Home)),
    {
        self.set_events_row(0);
    }

    fn events_go_to_bottom(&mut self)
        ensures
            *final(self) == old(self).with_events_row(old(self).events_row_for_key(KeyCode::End)),
    {
        let n = self.events_count_exec();
        if n > 0 {
            self.set_events_row(n - 1);
        }
    }
}

} // verus!

verus! {

impl<'a> SnapshotWidget<'a> {
    /// The snapshot row a navigation key moves the cursor to (`None` for
    /// keys that do not navigate). `n` and `N` move only while there is a
    /// search text.
    pub open spec fn cursor_for_key(self, key: KeyCode) -> Option<usize> {
        let n = self.visible_rows().len();
        let row = self.selected_row;
        let up: usize = if row > 0 {
            (row - 1) as usize
        } else {
            row
        };
        let down: usize = if n > 0 && row + 1 < n {
            (row + 1) as usize
        } else {
            row
        };
        match key {
            KeyCode::Up | KeyCode::Char('k') => Some(up),
            KeyCode::Down | KeyCode::Char('j') => Some(down),
            KeyCode::PageUp => Some(sat_sub(row as int, 10) as usize),
            KeyCode::PageDown => Some(
                if n > 0 {
                    min_nat(row + 10, n - 1) as usize
                } else {
                    row
                },
            ),
            KeyCode::Home => Some(0usize),
            KeyCode::End => Some(
                if n > 0 {
                    (n - 1) as usize
                } else {
                    row
                },
            ),
            KeyCode::Char('n') => Some(
                if self.search_query@.len() > 0 {
                    down
                } else {
                    row
                },
            ),
            KeyCode::Char('N') => Some(
                if self.search_query@.len() > 0 {
                    up
                } else {
                    row
                },
            ),
            _ => None,
        }
    }

    fn set_row(&mut self, row: usize)
        ensures
            *final(self) == (SnapshotWidget { selected_row: row, ..*old(self) }),
    {
        self.selected_row = row;
    }

    fn row_count(&self) -> (r: usize)
        ensures
            r == self.visible_rows().len(),
    {
        self.filtered_and_sorted_snapshots().len()
    }

    fn move_cursor_up(&mut self)
        ensures
            *final(self) == (SnapshotWidget {
                selected_row: old(self).cursor_for_key(KeyCode::Up)->0,
                ..*old(self)
            }),
    {
        if self.selected_row > 0 {
            let row = self.selected_row - 1;
            self.set_row(row);
        }
    }

    fn move_cursor_down(&mut self)
        ensures
            *final(self) == (SnapshotWidget {
                selected_row: old(self).cursor_for_key(KeyCode::Down)->0,
                ..*old(self)
            }),
    {
        let n = self.row_count();
        if n > 0 && self.selected_row < n - 1 {
            let row = self.selected_row + 1;
            self.set_row(row);
        }
    }

    fn page_up(&mut self)
        ensures
            *final(self) == (SnapshotWidget {
                selected_row: old(self).cursor_for_key(KeyCode::PageUp)->0,
                ..*old(self)
            }),
    {
        let row = self.selected_row.saturating_sub(10);
        self.set_row(row);
    }

    fn page_down(&mut self)
        ensures
            *final(self) == (SnapshotWidget {
                selected_row: old(self).cursor_for_key(KeyCode::PageDown)->0,
                ..*old(self)
            }),
    {
        let n = self.row_count();
        if n > 0 {
            let last = n - 1;
            let row = if self.selected_row < last && last - self.selected_row >= 10 {
                self.selected_row + 10
            } else {
                last
            };
            self.set_row(row);
        }
    }

    fn go_to_top(&mut self)
        ensures
            *final(self) == (SnapshotWidget { selected_row: 0, ..*old(self) }),
    {
        self.set_row(0);
    }

    fn go_to_bottom(&mut self)
        ensures
            *final(self) == (SnapshotWidget {
                selected_row: old(self).cursor_for_key(KeyCode::End)->0,
                ..*old(self)
            }),
    {
        let n = self.row_count();
        if n > 0 {
            self.set_row(n - 1);
        }
    }

    /// Moves the cursor as a navigation key asks.
    fn navigate(&mut self, key: KeyCode)
        requires
            old(self).cursor_for_key(key) is Some,
        ensures
            *final(self) == (SnapshotWidget {
                selected_row: old(self).cursor_for_key(key)->0,
                ..*old(self)
            }),
    {
        match key {
            KeyCode::Up | KeyCode::Char('k') => self.move_cursor_up(),
            KeyCode::Down | KeyCode::Char('j') => self.move_cursor_down(),
            KeyCode::PageUp => self.page_up(),
            KeyCode::PageDown => self.page_down(),
            KeyCode::Home => self.go_to_top(),
            KeyCode::End => self.go_to_bottom(),
            KeyCode::Char('n') => {
                if !self.search_query.as_str().is_empty() {
                    self.move_cursor_down();
                }
            },
            _ => {
                if !self.search_query.as_str().is_empty() {
                    self.move_cursor_up();
                }
            },
        }
    }

    fn set_scroll_offset(&mut self, offset: u16)
        ensures
            *final(self) == (SnapshotWidget { scroll_offset: offset, ..*old(self) }),
    {
        self.scroll_offset = offset;
    }

    fn set_events_scroll_offset(&mut self, offset: u16)
        ensures
            *final(self) == (SnapshotWidget { events_scroll_offset: offset, ..*old(self) }),
    {
        self.events_scroll_offset = offset;
    }

    fn scroll_popup_up(&mut self)
        ensures
            *final(self) == (SnapshotWidget {
                scroll_offset: popup_offset_after(old(self).scroll_offset, KeyCode::Up, None),
                ..*old(self)
            }),
    {
        let o = self.scroll_offset.saturating_sub(1);
        self.set_scroll_offset(o);
    }

    fn scroll_popup_down(&mut self)
        ensures
            *final(self) == (SnapshotWidget {
                scroll_offset: popup_offset_after(old(self).scroll_offset, KeyCode::Down, None),
                ..*old(self)
            }),
    {
        let o = self.scroll_offset.saturating_add(1);
        self.set_scroll_offset(o);
    }

    fn scroll_popup_page_up(&mut self)
        ensures
            *final(self) == (SnapshotWidget {
                scroll_offset: popup_offset_after(old(self).scroll_offset, KeyCode::PageUp, None),
                ..*old(self)
            }),
    {
        let o = self.scroll_offset.saturating_sub(10);
        self.set_scroll_offset(o);
    }

    fn scroll_popup_page_down(&mut self)
        ensures
            *final(self) == (SnapshotWidget {
                scroll_offset: popup_offset_after(old(self).scroll_offset, KeyCode::PageDown, None),
                ..*old(self)
            }),
    {
        let o = self.scroll_offset.saturating_add(10);
        self.set_scroll_offset(o);
    }

    fn scroll_popup_to_top(&mut self)
        ensures
            *final(self) == (SnapshotWidget { scroll_offset: 0, ..*old(self) }),
    {
        self.set_scroll_offset(0);
    }

    /// `content_height` is the line count of the selected snapshot's pretty
    /// JSON, when a snapshot is selected.
    fn scroll_popup_to_bottom(&mut self, content_height: Option<u16>)
        ensures
            *final(self) == (SnapshotWidget {
                scroll_offset: popup_offset_after(old(self).scroll_offset, KeyCode::End, content_height),
                ..*old(self)
            }),
    {
        if let Some(h) = content_height {
            self.set_scroll_offset(h.saturating_sub(1));
        }
    }

    fn scroll_event_detail_up(&mut self)
        ensures
            *final(self) == (SnapshotWidget {
                events_scroll_offset: popup_offset_after(old(self).events_scroll_offset, KeyCode::Up, None),
                ..*old(self)
            }),
    {
        let o = self.events_scroll_offset.saturating_sub(1);
        self.set_events_scroll_offset(o);
    }

    fn scroll_event_detail_down(&mut self)
        ensures
            *final(self) == (SnapshotWidget {
                events_scroll_offset: popup_offset_after(old(self).events_scroll_offset, KeyCode::Down, None),
                ..*old(self)
            }),
    {
        let o = self.events_scroll_offset.saturating_add(1);
        self.set_events_scroll_offset(o);
    }

    fn scroll_event_detail_page_up(&mut self)
        ensures
            *final(self) == (SnapshotWidget {
                events_scroll_offset: popup_offset_after(old(self).events_scroll_offset, KeyCode::PageUp, None),
                ..*old(self)
            }),
    {
        let o = self.events_scroll_offset.saturating_sub(10);
        self.set_events_scroll_offset(o);
    }

    fn scroll_event_detail_page_down(&mut self)
        ensures
            *final(self) == (SnapshotWidget {
                events_scroll_offset: popup_offset_after(old(self).events_scroll_offset, KeyCode::PageDown, None),
                ..*old(self)
            }),
    {
        let o = self.events_scroll_offset.saturating_add(10);
        self.set_events_scroll_offset(o);
    }

    fn scroll_event_detail_to_top(&mut self)
        ensures
            *final(self) == (SnapshotWidget { events_scroll_offset: 0, ..*old(self) }),
    {
        self.set_events_scroll_offset(0);
    }

    /// `content_height` is the line count of the selected event's JSON, when
    /// an event is selected.
    fn scroll_event_detail_to_bottom(&mut self, content_height: Option<u16>)
        ensures
            *final(self) == (SnapshotWidget {
                events_scroll_offset: popup_offset_after(old(self).events_scroll_offset, KeyCode::End, content_height),
                ..*old(self)
            }),
    {
        if let Some(h) = content_height {
            self.set_events_scroll_offset(h.saturating_sub(1));
        }
    }
}

} // verus!

verus! {

/// The sort column that follows `s`: name, path, creation time, name.
pub open spec fn next_sort_by(s: SortBy) -> SortBy {
    match s {
        SortBy::Name => SortBy::Path,
        SortBy::Path => SortBy::CreateTime,
        SortBy::CreateTime => SortBy::Name,
    }
}

/// The opposite order.
pub open spec fn flipped(o: SortOrder) -> SortOrder {
    match o {
        SortOrder::Ascending => SortOrder::Descending,
        SortOrder::Descending => SortOrder::Ascending,
    }
}

impl<'a> SnapshotWidget<'a> {
    /// The snapshot indices of the shown rows.
    pub open spec fn visible_ids(self) -> Seq<usize> {
        self.visible_rows().map_values(|r: (usize, SnapshotFile)| r.0)
    }

    /// Where jumping to the next bookmark puts the cursor: the first
    /// bookmarked row after the cursor, else the first bookmarked row.
    pub open spec fn next_bookmark_row(self) -> Option<int> {
        if self.bookmarks@.len() == 0 {
            None
        } else {
            match first_marked(self.visible_ids(), self.bookmarks@, self.selected_row + 1) {
                Some(i) => Some(i),
                None => first_marked(self.visible_ids(), self.bookmarks@, 0),
            }
        }
    }

    /// The bookmarks after toggling the snapshot under the cursor.
    pub open spec fn toggled_marks(self) -> Seq<usize> {
        if self.selected_row < self.visible_rows().len() {
            toggled(self.bookmarks@, self.visible_rows()[self.selected_row as int].0)
        } else {
            self.bookmarks@
        }
    }

    fn visible_ids_exec(&self) -> (r: Vec<usize>)
        ensures
            r@ == self.visible_ids(),
    {
        let rows = self.filtered_and_sorted_snapshots();
        let mut ids: Vec<usize> = Vec::new();
        for k in 0..rows.len()
            invariant
                same_snapshot_rows(rows@, self.visible_rows()),
                ids.len() == k,
                forall|j: int| 0 <= j < k ==> #[trigger] ids@[j] == self.visible_rows()[j].0,
        {
            ids.push(rows[k].0);
        }
        assert(ids@ =~= self.visible_ids());
        ids
    }

    fn set_bookmarks(&mut self, marks: Vec<usize>)
        ensures
            *final(self) == (SnapshotWidget { bookmarks: marks, ..*old(self) }),
    {
        self.bookmarks = marks;
    }

    fn toggled_bookmarks(&self) -> (r: Vec<usize>)
        ensures
            r@ == self.toggled_marks(),
    {
        let ids = self.visible_ids_exec();
        let mut marks = self.bookmarks.clone();
        assert(marks@ =~= self.bookmarks@);
        if self.selected_row < ids.len() {
            let x = ids[self.selected_row];
            let mut pos: usize = 0;
            while pos < marks.len() && marks[pos] != x
                invariant
                    pos <= marks.len(),
                    forall|k: int| 0 <= k < pos ==> marks@[k] != x,
                decreases marks.len() - pos,
            {
                pos = pos + 1;
            }
            proof {
                if marks@.contains(x) {
                    lemma_first_index(marks@, x);
                    let f = first_index(marks@, x);
                    assert(pos == f) by {
                        if pos < f {
                            assert(marks@[pos as int] != x);
                        }
                    }
                }
            }
            if pos < marks.len() {
                marks.remove(pos);
            } else {
                marks.push(x);
            }
        }
        marks
    }

    /// Bookmarks the snapshot under the cursor, or removes its bookmark.
    fn toggle_bookmark(&mut self)
        ensures
            *final(self) == (SnapshotWidget { bookmarks: final(self).bookmarks, ..*old(self) }),
            final(self).bookmarks@ == old(self).toggled_marks(),
    {
        let marks = self.toggled_bookmarks();
        self.set_bookmarks(marks);
    }

    fn next_bookmark_target(&self) -> (r: Option<usize>)
        ensures
            r == (match self.next_bookmark_row() {
                Some(i) => Some(i as usize),
                None => None,
            }),
    {
        if self.bookmarks.len() == 0 {
            return None;
        }
        let ids = self.visible_ids_exec();
        let after = if self.selected_row < usize::MAX {
            find_marked(&ids, &self.bookmarks, self.selected_row + 1)
        } else {
            None
        };
        match after {
            Some(i) => Some(i),
            None => find_marked(&ids, &self.bookmarks, 0),
        }
    }

    /// Moves the cursor to the next bookmarked row (see `next_bookmark_row`).
    fn jump_to_next_bookmark(&mut self)
        ensures
            *final(self) == (match old(self).next_bookmark_row() {
                Some(i) => SnapshotWidget { selected_row: i as usize, ..*old(self) },
                None => *old(self),
            }),
    {
        let target = self.next_bookmark_target();
        if let Some(i) = target {
            self.set_row(i);
        }
    }

    /// Steps the sort column: name, path, creation time, name.
    fn cycle_sort_column(&mut self)
        ensures
            *final(self) == (SnapshotWidget { sort_by: next_sort_by(old(self).sort_by), ..*old(self) }),
    {
        self.sort_by = match self.sort_by {
            SortBy::Name => SortBy::Path,
            SortBy::Path => SortBy::CreateTime,
            SortBy::CreateTime => SortBy::Name,
        };
    }

    /// Reverses the sort order.
    fn toggle_sort_order(&mut self)
        ensures
            *final(self) == (SnapshotWidget { sort_order: flipped(old(self).sort_order), ..*old(self) }),
    {
        self.sort_order = match self.sort_order {
            SortOrder::Ascending => SortOrder::Descending,
            SortOrder::Descending => SortOrder::Ascending,
        };
    }

    /// Drops the search text and goes back to newest-first by creation
    /// stamp.
    fn clear_all_filters(&mut self)
        ensures
            *final(self) == (SnapshotWidget {
                search_query: final(self).search_query,
                sort_by: SortBy::CreateTime,
                sort_order: SortOrder::Descending,
                ..*old(self)
            }),
            final(self).search_query@ == Seq::<char>::empty(),
    {
        self.search_query = String::new();
        self.sort_by = SortBy::CreateTime;
        self.sort_order = SortOrder::Descending;
    }

    /// The arrow shown next to the sorted column's header.
    pub fn get_sort_indicator(&self, column: SortBy) -> (r: &'static str)
        ensures
            r@ == (if self.sort_by == column {
                match self.sort_order {
                    SortOrder::Ascending => "↑"@,
                    SortOrder::Descending => "↓"@,
                }
            } else {
                ""@
            }),
    {
        if self.sort_by == column {
            match self.sort_order {
                SortOrder::Ascending => "↑",
                SortOrder::Descending => "↓",
            }
        } else {
            ""
        }
    }

    /// The symbols for the active view options, in display order: paused,
    /// auto-scroll, follow tail, wrapped lines, line numbers, bookmarks.
    pub fn get_status_indicators(&self) -> (r: Vec<&'static str>)
        ensures
            r@.map_values(|s: &str| s@) == (if self.paused { seq!["⏸"@] } else { Seq::empty() })
                + (if self.auto_scroll { seq!["📜"@] } else { Seq::empty() })
                + (if self.follow_tail { seq!["👁"@] } else { Seq::empty() })
                + (if self.wrap_lines { seq!["↩"@] } else { Seq::empty() })
                + (if self.show_line_numbers { seq!["#"@] } else { Seq::empty() })
                + (if self.bookmarks.len() != 0 { seq!["🔖"@] } else { Seq::empty() }),
    {
        let mut indicators: Vec<&'static str> = Vec::new();
        if self.paused {
            indicators.push("⏸");
        }
        if self.auto_scroll {
            indicators.push("📜");
        }
        if self.follow_tail {
            indicators.push("👁");
        }
        if self.wrap_lines {
            indicators.push("↩");
        }
        if self.show_line_numbers {
            indicators.push("#");
        }
        if self.bookmarks.len() != 0 {
            indicators.push("🔖");
        }
        assert(indicators@.map_values(|s: &str| s@) =~= (if self.paused { seq!["⏸"@] } else { Seq::empty() })
            + (if self.auto_scroll { seq!["📜"@] } else { Seq::empty() })
            + (if self.follow_tail { seq!["👁"@] } else { Seq::empty() })
            + (if self.wrap_lines { seq!["↩"@] } else { Seq::empty() })
            + (if self.show_line_numbers { seq!["#"@] } else { Seq::empty() })
            + (if self.bookmarks.len() != 0 { seq!["🔖"@] } else { Seq::empty() }));
        indicators
    }

    /// Column widths: line numbers (6) when shown, name (at least 20), path
    /// (at least 30), creation time (20) when shown.
    pub fn build_table_constraints(&self) -> (r: Vec<Constraint>)
        ensures
            r@ == (if self.show_line_numbers { seq![Constraint::Length(6)] } else { Seq::empty() })
                + seq![Constraint::Min(20), Constraint::Min(30)]
                + (if self.show_timestamps { seq![Constraint::Length(20)] } else { Seq::empty() }),
    {
        let mut constraints: Vec<Constraint> = Vec::new();
        if self.show_line_numbers {
            constraints.push(Constraint::Length(6));
        }
        constraints.push(Constraint::Min(20));
        constraints.push(Constraint::Min(30));
        if self.show_timestamps {
            constraints.push(Constraint::Length(20));
        }
        assert(constraints@ =~= (if self.show_line_numbers { seq![Constraint::Length(6)] } else { Seq::empty() })
            + seq![Constraint::Min(20), Constraint::Min(30)]
            + (if self.show_timestamps { seq![Constraint::Length(20)] } else { Seq::empty() }));
        constraints
    }
}

} // verus!

verus! {

/// `post` is the inner log table after it was handed a key, when there is
/// one.
pub open spec fn forwarded<'a>(
    pre: Option<LogsWidget<'a>>,
    key: KeyCode,
    content_height: Option<u16>,
    post: Option<LogsWidget<'a>>,
) -> bool {
    match (pre, post) {
        (Some(w), Some(p)) => w.key_result(key, content_height, p),
        (None, None) => true,
        _ => false,
    }
}

impl<'a> SnapshotWidget<'a> {
    /// The widget with the snapshot popup opened on the first event.
    pub open spec fn detail_opened(self) -> Self {
        SnapshotWidget {
            view_state: ViewState::SnapshotDetail,
            scroll_offset: 0,
            events_selected_row: 0,
            events_table_state: TableState { selected: Some(0usize) },
            ..self
        }
    }

    /// The view options after `t`, `w`, `#`, `f` or space (other keys change
    /// nothing).
    pub open spec fn options_after(self, key: KeyCode) -> Self {
        match key {
            KeyCode::Char('t') => SnapshotWidget { show_timestamps: !self.show_timestamps, ..self },
            KeyCode::Char('w') => SnapshotWidget { wrap_lines: !self.wrap_lines, ..self },
            KeyCode::Char('#') => SnapshotWidget { show_line_numbers: !self.show_line_numbers, ..self },
            KeyCode::Char('f') => SnapshotWidget { follow_tail: !self.follow_tail, ..self },
            KeyCode::Char(' ') => SnapshotWidget { paused: !self.paused, ..self },
            _ => self,
        }
    }

    /// `post` is the widget after a key of the normal view other than a
    /// navigation key.
    pub open spec fn action_key_result(self, key: KeyCode, post: Self) -> bool {
        match key {
            KeyCode::Enter => post == (if self.visible_rows().len() > 0 {
                self.detail_opened()
            } else {
                self
            }),
            KeyCode::Char('/') => post == (SnapshotWidget { view_state: ViewState::Search, ..self }),
            KeyCode::Char('?') => post == (SnapshotWidget { view_state: ViewState::Help, ..self }),
            KeyCode::Char('s') => post == (SnapshotWidget { sort_by: next_sort_by(self.sort_by), ..self }),
            KeyCode::Char('r') => post == (SnapshotWidget { sort_order: flipped(self.sort_order), ..self }),
            KeyCode::Char('c') => {
                &&& post == (SnapshotWidget {
                    search_query: post.search_query,
                    sort_by: SortBy::CreateTime,
                    sort_order: SortOrder::Descending,
                    ..self
                })
                &&& post.search_query@ == Seq::<char>::empty()
            },
            KeyCode::Char('b') => {
                &&& post == (SnapshotWidget { bookmarks: post.bookmarks, ..self })
                &&& post.bookmarks@ == self.toggled_marks()
            },
            KeyCode::Char('B') => post == (match self.next_bookmark_row() {
                Some(i) => SnapshotWidget { selected_row: i as usize, ..self },
                None => self,
            }),
            _ => post == self.options_after(key),
        }
    }

    /// `post` is the widget after a key of the normal view, the inner log
    /// table aside.
    pub open spec fn own_normal_key_result(self, key: KeyCode, post: Self) -> bool {
        match self.cursor_for_key(key) {
            Some(row) => post == (SnapshotWidget { selected_row: row, ..self }),
            None => self.action_key_result(key, post),
        }
    }

    /// `post` is the widget after a key of the normal view: the inner log
    /// table, when there is one, handles the key as well.
    pub open spec fn normal_key_result(self, key: KeyCode, heights: PopupHeights, post: Self) -> bool {
        &&& forwarded(self.events_widget, key, heights.log_detail, post.events_widget)
        &&& self.own_normal_key_result(key, SnapshotWidget { events_widget: self.events_widget, ..post })
    }

    /// `post` is the widget after a key in the snapshot popup: with events
    /// the keys move through the event table and Enter opens the event;
    /// without, they scroll the snapshot's JSON.
    pub open spec fn snapshot_detail_key_result(self, key: KeyCode, heights: PopupHeights, post: Self) -> bool {
        if self.events_count() > 0 {
            match key {
                KeyCode::Esc => post == (SnapshotWidget {
                    view_state: ViewState::Normal,
                    scroll_offset: 0,
                    events_selected_row: 0,
                    events_table_state: TableState { selected: Some(0usize) },
                    ..self
                }),
                KeyCode::Enter => post == (SnapshotWidget {
                    view_state: ViewState::EventDetail,
                    events_scroll_offset: 0,
                    ..self
                }),
                _ => post == self.with_events_row(self.events_row_for_key(key)),
            }
        } else {
            post == (SnapshotWidget {
                view_state: if key == KeyCode::Esc {
                    ViewState::Normal
                } else {
                    self.view_state
                },
                scroll_offset: popup_offset_after(self.scroll_offset, key, heights.snapshot_detail),
                ..self
            })
        }
    }

    /// `post` is the widget after a key in the event popup: Esc goes back to
    /// the event table, the other keys scroll the event's JSON.
    pub open spec fn event_detail_key_result(self, key: KeyCode, heights: PopupHeights, post: Self) -> bool {
        post == (SnapshotWidget {
            view_state: if key == KeyCode::Esc {
                ViewState::SnapshotDetail
            } else {
                self.view_state
            },
            events_scroll_offset: popup_offset_after(self.events_scroll_offset, key, heights.event_detail),
            ..self
        })
    }

    /// `post` is the widget after a key in the help popup.
    pub open spec fn help_key_result(self, key: KeyCode, post: Self) -> bool {
        post == (if key == KeyCode::Esc || key == KeyCode::Char('?') || key == KeyCode::Char('q') {
            SnapshotWidget { view_state: ViewState::Normal, ..self }
        } else {
            self
        })
    }

    /// `post` is the widget after a key while searching.
    pub open spec fn search_key_result(self, key: KeyCode, post: Self) -> bool {
        &&& post == (SnapshotWidget {
            search_query: post.search_query,
            view_state: if key == KeyCode::Enter || key == KeyCode::Esc {
                ViewState::Normal
            } else {
                self.view_state
            },
            ..self
        })
        &&& post.search_query@ == edited_query(self.search_query@, key)
    }

    /// `post` is the widget after a key routed by the view state.
    pub open spec fn key_result(self, key: KeyCode, heights: PopupHeights, post: Self) -> bool {
        if !self.focused {
            post == self
        } else {
            match self.view_state {
                ViewState::EventDetail => self.event_detail_key_result(key, heights, post),
                ViewState::SnapshotDetail => self.snapshot_detail_key_result(key, heights, post),
                ViewState::Help => self.help_key_result(key, post),
                ViewState::Search => self.search_key_result(key, post),
                ViewState::Normal => self.normal_key_result(key, heights, post),
            }
        }
    }

    /// The inner log table, to which the normal view forwards keys, may
    /// handle `key` (see `LogsWidget::key_fits`).
    pub open spec fn inner_key_fits(self, key: KeyCode) -> bool {
        self.events_widget matches Some(w) ==> w.key_fits(key)
    }

    /// Routing `key` keeps its sums within `usize` (only the normal view of
    /// a focused widget forwards keys).
    pub open spec fn key_fits(self, key: KeyCode) -> bool {
        self.focused && self.view_state == ViewState::Normal ==> self.inner_key_fits(key)
    }
}

} // verus!

verus! {

impl<'a> SnapshotWidget<'a> {
    fn set_view_state(&mut self, view: ViewState)
        ensures
            *final(self) == (SnapshotWidget { view_state: view, ..*old(self) }),
    {
        self.view_state = view;
    }

    fn open_event_table(&mut self, view: ViewState)
        ensures
            *final(self) == (SnapshotWidget {
                view_state: view,
                scroll_offset: 0,
                events_selected_row: 0,
                events_table_state: TableState { selected: Some(0usize) },
                ..*old(self)
            }),
    {
        self.view_state = view;
        self.scroll_offset = 0;
        self.events_selected_row = 0;
        self.events_table_state.select(Some(0));
    }

    fn set_view_and_events_offset(&mut self, view: ViewState, offset: u16)
        ensures
            *final(self) == (SnapshotWidget { view_state: view, events_scroll_offset: offset, ..*old(self) }),
    {
        self.view_state = view;
        self.events_scroll_offset = offset;
    }

    fn set_view_and_offset(&mut self, view: ViewState, offset: u16)
        ensures
            *final(self) == (SnapshotWidget { view_state: view, scroll_offset: offset, ..*old(self) }),
    {
        self.view_state = view;
        self.scroll_offset = offset;
    }

    fn handle_event_detail_keys(&mut self, key: KeyCode, heights: PopupHeights)
        ensures
            old(self).event_detail_key_result(key, heights, *final(self)),
    {
        match key {
            KeyCode::Esc => self.set_view_and_events_offset(ViewState::SnapshotDetail, 0),
            KeyCode::Up | KeyCode::Char('k') => self.scroll_event_detail_up(),
            KeyCode::Down | KeyCode::Char('j') => self.scroll_event_detail_down(),
            KeyCode::PageUp => self.scroll_event_detail_page_up(),
            KeyCode::PageDown => self.scroll_event_detail_page_down(),
            KeyCode::Home => self.scroll_event_detail_to_top(),
            KeyCode::End => self.scroll_event_detail_to_bottom(heights.event_detail),
            _ => {},
        }
    }

    fn handle_event_table_keys(&mut self, key: KeyCode)
        requires
            old(self).events_count() > 0,
        ensures
            old(self).snapshot_detail_key_result(key, PopupHeights { snapshot_detail: None, event_detail: None, log_detail: None }, *final(self)),
    {
        match key {
            KeyCode::Esc => self.open_event_table(ViewState::Normal),
            KeyCode::Up | KeyCode::Char('k') => self.move_events_cursor_up(),
            KeyCode::Down | KeyCode::Char('j') => self.move_events_cursor_down(),
            KeyCode::PageUp => self.events_page_up(),
            KeyCode::PageDown => self.events_page_down(),
            KeyCode::Home => self.events_go_to_top(),
            KeyCode::End => self.events_go_to_bottom(),
            KeyCode::Enter => self.set_view_and_events_offset(ViewState::EventDetail, 0),
            _ => {},
        }
    }

    fn handle_snapshot_scroll_keys(&mut self, key: KeyCode, content_height: Option<u16>)
        ensures
            *final(self) == (SnapshotWidget {
                view_state: if key == KeyCode::Esc {
                    ViewState::Normal
                } else {
                    old(self).view_state
                },
                scroll_offset: popup_offset_after(old(self).scroll_offset, key, content_height),
                ..*old(self)
            }),
    {
        match key {
            KeyCode::Esc => self.set_view_and_offset(ViewState::Normal, 0),
            KeyCode::Up | KeyCode::Char('k') => self.scroll_popup_up(),
            KeyCode::Down | KeyCode::Char('j') => self.scroll_popup_down(),
            KeyCode::PageUp => self.scroll_popup_page_up(),
            KeyCode::PageDown => self.scroll_popup_page_down(),
            KeyCode::Home => self.scroll_popup_to_top(),
            KeyCode::End => self.scroll_popup_to_bottom(content_height),
            _ => {},
        }
    }

    fn handle_snapshot_detail_keys(&mut self, key: KeyCode, heights: PopupHeights)
        ensures
            old(self).snapshot_detail_key_result(key, heights, *final(self)),
    {
        let has_events = self.events_count_exec() > 0;
        if has_events {
            self.handle_event_table_keys(key);
        } else {
            self.handle_snapshot_scroll_keys(key, heights.snapshot_detail);
        }
    }

    fn handle_help_keys(&mut self, key: KeyCode)
        ensures
            old(self).help_key_result(key, *final(self)),
    {
        if key == KeyCode::Esc || key == KeyCode::Char('?') || key == KeyCode::Char('q') {
            self.set_view_state(ViewState::Normal);
        }
    }

    fn set_query_and_view(&mut self, q: String, view: ViewState)
        ensures
            *final(self) == (SnapshotWidget { search_query: q, view_state: view, ..*old(self) }),
    {
        self.search_query = q;
        self.view_state = view;
    }

    fn handle_search_keys(&mut self, key: KeyCode)
        ensures
            old(self).search_key_result(key, *final(self)),
    {
        let mut q = self.search_query.clone();
        match key {
            KeyCode::Char(c) => {
                q.push(c);
            },
            KeyCode::Backspace => {
                q.pop();
            },
            _ => {},
        }
        let view = if key == KeyCode::Enter || key == KeyCode::Esc {
            ViewState::Normal
        } else {
            self.view_state
        };
        self.set_query_and_view(q, view);
    }

    fn toggle_option(&mut self, key: KeyCode)
        ensures
            *final(self) == old(self).options_after(key),
    {
        match key {
            KeyCode::Char('t') => self.show_timestamps = !self.show_timestamps,
            KeyCode::Char('w') => self.wrap_lines = !self.wrap_lines,
            KeyCode::Char('#') => self.show_line_numbers = !self.show_line_numbers,
            KeyCode::Char('f') => self.follow_tail = !self.follow_tail,
            KeyCode::Char(' ') => self.paused = !self.paused,
            _ => {},
        }
    }

    fn open_detail_if_rows(&mut self)
        ensures
            *final(self) == (if old(self).visible_rows().len() > 0 {
                old(self).detail_opened()
            } else {
                *old(self)
            }),
    {
        if self.row_count() > 0 {
            self.open_event_table(ViewState::SnapshotDetail);
        }
    }

    fn handle_action_key(&mut self, key: KeyCode)
        requires
            old(self).cursor_for_key(key) is None,
        ensures
            old(self).action_key_result(key, *final(self)),
    {
        match key {
            KeyCode::Enter => self.open_detail_if_rows(),
            KeyCode::Char('/') => self.set_view_state(ViewState::Search),
            KeyCode::Char('?') => self.set_view_state(ViewState::Help),
            KeyCode::Char('s') => self.cycle_sort_column(),
            KeyCode::Char('r') => self.toggle_sort_order(),
            KeyCode::Char('c') => self.clear_all_filters(),
            KeyCode::Char('b') => self.toggle_bookmark(),
            KeyCode::Char('B') => self.jump_to_next_bookmark(),
            _ => self.toggle_option(key),
        }
    }

    fn is_navigation(&self, key: KeyCode) -> (r: bool)
        ensures
            r == (self.cursor_for_key(key) is Some),
    {
        match key {
            KeyCode::Up | KeyCode::Char('k') | KeyCode::Down | KeyCode::Char('j') | KeyCode::PageUp
            | KeyCode::PageDown | KeyCode::Home | KeyCode::End | KeyCode::Char('n') | KeyCode::Char('N') => true,
            _ => false,
        }
    }

    fn handle_own_normal_key(&mut self, key: KeyCode)
        ensures
            old(self).own_normal_key_result(key, *final(self)),
            final(self).events_widget == old(self).events_widget,
    {
        if self.is_navigation(key) {
            self.navigate(key);
        } else {
            self.handle_action_key(key);
        }
    }

    fn forward_to_events(&mut self, key: KeyCode, content_height: Option<u16>)
        requires
            old(self).inner_key_fits(key),
        ensures
            *final(self) == (SnapshotWidget { events_widget: final(self).events_widget, ..*old(self) }),
            forwarded(old(self).events_widget, key, content_height, final(self).events_widget),
    {
        match &mut self.events_widget {
            Some(w) => w.on_key(key, content_height),
            None => {},
        }
    }

    fn handle_normal_keys(&mut self, key: KeyCode, heights: PopupHeights)
        requires
            old(self).inner_key_fits(key),
        ensures
            old(self).normal_key_result(key, heights, *final(self)),
    {
        let ghost pre = *self;
        self.handle_own_normal_key(key);
        let ghost mid = *self;
        self.forward_to_events(key, heights.log_detail);
        assert(SnapshotWidget { events_widget: pre.events_widget, ..*self } == mid);
    }

    /// Routes a key by the view state; an unfocused widget ignores keys.
    /// `heights` holds the line counts of the popups' contents (for End).
    pub fn on_key(&mut self, key: KeyCode, heights: PopupHeights)
        requires
            old(self).key_fits(key),
        ensures
            old(self).key_result(key, heights, *final(self)),
    {
        if !self.focused {
            return;
        }
        match self.view_state {
            ViewState::EventDetail => self.handle_event_detail_keys(key, heights),
            ViewState::SnapshotDetail => self.handle_snapshot_detail_keys(key, heights),
            ViewState::Help => self.handle_help_keys(key),
            ViewState::Search => self.handle_search_keys(key),
            ViewState::Normal => self.handle_normal_keys(key, heights),
        }
    }
}

} // verus!

verus! {

/// Pressing `s` three times brings the sort column back, and `r` twice the
/// sort order.
pub proof fn lemma_sort_cycles(s: SortBy, o: SortOrder)
    ensures
        next_sort_by(next_sort_by(next_sort_by(s))) == s,
        flipped(flipped(o)) == o,
{
}

} // verus!

verus! {

/// The name a sort column is shown under.
pub open spec fn sort_label(s: SortBy) -> Seq<char> {
    match s {
        SortBy::Name => "Name"@,
        SortBy::Path => "Path"@,
        SortBy::CreateTime => "Time"@,
    }
}

impl<'a> SnapshotWidget<'a> {
    /// The arrow next to a column's header: up or down on the sorted
    /// column, nothing on the others.
    pub open spec fn indicator(self, column: SortBy) -> Seq<char> {
        if self.sort_by == column {
            match self.sort_order {
                SortOrder::Ascending => "↑"@,
                SortOrder::Descending => "↓"@,
            }
        } else {
            ""@
        }
    }

    /// The search part of the control line.
    pub open spec fn search_text(self) -> Seq<char> {
        if self.view_state == ViewState::Search {
            "🔍 "@ + self.search_query@ + "_"@
        } else if self.search_query@.len() > 0 {
            "🔍 "@ + self.search_query@
        } else {
            "Search: None"@
        }
    }

    /// The sort part of the control line.
    pub open spec fn sort_text(self) -> Seq<char> {
        "Sort: "@ + sort_label(self.sort_by) + self.indicator(self.sort_by)
    }

    /// The column headers, as `build_table_constraints` lays the columns
    /// out.
    pub open spec fn header_titles(self) -> Seq<Seq<char>> {
        (if self.show_line_numbers { seq!["#"@] } else { Seq::empty() })
            + seq!["Name"@ + self.indicator(SortBy::Name), "Path"@ + self.indicator(SortBy::Path)]
            + (if self.show_timestamps { seq!["Created"@ + self.indicator(SortBy::CreateTime)] } else { Seq::empty() })
    }

    /// The search and sort texts of the control line.
    pub fn build_control_texts(&self) -> (r: (String, String))
        ensures
            r.0@ == self.search_text(),
            r.1@ == self.sort_text(),
    {
        let mut search = String::new();
        if self.view_state == ViewState::Search {
            push_str_chars(&mut search, "🔍 ");
            push_str_chars(&mut search, self.search_query.as_str());
            push_str_chars(&mut search, "_");
        } else if !self.search_query.as_str().is_empty() {
            push_str_chars(&mut search, "🔍 ");
            push_str_chars(&mut search, self.search_query.as_str());
        } else {
            push_str_chars(&mut search, "Search: None");
        }
        let mut sort = String::new();
        push_str_chars(&mut sort, "Sort: ");
        push_str_chars(
            &mut sort,
            match self.sort_by {
                SortBy::Name => "Name",
                SortBy::Path => "Path",
                SortBy::CreateTime => "Time",
            },
        );
        push_str_chars(&mut sort, self.get_sort_indicator(self.sort_by));
        (search, sort)
    }

    fn titled(&self, name: &str, column: SortBy) -> (r: String)
        ensures
            r@ == name@ + self.indicator(column),
    {
        let mut s = String::new();
        push_str_chars(&mut s, name);
        push_str_chars(&mut s, self.get_sort_indicator(column));
        s
    }

    /// The column headers (see `header_titles`).
    pub fn build_table_header(&self) -> (r: Vec<String>)
        ensures
            r@.map_values(|s: String| s@) == self.header_titles(),
    {
        let mut cells: Vec<String> = Vec::new();
        if self.show_line_numbers {
            cells.push(String::from_str("#"));
        }
        cells.push(self.titled("Name", SortBy::Name));
        cells.push(self.titled("Path", SortBy::Path));
        if self.show_timestamps {
            cells.push(self.titled("Created", SortBy::CreateTime));
        }
        assert(cells@.map_values(|s: String| s@) =~= self.header_titles());
        cells
    }

    /// The panel title and its status symbols (see `title_texts`).
    pub fn build_title_line(&self) -> (r: (String, String))
        ensures
            (r.0@, r.1@) == crate::text::title_texts(
                self.title@,
                (if self.paused { seq!["⏸"@] } else { Seq::empty() })
                    + (if self.auto_scroll { seq!["📜"@] } else { Seq::empty() })
                    + (if self.follow_tail { seq!["👁"@] } else { Seq::empty() })
                    + (if self.wrap_lines { seq!["↩"@] } else { Seq::empty() })
                    + (if self.show_line_numbers { seq!["#"@] } else { Seq::empty() })
                    + (if self.bookmarks.len() != 0 { seq!["🔖"@] } else { Seq::empty() }),
            ),
    {
        let indicators = self.get_status_indicators();
        crate::text::build_title_texts(self.title, &indicators)
    }
}

} // verus!

verus! {

/// The table lists every matching snapshot exactly once, ordered by the
/// sort column in the chosen direction, snapshots with equal keys in
/// listing order.
pub proof fn lemma_snapshots_in_order<'a>(w: SnapshotWidget<'a>)
    requires
        w.snapshots@.len() <= usize::MAX,
    ensures
        arranged(w.matched(), snapshot_order(w.snapshots@, w.sort_by, w.sort_order)).to_multiset()
            == w.matched().to_multiset(),
        crate::sort::sorted_seq(
            arranged(w.matched(), snapshot_order(w.snapshots@, w.sort_by, w.sort_order)),
            snapshot_order(w.snapshots@, w.sort_by, w.sort_order),
        ),
{
    lemma_snapshot_matches_props(w.snapshots@, w.query(), w.snapshots@.len());
    let snaps = w.snapshots@;
    let by = w.sort_by;
    crate::sort::lemma_text_before_order(
        |i: usize| snapshot_key(snaps[i as int], by),
        w.sort_order == SortOrder::Descending,
    );
    crate::sort::lemma_arranged_sorts(w.matched(), snapshot_order(w.snapshots@, w.sort_by, w.sort_order));
}

} // verus!

verus! {

/// Cutting the path of `s` does not split a character.
pub open spec fn path_cuttable(wrap: bool, s: SnapshotFile) -> bool {
    wrap && crate::text::byte_len(s.path@) > 40 ==> crate::text::is_boundary(s.path@, 37)
}

impl<'a> SnapshotWidget<'a> {
    /// The `🔖` mark of a bookmarked row.
    pub open spec fn mark(self, idx: usize) -> Seq<char> {
        if self.bookmarks@.contains(idx) {
            "🔖"@
        } else {
            Seq::empty()
        }
    }

    /// The cell texts of the row for snapshot `idx`: line number as
    /// toggled, name (both marked with `🔖` when bookmarked), path (cut to
    /// 37 bytes and `...` when wrapping is on and it is longer than 40) and
    /// creation time as toggled.
    pub open spec fn row_cells(self, idx: usize, s: SnapshotFile) -> Seq<Seq<char>> {
        (if self.show_line_numbers {
            seq![self.mark(idx) + crate::text::decimal((idx + 1) as nat)]
        } else {
            Seq::empty()
        }) + seq![
            self.mark(idx) + s.name@,
            if self.wrap_lines {
                crate::text::clipped(s.path@, 40, 37)
            } else {
                s.path@
            },
        ] + (if self.show_timestamps {
            seq![crate::utils::compact_stamp_text(s.create_at@)]
        } else {
            Seq::empty()
        })
    }

    fn push_mark(&self, t: &mut String, idx: usize)
        ensures
            final(t)@ == old(t)@ + self.mark(idx),
    {
        if crate::logs_widget::contains_value(&self.bookmarks, idx) {
            push_str_chars(t, "🔖");
        } else {
            assert(t@ =~= old(t)@ + self.mark(idx));
        }
    }

    /// The cell texts of the row for snapshot `idx` (see `row_cells`).
    pub fn build_row_cells(&self, idx: usize, s: &SnapshotFile) -> (r: Vec<String>)
        requires
            path_cuttable(self.wrap_lines, *s),
        ensures
            r@.map_values(|c: String| c@) == self.row_cells(idx, *s),
    {
        let ghost pre1: Seq<Seq<char>> = if self.show_line_numbers {
            seq![self.mark(idx) + crate::text::decimal((idx + 1) as nat)]
        } else {
            Seq::empty()
        };
        let mut cells: Vec<String> = Vec::new();
        if self.show_line_numbers {
            let mut t = String::new();
            self.push_mark(&mut t, idx);
            crate::text::push_decimal_wide(&mut t, idx as u128 + 1);
            cells.push(t);
        }
        assert(cells@.map_values(|c: String| c@) =~= pre1);
        let mut name = String::new();
        self.push_mark(&mut name, idx);
        push_str_chars(&mut name, s.name.as_str());
        cells.push(name);
        let mut path = String::new();
        crate::text::push_clipped(&mut path, s.path.as_str(), self.wrap_lines, 40, 37);
        cells.push(path);
        let ghost pre2: Seq<Seq<char>> = pre1 + seq![
            self.mark(idx) + s.name@,
            if self.wrap_lines {
                crate::text::clipped(s.path@, 40, 37)
            } else {
                s.path@
            },
        ];
        assert(cells@.map_values(|c: String| c@) =~= pre2);
        if self.show_timestamps {
            cells.push(crate::utils::Utils::format_timestamp_from_string(s.create_at.as_str()));
        }
        assert(cells@.map_values(|c: String| c@) =~= self.row_cells(idx, *s));
        cells
    }

    /// The cell texts of every row the table shows, in table order.
    pub fn build_table_rows(&self) -> (r: Vec<Vec<String>>)
        requires
            forall|k: int|
                0 <= k < self.visible_rows().len() ==> path_cuttable(
                    self.wrap_lines,
                    #[trigger] self.visible_rows()[k].1,
                ),
        ensures
            r.len() == self.visible_rows().len(),
            forall|k: int|
                0 <= k < r.len() ==> (#[trigger] r@[k])@.map_values(|c: String| c@) == self.row_cells(
                    self.visible_rows()[k].0,
                    self.visible_rows()[k].1,
                ),
    {
        let rows = self.filtered_and_sorted_snapshots();
        let mut out: Vec<Vec<String>> = Vec::new();
        for k in 0..rows.len()
            invariant
                same_snapshot_rows(rows@, self.visible_rows()),
                forall|j: int|
                    0 <= j < self.visible_rows().len() ==> path_cuttable(
                        self.wrap_lines,
                        #[trigger] self.visible_rows()[j].1,
                    ),
                out.len() == k,
                forall|j: int|
                    0 <= j < k ==> (#[trigger] out@[j])@.map_values(|c: String| c@) == self.row_cells(
                        self.visible_rows()[j].0,
                        self.visible_rows()[j].1,
                    ),
        {
            let (idx, s) = rows[k];
            assert(path_cuttable(self.wrap_lines, self.visible_rows()[k as int].1));
            out.push(self.build_row_cells(idx, s));
        }
        out
    }
}

} // verus!

verus! {

/// Cutting the message of `e` does not split a character.
pub open spec fn summary_cuttable(e: ResolvedEvent) -> bool {
    crate::text::byte_len(e.message@) > 50 ==> crate::text::is_boundary(e.message@, 47)
}

/// The cells of row `i` of a snapshot's event table: its number from 1,
/// the level name and the time from the packed metadata, and the message
/// cut to 47 bytes and `...` when longer than 50.
pub open spec fn event_row_cells(i: usize, e: ResolvedEvent) -> Seq<Seq<char>> {
    seq![
        crate::text::decimal((i + 1) as nat),
        crate::event::level_text(crate::event::level_of_code(((e.packed_meta >> 8u64) & 0xFu64) as u8)),
        crate::utils::timestamp_text(e.packed_meta >> 12u64),
        crate::text::clipped(e.message@, 50, 47),
    ]
}

/// The cells of row `i` of a snapshot's event table (see
/// `event_row_cells`).
pub fn build_event_row(i: usize, e: &ResolvedEvent) -> (r: Vec<String>)
    requires
        summary_cuttable(*e),
    ensures
        r@.map_values(|c: String| c@) == event_row_cells(i, *e),
{
    let (ts, level, _) = crate::event::LogEvent::unpack_meta(e.packed_meta);
    let mut number = String::new();
    crate::text::push_decimal_wide(&mut number, i as u128 + 1);
    let mut level_name = String::new();
    push_str_chars(&mut level_name, crate::event::LogLevel::from_u8(&level).as_str());
    let mut summary = String::new();
    crate::text::push_clipped(&mut summary, e.message.as_str(), true, 50, 47);
    let mut cells: Vec<String> = Vec::new();
    cells.push(number);
    cells.push(level_name);
    cells.push(crate::utils::Utils::format_timestamp(ts));
    cells.push(summary);
    assert(cells@.map_values(|c: String| c@) =~= event_row_cells(i, *e));
    cells
}

impl<'a> SnapshotWidget<'a> {
    /// The rows of the selected snapshot's event table (none when no
    /// snapshot row is selected).
    pub fn build_event_rows(&self) -> (r: Vec<Vec<String>>)
        requires
            forall|k: int|
                0 <= k < self.events_count() ==> summary_cuttable(#[trigger] self.current_events()->0[k]),
        ensures
            r.len() == self.events_count(),
            forall|k: int|
                0 <= k < r.len() ==> (#[trigger] r@[k])@.map_values(|c: String| c@) == event_row_cells(
                    k as usize,
                    self.current_events()->0[k],
                ),
    {
        let mut out: Vec<Vec<String>> = Vec::new();
        match self.get_current_snapshot_events() {
            Some(events) => {
                assert(self.events_count() == events@.len());
                assert forall|j: int| 0 <= j < events.len() implies summary_cuttable(#[trigger] events@[j]) by {
                    assert(self.current_events()->0[j] == events@[j]);
                }
                for k in 0..events.len()
                    invariant
                        self.current_events() == Some(events@),
                        forall|j: int| 0 <= j < events.len() ==> summary_cuttable(#[trigger] events@[j]),
                        out.len() == k,
                        forall|j: int|
                            0 <= j < k ==> (#[trigger] out@[j])@.map_values(|c: String| c@) == event_row_cells(
                                j as usize,
                                events@[j],
                            ),
                {
                    assert(summary_cuttable(events@[k as int]));
                    out.push(build_event_row(k, &events[k]));
                }
            },
            None => {},
        }
        out
    }
}

} // verus!

verus! {

/// The cursor keys of the snapshot table's normal view move its selection
/// over the shown snapshots: Home to the first row, End to the last,
/// Down/`j` and Up/`k` one row (staying put at the ends); the rest of the
/// widget, apart from the inner event table, stays.
pub proof fn lemma_snapshot_cursor_keys<'a>(
    w: SnapshotWidget<'a>,
    key: KeyCode,
    heights: PopupHeights,
    post: SnapshotWidget<'a>,
)
    requires
        w.focused,
        w.view_state == ViewState::Normal,
        key == KeyCode::Home || key == KeyCode::End || key == KeyCode::Down || key == KeyCode::Char('j')
            || key == KeyCode::Up || key == KeyCode::Char('k'),
        w.key_result(key, heights, post),
    ensures
        post == (SnapshotWidget { selected_row: post.selected_row, events_widget: post.events_widget, ..w }),
        key == KeyCode::Home ==> post.selected_row == 0,
        key == KeyCode::End && w.visible_rows().len() > 0 ==> post.selected_row + 1 == w.visible_rows().len(),
        (key == KeyCode::Down || key == KeyCode::Char('j')) ==> post.selected_row == (if w.selected_row + 1
            < w.visible_rows().len() {
            w.selected_row + 1
        } else {
            w.selected_row as int
        }),
        (key == KeyCode::Up || key == KeyCode::Char('k')) ==> post.selected_row == (if w.selected_row > 0 {
            w.selected_row - 1
        } else {
            0
        }),
{
    assert(w.snapshots@.len() == w.snapshots.len());
    lemma_snapshots_in_order(w);
    lemma_snapshot_matches_props(w.snapshots@, w.query(), w.snapshots@.len());
    let order = arranged(w.matched(), snapshot_order(w.snapshots@, w.sort_by, w.sort_order));
    vstd::seq_lib::to_multiset_len(w.matched());
    vstd::seq_lib::to_multiset_len(order);
    assert(w.visible_rows().len() <= usize::MAX);
}

} // verus!
