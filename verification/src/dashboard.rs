//! The log view of the demonstration dashboard: level, component and
//! message filters, the log cursor, the view tabs and the uptime text.
use vstd::prelude::*;
use crate::layout::KeyCode;
use crate::tabs_widget::ViewMode;
use crate::text::{chars_eq, chars_of, contains_text, has_substring, lowercase, lowercase_chars};
use crate::utils::{push_zero_padded, zero_padded};

verus! {

/// The severity of a dashboard log entry, least severe first.
#[derive(Debug, Clone, Copy, PartialEq, Eq, Structural)]
pub enum LogLevel {
    Trace,
    Debug,
    Info,
    Warn,
    Error,
    Fatal,
}

/// The rank of a level: trace 0 up to fatal 5.
pub open spec fn priority_of(l: LogLevel) -> u8 {
    match l {
        LogLevel::Trace => 0,
        LogLevel::Debug => 1,
        LogLevel::Info => 2,
        LogLevel::Warn => 3,
        LogLevel::Error => 4,
        LogLevel::Fatal => 5,
    }
}

/// The filter level that follows `f`: none, debug, info, warn, error,
/// fatal, none (trace goes on to debug).
pub open spec fn next_filter(f: Option<LogLevel>) -> Option<LogLevel> {
    match f {
        None => Some(LogLevel::Debug),
        Some(LogLevel::Debug) => Some(LogLevel::Info),
        Some(LogLevel::Info) => Some(LogLevel::Warn),
        Some(LogLevel::Warn) => Some(LogLevel::Error),
        Some(LogLevel::Error) => Some(LogLevel::Fatal),
        Some(LogLevel::Fatal) => None,
        Some(LogLevel::Trace) => Some(LogLevel::Debug),
    }
}

impl LogLevel {
    /// The level's upper-case name.
    pub fn as_str(&self) -> (r: &'static str)
        ensures
            r@ == (match *self {
                LogLevel::Trace => "TRACE"@,
                LogLevel::Debug => "DEBUG"@,
                LogLevel::Info => "INFO"@,
                LogLevel::Warn => "WARN"@,
                LogLevel::Error => "ERROR"@,
                LogLevel::Fatal => "FATAL"@,
            }),
    {
        match self {
            LogLevel::Trace => "TRACE",
            LogLevel::Debug => "DEBUG",
            LogLevel::Info => "INFO",
            LogLevel::Warn => "WARN",
            LogLevel::Error => "ERROR",
            LogLevel::Fatal => "FATAL",
        }
    }

    /// The level's rank.
    pub fn priority(&self) -> (r: u8)
        ensures
            r == priority_of(*self),
    {
        match self {
            LogLevel::Trace => 0,
            LogLevel::Debug => 1,
            LogLevel::Info => 2,
            LogLevel::Warn => 3,
            LogLevel::Error => 4,
            LogLevel::Fatal => 5,
        }
    }
}

/// One line of the dashboard's log.
#[derive(Debug)]
pub struct LogEntry {
    pub id: u64,
    pub timestamp: String,
    pub level: LogLevel,
    pub component: String,
    pub message: String,
    pub duration_ms: Option<u32>,
    pub memory_kb: Option<u32>,
    pub thread_id: u16,
    pub source_file: String,
    pub line_number: u32,
}

impl Clone for LogEntry {
    fn clone(&self) -> (r: Self)
        ensures
            r == *self,
    {
        LogEntry {
            id: self.id,
            timestamp: self.timestamp.clone(),
            level: self.level,
            component: self.component.clone(),
            message: self.message.clone(),
            duration_ms: self.duration_ms,
            memory_kb: self.memory_kb,
            thread_id: self.thread_id,
            source_file: self.source_file.clone(),
            line_number: self.line_number,
        }
    }
}

/// An entry passes the filters: at least the filter level, and the
/// component and message contain their (case-insensitive) filter texts
/// when those are given.
pub open spec fn passes(e: LogEntry, level: Option<LogLevel>, component: Seq<char>, message: Seq<char>) -> bool {
    &&& (level matches Some(l) ==> priority_of(e.level) >= priority_of(l))
    &&& (component.len() > 0 ==> has_substring(lowercase(e.component@), lowercase(component)))
    &&& (message.len() > 0 ==> has_substring(lowercase(e.message@), lowercase(message)))
}

/// The entries that pass the filters, in order.
pub open spec fn passing(logs: Seq<LogEntry>, level: Option<LogLevel>, component: Seq<char>, message: Seq<char>) -> Seq<LogEntry>
    decreases logs.len(),
{
    if logs.len() == 0 {
        Seq::empty()
    } else {
        let rest = passing(logs.drop_last(), level, component, message);
        if passes(logs.last(), level, component, message) {
            rest.push(logs.last())
        } else {
            rest
        }
    }
}

/// Uptime as `HH:MM:SS`, or `MM:SS` under an hour.
pub open spec fn uptime_text(secs: nat) -> Seq<char> {
    let h = secs / 3600;
    let m = (secs % 3600) / 60;
    let s = secs % 60;
    if h > 0 {
        zero_padded(h, 2) + ":"@ + zero_padded(m, 2) + ":"@ + zero_padded(s, 2)
    } else {
        zero_padded(m, 2) + ":"@ + zero_padded(s, 2)
    }
}

/// Uptime as `HH:MM:SS`, or `MM:SS` under an hour.
pub fn format_duration(total_secs: u64) -> (r: String)
    ensures
        r@ == uptime_text(total_secs as nat),
{
    let hours = total_secs / 3600;
    let minutes = (total_secs % 3600) / 60;
    let seconds = total_secs % 60;
    let mut s = String::new();
    if hours > 0 {
        push_zero_padded(&mut s, hours, 2);
        s.push(':');
    }
    push_zero_padded(&mut s, minutes, 2);
    s.push(':');
    push_zero_padded(&mut s, seconds, 2);
    proof {
        assert(":"@ =~= seq![':']) by {
            reveal_strlit(":");
        }
    }
    assert(s@ =~= uptime_text(total_secs as nat));
    s
}

} // verus!

verus! {

/// The dashboard's log view: all entries, the entries that pass the
/// filters, the filters, the log cursor and the view tabs.
pub struct LogView {
    pub logs: Vec<LogEntry>,
    pub filtered_logs: Vec<LogEntry>,
    pub current_view: ViewMode,
    pub view_tabs: Vec<ViewMode>,
    pub selected_tab: usize,
    pub show_help: bool,
    pub selected_log: Option<usize>,
    pub log_filter: String,
    pub log_level_filter: Option<LogLevel>,
    pub component_filter: String,
    /// Entries per level, trace first.
    pub log_stats: Vec<u64>,
    /// Entries per component.
    pub component_stats: Vec<(String, u64)>,
}

impl LogView {
    /// The entries that pass the current filters.
    pub open spec fn passing_now(&self) -> Seq<LogEntry> {
        passing(self.logs@, self.log_level_filter, self.component_filter@, self.log_filter@)
    }

    /// The tab cursor is on a tab.
    pub open spec fn tabs_ok(&self) -> bool {
        0 < self.view_tabs@.len() && self.selected_tab < self.view_tabs@.len()
    }

    /// A view over `logs`, unfiltered, on the first of the six tabs.
    pub fn new(logs: Vec<LogEntry>) -> (r: Self)
        ensures
            r.logs@ == logs@,
            r.filtered_logs@ == logs@,
            r.current_view == ViewMode::Overview,
            r.view_tabs@ == seq![
                ViewMode::Overview,
                ViewMode::Logs,
                ViewMode::Metrics,
                ViewMode::Alerts,
                ViewMode::Performance,
                ViewMode::Network,
            ],
            r.selected_tab == 0,
            !r.show_help,
            r.selected_log is None,
            r.log_filter@ == Seq::<char>::empty(),
            r.log_level_filter is None,
            r.component_filter@ == Seq::<char>::empty(),
            r.tabs_ok(),
            r.log_stats@.len() == 6,
            forall|k: int| 0 <= k < 6 ==> #[trigger] r.log_stats@[k] == level_count(logs@, level_of_rank(k)),
            counts_components(r.component_stats@, logs@),
    {
        let mut v = LogView {
            logs,
            filtered_logs: Vec::new(),
            current_view: ViewMode::Overview,
            view_tabs: vec![
                ViewMode::Overview,
                ViewMode::Logs,
                ViewMode::Metrics,
                ViewMode::Alerts,
                ViewMode::Performance,
                ViewMode::Network,
            ],
            selected_tab: 0,
            show_help: false,
            selected_log: None,
            log_filter: String::new(),
            log_level_filter: None,
            component_filter: String::new(),
            log_stats: Vec::new(),
            component_stats: Vec::new(),
        };
        v.filter_logs();
        v.update_statistics();
        proof {
            lemma_passing_all(v.logs@, v.log_level_filter, v.component_filter@, v.log_filter@);
        }
        v
    }

    fn passing_entries(&self) -> (r: Vec<LogEntry>)
        ensures
            r@ == self.passing_now(),
    {
        let level = self.log_level_filter;
        let comp = lowercase_chars(self.component_filter.as_str());
        let msg = lowercase_chars(self.log_filter.as_str());
        let check_comp = !self.component_filter.as_str().is_empty();
        let check_msg = !self.log_filter.as_str().is_empty();
        let mut out: Vec<LogEntry> = Vec::new();
        for i in 0..self.logs.len()
            invariant
                level == self.log_level_filter,
                comp@ == lowercase(self.component_filter@),
                msg@ == lowercase(self.log_filter@),
                check_comp == (self.component_filter@.len() > 0),
                check_msg == (self.log_filter@.len() > 0),
                out@ == passing(
                    self.logs@.take(i as int),
                    self.log_level_filter,
                    self.component_filter@,
                    self.log_filter@,
                ),
        {
            let e = &self.logs[i];
            let level_ok = match level {
                Some(l) => e.level.priority() >= l.priority(),
                None => true,
            };
            let comp_ok = !check_comp || contains_text(&lowercase_chars(e.component.as_str()), &comp);
            let msg_ok = !check_msg || contains_text(&lowercase_chars(e.message.as_str()), &msg);
            assert(self.logs@.take(i + 1).drop_last() =~= self.logs@.take(i as int));
            if level_ok && comp_ok && msg_ok {
                out.push(e.clone());
            }
        }
        assert(self.logs@.take(self.logs.len() as int) =~= self.logs@);
        out
    }

    /// Recounts the entries per level and per component.
    pub fn update_statistics(&mut self)
        ensures
            final(self).log_stats@.len() == 6,
            forall|k: int| 0 <= k < 6 ==> #[trigger] final(self).log_stats@[k] == level_count(old(self).logs@, level_of_rank(k)),
            counts_components(final(self).component_stats@, old(self).logs@),
            final(self).logs == old(self).logs,
            final(self).filtered_logs == old(self).filtered_logs,
            final(self).current_view == old(self).current_view,
            final(self).view_tabs == old(self).view_tabs,
            final(self).selected_tab == old(self).selected_tab,
            final(self).show_help == old(self).show_help,
            final(self).selected_log == old(self).selected_log,
            final(self).log_filter == old(self).log_filter,
            final(self).log_level_filter == old(self).log_level_filter,
            final(self).component_filter == old(self).component_filter,
    {
        let levels = level_statistics(&self.logs);
        let components = component_statistics(&self.logs);
        self.log_stats = levels;
        self.component_stats = components;
    }

    /// Recomputes the entries that pass the filters.
    pub fn filter_logs(&mut self)
        ensures
            final(self).filtered_logs@ == old(self).passing_now(),
            final(self).logs == old(self).logs,
            final(self).current_view == old(self).current_view,
            final(self).view_tabs == old(self).view_tabs,
            final(self).selected_tab == old(self).selected_tab,
            final(self).show_help == old(self).show_help,
            final(self).selected_log == old(self).selected_log,
            final(self).log_filter == old(self).log_filter,
            final(self).log_level_filter == old(self).log_level_filter,
            final(self).component_filter == old(self).component_filter,
            final(self).log_stats == old(self).log_stats,
            final(self).component_stats == old(self).component_stats,
    {
        let f = self.passing_entries();
        self.filtered_logs = f;
    }
}

/// Without filters every entry passes.
pub proof fn lemma_passing_all(logs: Seq<LogEntry>, level: Option<LogLevel>, component: Seq<char>, message: Seq<char>)
    requires
        level is None,
        component.len() == 0,
        message.len() == 0,
    ensures
        passing(logs, level, component, message) == logs,
    decreases logs.len(),
{
    if logs.len() > 0 {
        lemma_passing_all(logs.drop_last(), level, component, message);
        assert(logs.drop_last().push(logs.last()) =~= logs);
    }
}

} // verus!

verus! {

impl LogView {
    /// The log cursor after moving down: round to the top after the last
    /// entry, the top when nothing was selected.
    pub open spec fn next_log_row(&self) -> usize {
        match self.selected_log {
            Some(i) => if i + 1 >= self.filtered_logs@.len() {
                0
            } else {
                (i + 1) as usize
            },
            None => 0,
        }
    }

    /// The log cursor after moving up: round to the last entry from the
    /// top, the top when nothing was selected.
    pub open spec fn previous_log_row(&self) -> usize {
        match self.selected_log {
            Some(i) => if i == 0 {
                if self.filtered_logs@.len() > 0 {
                    (self.filtered_logs@.len() - 1) as usize
                } else {
                    0
                }
            } else {
                (i - 1) as usize
            },
            None => 0,
        }
    }

    /// Selects the next tab, round the end, and shows its view.
    pub fn next_tab(&mut self)
        requires
            old(self).tabs_ok(),
        ensures
            final(self).tabs_ok(),
            final(self).selected_tab == (old(self).selected_tab + 1) % old(self).view_tabs@.len() as int,
            *final(self) == (LogView {
                selected_tab: final(self).selected_tab,
                current_view: old(self).view_tabs@[final(self).selected_tab as int],
                ..*old(self)
            }),
    {
        let n = self.view_tabs.len();
        assert(self.selected_tab < n);
        self.selected_tab = (self.selected_tab + 1) % n;
        self.current_view = self.view_tabs[self.selected_tab];
    }

    /// Selects the previous tab, round the start, and shows its view.
    pub fn previous_tab(&mut self)
        requires
            old(self).tabs_ok(),
        ensures
            final(self).tabs_ok(),
            final(self).selected_tab == (if old(self).selected_tab == 0 {
                old(self).view_tabs@.len() - 1
            } else {
                old(self).selected_tab - 1
            }),
            *final(self) == (LogView {
                selected_tab: final(self).selected_tab,
                current_view: old(self).view_tabs@[final(self).selected_tab as int],
                ..*old(self)
            }),
    {
        self.selected_tab = if self.selected_tab == 0 {
            self.view_tabs.len() - 1
        } else {
            self.selected_tab - 1
        };
        self.current_view = self.view_tabs[self.selected_tab];
    }

    /// Moves the log cursor down (see `next_log_row`).
    pub fn next_log(&mut self)
        ensures
            *final(self) == (LogView { selected_log: Some(old(self).next_log_row()), ..*old(self) }),
    {
        let i = match self.selected_log {
            Some(i) => if i >= self.filtered_logs.len().saturating_sub(1) {
                0
            } else {
                i + 1
            },
            None => 0,
        };
        self.selected_log = Some(i);
    }

    /// Moves the log cursor up (see `previous_log_row`).
    pub fn previous_log(&mut self)
        ensures
            *final(self) == (LogView { selected_log: Some(old(self).previous_log_row()), ..*old(self) }),
    {
        let i = match self.selected_log {
            Some(i) => if i == 0 {
                self.filtered_logs.len().saturating_sub(1)
            } else {
                i - 1
            },
            None => 0,
        };
        self.selected_log = Some(i);
    }

    /// Shows or hides the help.
    pub fn toggle_help(&mut self)
        ensures
            *final(self) == (LogView { show_help: !old(self).show_help, ..*old(self) }),
    {
        self.show_help = !self.show_help;
    }

    /// Steps the level filter (see `next_filter`) and filters again.
    pub fn cycle_log_level_filter(&mut self)
        ensures
            final(self).filtered_logs@ == final(self).passing_now(),
            *final(self) == (LogView {
                log_level_filter: next_filter(old(self).log_level_filter),
                filtered_logs: final(self).filtered_logs,
                ..*old(self)
            }),
    {
        self.log_level_filter = match self.log_level_filter {
            None => Some(LogLevel::Debug),
            Some(LogLevel::Debug) => Some(LogLevel::Info),
            Some(LogLevel::Info) => Some(LogLevel::Warn),
            Some(LogLevel::Warn) => Some(LogLevel::Error),
            Some(LogLevel::Error) => Some(LogLevel::Fatal),
            Some(LogLevel::Fatal) => None,
            Some(LogLevel::Trace) => Some(LogLevel::Debug),
        };
        self.filter_logs();
    }

    /// Puts a new entry first, keeping at most 5000 entries.
    pub fn add_log(&mut self, entry: LogEntry)
        ensures
            final(self).logs@ == seq![entry].add(old(self).logs@).take(
                if old(self).logs@.len() + 1 > 5000 {
                    5000
                } else {
                    old(self).logs@.len() + 1int
                },
            ),
            *final(self) == (LogView { logs: final(self).logs, ..*old(self) }),
    {
        let ghost e = entry;
        self.logs.insert(0, entry);
        if self.logs.len() > 5000 {
            self.logs.truncate(5000);
        }
        assert(self.logs@ =~= seq![e].add(old(self).logs@).take(
            if old(self).logs@.len() + 1 > 5000 {
                5000
            } else {
                old(self).logs@.len() + 1int
            },
        ));
    }
}

} // verus!

verus! {

/// Stepping the level filter six times from no filter comes back to no
/// filter, passing debug, info, warn, error and fatal.
pub proof fn lemma_filter_cycle()
    ensures
        next_filter(None) == Some(LogLevel::Debug),
        next_filter(next_filter(next_filter(next_filter(next_filter(next_filter(None)))))) is None,
{
}

/// A stricter level filter keeps no more entries: whatever passes a filter
/// level also passes every lower one.
pub proof fn lemma_stricter_filter_subset(e: LogEntry, lo: LogLevel, hi: LogLevel, component: Seq<char>, message: Seq<char>)
    requires
        priority_of(lo) <= priority_of(hi),
        passes(e, Some(hi), component, message),
    ensures
        passes(e, Some(lo), component, message),
        passes(e, None, component, message),
{
}

/// Moving to the previous tab undoes moving to the next one.
pub proof fn lemma_previous_undoes_next_tab(selected: usize, n: usize)
    requires
        selected < n,
    ensures
        ({
            let next = (selected + 1) % (n as int);
            (if next == 0 {
                n - 1
            } else {
                next - 1
            }) == selected
        }),
{
    if selected + 1 < n {
        vstd::arithmetic::div_mod::lemma_small_mod((selected + 1) as nat, n as nat);
    } else {
        vstd::arithmetic::div_mod::lemma_mod_self_0(n as int);
    }
}

} // verus!

verus! {

/// The number of entries at the level.
pub open spec fn level_count(logs: Seq<LogEntry>, l: LogLevel) -> nat
    decreases logs.len(),
{
    if logs.len() == 0 {
        0
    } else {
        level_count(logs.drop_last(), l) + if logs.last().level == l {
            1nat
        } else {
            0nat
        }
    }
}

/// The number of entries from the component.
pub open spec fn component_count(logs: Seq<LogEntry>, c: Seq<char>) -> nat
    decreases logs.len(),
{
    if logs.len() == 0 {
        0
    } else {
        component_count(logs.drop_last(), c) + if logs.last().component@ == c {
            1nat
        } else {
            0nat
        }
    }
}

/// The level of each rank, trace first.
pub open spec fn level_of_rank(k: int) -> LogLevel {
    if k == 0 {
        LogLevel::Trace
    } else if k == 1 {
        LogLevel::Debug
    } else if k == 2 {
        LogLevel::Info
    } else if k == 3 {
        LogLevel::Warn
    } else if k == 4 {
        LogLevel::Error
    } else {
        LogLevel::Fatal
    }
}

/// `stats` counts the entries per component: one line per component that
/// occurs, each with its count.
pub open spec fn counts_components(stats: Seq<(String, u64)>, logs: Seq<LogEntry>) -> bool {
    &&& forall|i: int| 0 <= i < stats.len() ==> #[trigger] stats[i].1 == component_count(logs, stats[i].0@)
    &&& forall|i: int, j: int| 0 <= i < j < stats.len() ==> #[trigger] stats[i].0@ != #[trigger] stats[j].0@
    &&& forall|k: int|
        0 <= k < logs.len() ==> exists|i: int| 0 <= i < stats.len() && #[trigger] stats[i].0@ == (#[trigger] logs[k]).component@
    &&& forall|i: int| 0 <= i < stats.len() ==> component_count(logs, #[trigger] stats[i].0@) > 0
}

proof fn lemma_counts_bounded(logs: Seq<LogEntry>, l: LogLevel, c: Seq<char>)
    ensures
        level_count(logs, l) <= logs.len(),
        component_count(logs, c) <= logs.len(),
    decreases logs.len(),
{
    if logs.len() > 0 {
        lemma_counts_bounded(logs.drop_last(), l, c);
    }
}

proof fn lemma_component_absent(logs: Seq<LogEntry>, c: Seq<char>)
    requires
        forall|k: int| 0 <= k < logs.len() ==> (#[trigger] logs[k]).component@ != c,
    ensures
        component_count(logs, c) == 0,
    decreases logs.len(),
{
    if logs.len() > 0 {
        let init = logs.drop_last();
        assert forall|k: int| 0 <= k < init.len() implies (#[trigger] init[k]).component@ != c by {
            assert(init[k] == logs[k]);
        }
        lemma_component_absent(init, c);
        assert(logs.last() == logs[logs.len() - 1]);
    }
}

fn level_index(l: LogLevel) -> (r: usize)
    ensures
        r == priority_of(l) as usize,
        level_of_rank(r as int) == l,
{
    match l {
        LogLevel::Trace => 0,
        LogLevel::Debug => 1,
        LogLevel::Info => 2,
        LogLevel::Warn => 3,
        LogLevel::Error => 4,
        LogLevel::Fatal => 5,
    }
}

/// The number of entries per level, trace first.
pub fn level_statistics(logs: &Vec<LogEntry>) -> (r: Vec<u64>)
    ensures
        r@.len() == 6,
        forall|k: int| 0 <= k < 6 ==> #[trigger] r@[k] == level_count(logs@, level_of_rank(k)),
{
    let mut counts: Vec<u64> = vec![0, 0, 0, 0, 0, 0];
    for i in 0..logs.len()
        invariant
            counts@.len() == 6,
            forall|k: int| 0 <= k < 6 ==> #[trigger] counts@[k] == level_count(logs@.take(i as int), level_of_rank(k)),
    {
        let ghost t = logs@.take(i as int);
        proof {
            assert(logs@.take(i + 1).drop_last() =~= t);
            lemma_counts_bounded(t, logs@[i as int].level, Seq::empty());
        }
        let k = level_index(logs[i].level);
        let old_count = counts[k];
        proof {
            assert(old_count == level_count(t, logs@[i as int].level));
        }
        counts.set(k, old_count + 1);
        proof {
            assert forall|j: int| 0 <= j < 6 implies #[trigger] counts@[j] == level_count(
                logs@.take(i + 1),
                level_of_rank(j),
            ) by {
                if j != k {
                    assert(level_of_rank(j) != level_of_rank(k as int));
                }
            }
        }
    }
    assert(logs@.take(logs.len() as int) =~= logs@);
    counts
}

/// The number of entries per component, components in order of first
/// appearance (see `counts_components`).
pub fn component_statistics(logs: &Vec<LogEntry>) -> (r: Vec<(String, u64)>)
    ensures
        counts_components(r@, logs@),
{
    let mut stats: Vec<(String, u64)> = Vec::new();
    for i in 0..logs.len()
        invariant
            counts_components(stats@, logs@.take(i as int)),
            stats@.len() <= i,
    {
        let ghost t = logs@.take(i as int);
        let ghost t2 = logs@.take(i + 1);
        let e = &logs[i];
        let name = chars_of(e.component.as_str());
        let mut pos: usize = 0;
        while pos < stats.len() && !chars_eq(&chars_of(stats[pos].0.as_str()), &name)
            invariant
                pos <= stats.len(),
                name@ == e.component@,
                forall|j: int| 0 <= j < pos ==> (#[trigger] stats@[j]).0@ != name@,
            decreases stats.len() - pos,
        {
            pos = pos + 1;
        }
        proof {
            assert(t2.drop_last() =~= t);
            assert(t2.last() == *e);
            assert forall|j: int| 0 <= j < t.len() implies #[trigger] t2[j] == t[j] by {}
            lemma_counts_bounded(t, e.level, e.component@);
        }
        let ghost before = stats@;
        if pos < stats.len() {
            let c = stats[pos].1;
            proof {
                assert(c == component_count(t, e.component@));
            }
            let entry = (stats[pos].0.clone(), c + 1);
            stats.set(pos, entry);
            proof {
                assert forall|j: int| 0 <= j < stats@.len() implies #[trigger] stats@[j].1 == component_count(
                    t2,
                    stats@[j].0@,
                ) by {
                    if j != pos {
                        assert(before[j].0@ != before[pos as int].0@ || j == pos);
                        if before[j].0@ == e.component@ {
                            if j < pos {
                                assert(before[j].0@ != name@);
                            } else {
                                assert(before[pos as int].0@ != before[j].0@);
                            }
                        }
                    }
                }
                assert forall|a: int, b: int| 0 <= a < b < stats@.len() implies #[trigger] stats@[a].0@
                    != #[trigger] stats@[b].0@ by {
                    assert(stats@[a].0@ == before[a].0@);
                    assert(stats@[b].0@ == before[b].0@);
                }
                assert forall|k: int| 0 <= k < t2.len() implies exists|j: int|
                    0 <= j < stats@.len() && #[trigger] stats@[j].0@ == (#[trigger] t2[k]).component@ by {
                    if k < t.len() {
                        let j = choose|j: int| 0 <= j < before.len() && #[trigger] before[j].0@ == (#[trigger] t[k]).component@;
                        assert(stats@[j].0@ == before[j].0@);
                    } else {
                        assert(stats@[pos as int].0@ == e.component@);
                    }
                }
                assert forall|j: int| 0 <= j < stats@.len() implies component_count(t2, #[trigger] stats@[j].0@) > 0 by {
                    assert(stats@[j].0@ == before[j].0@);
                }
            }
        } else {
            proof {
                assert forall|k: int| 0 <= k < t.len() implies (#[trigger] t[k]).component@ != e.component@ by {
                    if t[k].component@ == e.component@ {
                        let j = choose|j: int| 0 <= j < before.len() && #[trigger] before[j].0@ == (#[trigger] t[k]).component@;
                        assert(before[j].0@ != name@);
                    }
                }
                lemma_component_absent(t, e.component@);
            }
            stats.push((e.component.clone(), 1));
            proof {
                assert forall|j: int| 0 <= j < stats@.len() implies #[trigger] stats@[j].1 == component_count(
                    t2,
                    stats@[j].0@,
                ) by {
                    if j < before.len() {
                        assert(stats@[j] == before[j]);
                        assert(before[j].0@ != name@);
                    }
                }
                assert forall|a: int, b: int| 0 <= a < b < stats@.len() implies #[trigger] stats@[a].0@
                    != #[trigger] stats@[b].0@ by {
                    if b == before.len() {
                        assert(before[a].0@ != name@);
                    } else {
                        assert(stats@[a] == before[a] && stats@[b] == before[b]);
                    }
                }
                assert forall|k: int| 0 <= k < t2.len() implies exists|j: int|
                    0 <= j < stats@.len() && #[trigger] stats@[j].0@ == (#[trigger] t2[k]).component@ by {
                    if k < t.len() {
                        let j = choose|j: int| 0 <= j < before.len() && #[trigger] before[j].0@ == (#[trigger] t[k]).component@;
                        assert(stats@[j] == before[j]);
                    } else {
                        assert(stats@[before.len() as int].0@ == e.component@);
                    }
                }
                assert forall|j: int| 0 <= j < stats@.len() implies component_count(t2, #[trigger] stats@[j].0@) > 0 by {
                    if j < before.len() {
                        assert(stats@[j] == before[j]);
                    }
                }
            }
        }
    }
    assert(logs@.take(logs.len() as int) =~= logs@);
    stats
}

} // verus!

verus! {

/// What the dashboard does after a key: quit, or go on.
#[derive(Debug, Clone, Copy, PartialEq, Eq, Structural)]
pub enum DashboardAction {
    Quit,
    Continue,
}

impl LogView {
    /// The statistics of `post` are those of the entries of `pre`.
    pub open spec fn recounted(pre: Self, post: Self) -> bool {
        &&& post.log_stats@.len() == 6
        &&& forall|k: int| 0 <= k < 6 ==> #[trigger] post.log_stats@[k] == level_count(pre.logs@, level_of_rank(k))
        &&& counts_components(post.component_stats@, pre.logs@)
    }

    /// `post` is the view after `key`: `h` or F1 toggles the help, Tab and
    /// BackTab step the tabs, Down/`j` and Up/`k` move the log cursor, `f`
    /// steps the level filter, `r` filters and counts again, Esc hides the
    /// help; any other key, `q` among them, changes nothing.
    pub open spec fn after_key(self, key: KeyCode, post: Self) -> bool {
        match key {
            KeyCode::Char('h') | KeyCode::F(1) => post == (LogView { show_help: !self.show_help, ..self }),
            KeyCode::Tab => {
                let t = ((self.selected_tab + 1) % (self.view_tabs@.len() as int)) as usize;
                post == (LogView { selected_tab: t, current_view: self.view_tabs@[t as int], ..self })
            },
            KeyCode::BackTab => {
                let t = (if self.selected_tab == 0 {
                    self.view_tabs@.len() - 1
                } else {
                    self.selected_tab - 1
                }) as usize;
                post == (LogView { selected_tab: t, current_view: self.view_tabs@[t as int], ..self })
            },
            KeyCode::Down | KeyCode::Char('j') => post == (LogView {
                selected_log: Some(self.next_log_row()),
                ..self
            }),
            KeyCode::Up | KeyCode::Char('k') => post == (LogView {
                selected_log: Some(self.previous_log_row()),
                ..self
            }),
            KeyCode::Char('f') => {
                &&& post == (LogView {
                    log_level_filter: next_filter(self.log_level_filter),
                    filtered_logs: post.filtered_logs,
                    ..self
                })
                &&& post.filtered_logs@ == post.passing_now()
            },
            KeyCode::Char('r') => {
                &&& post == (LogView {
                    filtered_logs: post.filtered_logs,
                    log_stats: post.log_stats,
                    component_stats: post.component_stats,
                    ..self
                })
                &&& post.filtered_logs@ == self.passing_now()
                &&& Self::recounted(self, post)
            },
            KeyCode::Esc => post == (LogView { show_help: false, ..self }),
            _ => post == self,
        }
    }

    /// Handles a key of the dashboard (see `after_key`); `q` asks to quit.
    pub fn on_key(&mut self, key: KeyCode) -> (r: DashboardAction)
        requires
            old(self).tabs_ok(),
        ensures
            r == (if key == KeyCode::Char('q') {
                DashboardAction::Quit
            } else {
                DashboardAction::Continue
            }),
            old(self).after_key(key, *final(self)),
            final(self).tabs_ok(),
    {
        match key {
            KeyCode::Char('q') => return DashboardAction::Quit,
            KeyCode::Char('h') | KeyCode::F(1) => self.toggle_help(),
            KeyCode::Tab => self.next_tab(),
            KeyCode::BackTab => self.previous_tab(),
            KeyCode::Down | KeyCode::Char('j') => self.next_log(),
            KeyCode::Up | KeyCode::Char('k') => self.previous_log(),
            KeyCode::Char('f') => self.cycle_log_level_filter(),
            KeyCode::Char('r') => {
                self.filter_logs();
                self.update_statistics();
            },
            KeyCode::Esc => self.show_help = false,
            _ => {},
        }
        DashboardAction::Continue
    }
}

} // verus!
