//! Bar counts of the loaded log records by level, with a cached tally.
use vstd::prelude::*;
use crate::event::LogLevel;
use crate::layout::KeyCode;
use crate::logs::ResolvedLog;
use crate::text::{decimal, push_decimal, push_str_chars};

verus! {

/// `std::time::Instant`, carried along as an opaque value.
#[verifier::external_type_specification]
#[verifier::external_body]
pub struct ExInstant(std::time::Instant);

/// Calls `std::time::Instant::now`. Nothing is stated of the instant: it
/// depends on the clock.
#[verifier::external_body]
pub(crate) fn instant_now() -> (r: std::time::Instant) {
    std::time::Instant::now()
}

/// The span of time the chart is labelled with.
#[derive(Debug, Clone, Copy, PartialEq, Eq, Structural)]
pub enum TimeRange {
    Last5Min,
    Last15Min,
    Last1Hour,
    Last6Hours,
    Last24Hours,
    Last7Days,
    All,
}

/// The range that follows `t`: 5m, 15m, 1h, 6h, 24h, 7d, all, 5m.
pub open spec fn next_range(t: TimeRange) -> TimeRange {
    match t {
        TimeRange::Last5Min => TimeRange::Last15Min,
        TimeRange::Last15Min => TimeRange::Last1Hour,
        TimeRange::Last1Hour => TimeRange::Last6Hours,
        TimeRange::Last6Hours => TimeRange::Last24Hours,
        TimeRange::Last24Hours => TimeRange::Last7Days,
        TimeRange::Last7Days => TimeRange::All,
        TimeRange::All => TimeRange::Last5Min,
    }
}

/// The label of a range.
pub open spec fn range_label(t: TimeRange) -> Seq<char> {
    match t {
        TimeRange::Last5Min => "Last 5m"@,
        TimeRange::Last15Min => "Last 15m"@,
        TimeRange::Last1Hour => "Last 1h"@,
        TimeRange::Last6Hours => "Last 6h"@,
        TimeRange::Last24Hours => "Last 24h"@,
        TimeRange::Last7Days => "Last 7d"@,
        TimeRange::All => "All"@,
    }
}

impl TimeRange {
    /// The range that follows this one.
    pub fn next(self) -> (r: TimeRange)
        ensures
            r == next_range(self),
    {
        match self {
            TimeRange::Last5Min => TimeRange::Last15Min,
            TimeRange::Last15Min => TimeRange::Last1Hour,
            TimeRange::Last1Hour => TimeRange::Last6Hours,
            TimeRange::Last6Hours => TimeRange::Last24Hours,
            TimeRange::Last24Hours => TimeRange::Last7Days,
            TimeRange::Last7Days => TimeRange::All,
            TimeRange::All => TimeRange::Last5Min,
        }
    }

    /// The range's label.
    pub fn label(self) -> (r: &'static str)
        ensures
            r@ == range_label(self),
    {
        match self {
            TimeRange::Last5Min => "Last 5m",
            TimeRange::Last15Min => "Last 15m",
            TimeRange::Last1Hour => "Last 1h",
            TimeRange::Last6Hours => "Last 6h",
            TimeRange::Last24Hours => "Last 24h",
            TimeRange::Last7Days => "Last 7d",
            TimeRange::All => "All",
        }
    }
}

/// The colour of a bar.
#[derive(Debug, Clone, Copy, PartialEq, Eq, Structural)]
pub enum BarColor {
    Blue,
    Red,
    Magenta,
    Yellow,
    Green,
    Cyan,
    Gray,
}

/// How a bar is drawn.
#[derive(Debug, Clone, Copy, PartialEq, Eq, Structural)]
pub struct BarStyle {
    pub color: BarColor,
    pub bold: bool,
}

/// One bar: its label, its value and its style.
pub type Bar = (&'static str, u64, BarStyle);

/// A bar as plain values.
pub open spec fn bar_view(b: Bar) -> (Seq<char>, u64, BarStyle) {
    (b.0@, b.1, b.2)
}

/// The bar, when `shown`.
pub open spec fn bar_if(shown: bool, label: Seq<char>, value: u64, color: BarColor, bold: bool) -> Seq<(Seq<char>, u64, BarStyle)> {
    if shown {
        seq![(label, value, BarStyle { color, bold })]
    } else {
        Seq::empty()
    }
}

/// The bars shown, or a single empty "No data" bar when none is.
pub open spec fn or_no_data(bars: Seq<(Seq<char>, u64, BarStyle)>) -> Seq<(Seq<char>, u64, BarStyle)> {
    if bars.len() == 0 {
        seq![("No data"@, 0u64, BarStyle { color: BarColor::Gray, bold: false })]
    } else {
        bars
    }
}

/// Appends the bar when it is shown.
pub fn push_bar_if(bars: &mut Vec<Bar>, shown: bool, label: &'static str, value: u64, style: BarStyle)
    ensures
        final(bars)@.map_values(|b: Bar| bar_view(b)) == old(bars)@.map_values(|b: Bar| bar_view(b)) + bar_if(
            shown,
            label@,
            value,
            style.color,
            style.bold,
        ),
{
    if shown {
        bars.push((label, value, style));
    }
    assert(bars@.map_values(|b: Bar| bar_view(b)) =~= old(bars)@.map_values(|b: Bar| bar_view(b)) + bar_if(
        shown,
        label@,
        value,
        style.color,
        style.bold,
    ));
}

/// The number of records of the given level.
pub open spec fn level_count(logs: Seq<ResolvedLog>, level: LogLevel) -> nat
    decreases logs.len(),
{
    if logs.len() == 0 {
        0
    } else {
        level_count(logs.drop_last(), level) + if logs.last().level == level {
            1nat
        } else {
            0nat
        }
    }
}

/// Counts of the records: all of them, then fatal, error, warning, info,
/// debug and trace records.
pub type Counts = (u64, u64, u64, u64, u64, u64, u64);

pub open spec fn level_counts(logs: Seq<ResolvedLog>) -> Counts {
    (
        logs.len() as u64,
        level_count(logs, LogLevel::FATAL) as u64,
        level_count(logs, LogLevel::ERROR) as u64,
        level_count(logs, LogLevel::WARN) as u64,
        level_count(logs, LogLevel::INFO) as u64,
        level_count(logs, LogLevel::DEBUG) as u64,
        level_count(logs, LogLevel::TRACE) as u64,
    )
}

proof fn lemma_level_count_bound(logs: Seq<ResolvedLog>, level: LogLevel)
    ensures
        level_count(logs, level) <= logs.len(),
    decreases logs.len(),
{
    if logs.len() > 0 {
        lemma_level_count_bound(logs.drop_last(), level);
    }
}

proof fn lemma_level_counts_partition(logs: Seq<ResolvedLog>)
    ensures
        level_count(logs, LogLevel::FATAL) + level_count(logs, LogLevel::ERROR) + level_count(logs, LogLevel::WARN)
            + level_count(logs, LogLevel::INFO) + level_count(logs, LogLevel::DEBUG) + level_count(
            logs,
            LogLevel::TRACE,
        ) == logs.len(),
    decreases logs.len(),
{
    if logs.len() > 0 {
        lemma_level_counts_partition(logs.drop_last());
    }
}

/// Counting the records level by level accounts for every record: the six
/// level counts add up to the total.
pub proof fn lemma_counts_add_up(logs: Seq<ResolvedLog>)
    requires
        logs.len() <= u64::MAX,
    ensures
        ({
            let c = level_counts(logs);
            c.1 + c.2 + c.3 + c.4 + c.5 + c.6 == c.0
        }),
{
    lemma_level_counts_partition(logs);
    lemma_level_count_bound(logs, LogLevel::FATAL);
    lemma_level_count_bound(logs, LogLevel::ERROR);
    lemma_level_count_bound(logs, LogLevel::WARN);
    lemma_level_count_bound(logs, LogLevel::INFO);
    lemma_level_count_bound(logs, LogLevel::DEBUG);
    lemma_level_count_bound(logs, LogLevel::TRACE);
}

/// Counts the records by level.
pub fn count_levels(logs: &Vec<ResolvedLog>) -> (r: Counts)
    ensures
        r == level_counts(logs@),
{
    let mut total: u64 = 0;
    let mut fatal: u64 = 0;
    let mut errors: u64 = 0;
    let mut warns: u64 = 0;
    let mut info: u64 = 0;
    let mut debug: u64 = 0;
    let mut trace: u64 = 0;
    for i in 0..logs.len()
        invariant
            total == i,
            fatal == level_count(logs@.take(i as int), LogLevel::FATAL),
            errors == level_count(logs@.take(i as int), LogLevel::ERROR),
            warns == level_count(logs@.take(i as int), LogLevel::WARN),
            info == level_count(logs@.take(i as int), LogLevel::INFO),
            debug == level_count(logs@.take(i as int), LogLevel::DEBUG),
            trace == level_count(logs@.take(i as int), LogLevel::TRACE),
    {
        proof {
            let t = logs@.take(i + 1);
            assert(t.drop_last() =~= logs@.take(i as int));
            lemma_level_count_bound(logs@.take(i as int), LogLevel::FATAL);
            lemma_level_count_bound(logs@.take(i as int), LogLevel::ERROR);
            lemma_level_count_bound(logs@.take(i as int), LogLevel::WARN);
            lemma_level_count_bound(logs@.take(i as int), LogLevel::INFO);
            lemma_level_count_bound(logs@.take(i as int), LogLevel::DEBUG);
            lemma_level_count_bound(logs@.take(i as int), LogLevel::TRACE);
        }
        total = total + 1;
        match logs[i].level {
            LogLevel::FATAL => fatal = fatal + 1,
            LogLevel::ERROR => errors = errors + 1,
            LogLevel::WARN => warns = warns + 1,
            LogLevel::INFO => info = info + 1,
            LogLevel::DEBUG => debug = debug + 1,
            LogLevel::TRACE => trace = trace + 1,
        }
    }
    assert(logs@.take(logs.len() as int) =~= logs@);
    (total, fatal, errors, warns, info, debug, trace)
}

} // verus!

verus! {

/// Level counts of the loaded log records as bars.
pub struct LogsChartWidget<'a> {
    pub id: u8,
    pub title: &'static str,
    pub logs: &'a Vec<ResolvedLog>,
    pub time_range: TimeRange,
    pub show_total: bool,
    pub show_fatal: bool,
    pub show_errors: bool,
    pub show_warnings: bool,
    pub show_info: bool,
    pub show_debug: bool,
    pub show_trace: bool,
    pub focused: bool,
    pub cached_counts: Option<Counts>,
    pub last_calculation_time: Option<std::time::Instant>,
    pub is_loading: bool,
    pub has_data: bool,
    pub processing_heavy_operation: bool,
}

impl<'a> LogsChartWidget<'a> {
    /// A cached tally, when there is one, is the tally of the current records.
    pub open spec fn cache_ok(self) -> bool {
        self.cached_counts matches Some(c) ==> c == level_counts(self.logs@)
    }

    /// The bars for the given counts: total (when shown), then fatal,
    /// errors, warnings, info, debug and trace as toggled.
    pub open spec fn bars_for(self, c: Counts) -> Seq<(Seq<char>, u64, BarStyle)> {
        or_no_data(
            bar_if(self.show_total, "Total"@, c.0, BarColor::Blue, false)
                + bar_if(self.show_fatal, "Fatal"@, c.1, BarColor::Red, true)
                + bar_if(self.show_errors, "Errors"@, c.2, BarColor::Magenta, true)
                + bar_if(self.show_warnings, "Warns"@, c.3, BarColor::Yellow, false)
                + bar_if(self.show_info, "Info"@, c.4, BarColor::Green, false)
                + bar_if(self.show_debug, "Debug"@, c.5, BarColor::Cyan, false)
                + bar_if(self.show_trace, "Trace"@, c.6, BarColor::Gray, false),
        )
    }

    /// The text of the status line.
    pub open spec fn status_text(self) -> Seq<char> {
        if self.is_loading {
            "Loading chart data..."@
        } else if self.processing_heavy_operation {
            "Processing..."@
        } else if !self.has_data {
            "No data available"@
        } else {
            decimal(self.logs@.len()) + " logs"@
        }
    }

    /// A chart over `logs`, all levels but the total shown, over all time.
    pub fn new(logs: &'a Vec<ResolvedLog>) -> (r: Self)
        ensures
            r.id == 2,
            r.title@ == "~ Logs (bars) ~"@,
            r.logs == logs,
            r.time_range == TimeRange::All,
            !r.show_total,
            r.show_fatal,
            r.show_errors,
            r.show_warnings,
            r.show_info,
            r.show_debug,
            r.show_trace,
            !r.focused,
            r.cached_counts is None,
            r.last_calculation_time is None,
            !r.is_loading,
            r.has_data == (logs.len() > 0),
            !r.processing_heavy_operation,
    {
        LogsChartWidget {
            id: 2,
            title: "~ Logs (bars) ~",
            logs,
            time_range: TimeRange::All,
            show_total: false,
            show_fatal: true,
            show_errors: true,
            show_warnings: true,
            show_info: true,
            show_debug: true,
            show_trace: true,
            focused: false,
            cached_counts: None,
            last_calculation_time: None,
            is_loading: false,
            has_data: logs.len() > 0,
            processing_heavy_operation: false,
        }
    }

    fn store_counts(&mut self, c: Counts, at: std::time::Instant)
        ensures
            *final(self) == (LogsChartWidget {
                cached_counts: Some(c),
                last_calculation_time: Some(at),
                processing_heavy_operation: false,
                ..*old(self)
            }),
    {
        self.cached_counts = Some(c);
        self.last_calculation_time = Some(at);
        self.processing_heavy_operation = false;
    }

    /// The counts of the records by level (total, fatal, errors, warnings,
    /// info, debug, trace): the cached tally when there is one, else a fresh
    /// tally, which is then cached with the time it was started.
    pub fn aggregate_counts(&mut self) -> (r: Counts)
        ensures
            old(self).cached_counts matches Some(c) ==> r == c && *final(self) == *old(self),
            old(self).cached_counts is None ==> {
                &&& r == level_counts(old(self).logs@)
                &&& *final(self) == (LogsChartWidget {
                    cached_counts: Some(r),
                    last_calculation_time: final(self).last_calculation_time,
                    processing_heavy_operation: false,
                    ..*old(self)
                })
                &&& final(self).last_calculation_time is Some
            },
            old(self).cache_ok() ==> r == level_counts(old(self).logs@),
            final(self).cache_ok() || !old(self).cache_ok(),
    {
        if let Some(cached) = self.cached_counts {
            return cached;
        }
        let start_time = instant_now();
        let result = count_levels(self.logs);
        self.store_counts(result, start_time);
        result
    }

    fn drop_cache(&mut self)
        ensures
            *final(self) == (LogsChartWidget { cached_counts: None, last_calculation_time: None, ..*old(self) }),
    {
        self.cached_counts = None;
        self.last_calculation_time = None;
    }

    /// Forgets the cached tally.
    pub fn clear_cache(&mut self)
        ensures
            *final(self) == (LogsChartWidget { cached_counts: None, last_calculation_time: None, ..*old(self) }),
    {
        self.drop_cache();
    }

    /// Switches to newly loaded records, which invalidates the tally.
    pub fn update_logs(&mut self, new_logs: &'a Vec<ResolvedLog>)
        ensures
            *final(self) == (LogsChartWidget {
                logs: new_logs,
                has_data: new_logs.len() > 0,
                is_loading: false,
                cached_counts: None,
                last_calculation_time: None,
                ..*old(self)
            }),
    {
        self.logs = new_logs;
        self.has_data = new_logs.len() > 0;
        self.is_loading = false;
        self.drop_cache();
    }

    /// Loading or tallying.
    pub fn is_processing(&self) -> (r: bool)
        ensures
            r == (self.processing_heavy_operation || self.is_loading),
    {
        self.processing_heavy_operation || self.is_loading
    }

    /// The status line: loading, processing, no data, or the record count.
    pub fn get_status_text(&self) -> (r: String)
        ensures
            r@ == self.status_text(),
    {
        if self.is_loading {
            String::from_str("Loading chart data...")
        } else if self.processing_heavy_operation {
            String::from_str("Processing...")
        } else if !self.has_data {
            String::from_str("No data available")
        } else {
            let mut s = String::new();
            push_decimal(&mut s, self.logs.len() as u64);
            push_str_chars(&mut s, " logs");
            s
        }
    }

    /// The label of the chart's time range.
    pub fn format_time_range_label(&self) -> (r: &'static str)
        ensures
            r@ == range_label(self.time_range),
    {
        self.time_range.label()
    }

    /// The bars to draw for the given counts.
    fn bars_of(&self, c: Counts) -> (r: Vec<Bar>)
        ensures
            r@.map_values(|b: Bar| bar_view(b)) == self.bars_for(c),
    {
        let mut bars: Vec<Bar> = Vec::new();
        push_bar_if(&mut bars, self.show_total, "Total", c.0, BarStyle { color: BarColor::Blue, bold: false });
        push_bar_if(&mut bars, self.show_fatal, "Fatal", c.1, BarStyle { color: BarColor::Red, bold: true });
        push_bar_if(&mut bars, self.show_errors, "Errors", c.2, BarStyle { color: BarColor::Magenta, bold: true });
        push_bar_if(&mut bars, self.show_warnings, "Warns", c.3, BarStyle { color: BarColor::Yellow, bold: false });
        push_bar_if(&mut bars, self.show_info, "Info", c.4, BarStyle { color: BarColor::Green, bold: false });
        push_bar_if(&mut bars, self.show_debug, "Debug", c.5, BarStyle { color: BarColor::Cyan, bold: false });
        push_bar_if(&mut bars, self.show_trace, "Trace", c.6, BarStyle { color: BarColor::Gray, bold: false });
        let ghost shown = bars@.map_values(|b: Bar| bar_view(b));
        assert(shown =~= bar_if(self.show_total, "Total"@, c.0, BarColor::Blue, false)
            + bar_if(self.show_fatal, "Fatal"@, c.1, BarColor::Red, true)
            + bar_if(self.show_errors, "Errors"@, c.2, BarColor::Magenta, true)
            + bar_if(self.show_warnings, "Warns"@, c.3, BarColor::Yellow, false)
            + bar_if(self.show_info, "Info"@, c.4, BarColor::Green, false)
            + bar_if(self.show_debug, "Debug"@, c.5, BarColor::Cyan, false)
            + bar_if(self.show_trace, "Trace"@, c.6, BarColor::Gray, false));
        if bars.len() == 0 {
            bars.push(("No data", 0, BarStyle { color: BarColor::Gray, bold: false }));
            assert(bars@.map_values(|b: Bar| bar_view(b)) =~= or_no_data(shown));
        }
        bars
    }

    /// The bars to draw for the (possibly cached) counts.
    pub fn build_bars(&mut self) -> (r: Vec<Bar>)
        ensures
            old(self).cached_counts matches Some(c) ==> r@.map_values(|b: Bar| bar_view(b)) == old(self).bars_for(c),
            old(self).cache_ok() ==> r@.map_values(|b: Bar| bar_view(b)) == old(self).bars_for(
                level_counts(old(self).logs@),
            ),
            *final(self) == (LogsChartWidget {
                cached_counts: final(self).cached_counts,
                last_calculation_time: final(self).last_calculation_time,
                processing_heavy_operation: final(self).processing_heavy_operation,
                ..*old(self)
            }),
            final(self).cache_ok() || !old(self).cache_ok(),
    {
        let c = self.aggregate_counts();
        self.bars_of(c)
    }
}


/// The keys the chart answers to: `t` cycles the time range; `v`, `f`,
/// `e`, `w`, `i`, `d` and `r` toggle the total, fatal, error, warning,
/// info, debug and trace bars.
pub open spec fn chart_key(key: KeyCode) -> bool {
    key == KeyCode::Char('t') || key == KeyCode::Char('v') || key == KeyCode::Char('f') || key == KeyCode::Char('e')
        || key == KeyCode::Char('w') || key == KeyCode::Char('i') || key == KeyCode::Char('d') || key
        == KeyCode::Char('r')
}

impl<'a> LogsChartWidget<'a> {
    /// The range and toggles after a key (other keys change nothing).
    pub open spec fn options_after(self, key: KeyCode) -> Self {
        match key {
            KeyCode::Char('t') => LogsChartWidget { time_range: next_range(self.time_range), ..self },
            KeyCode::Char('v') => LogsChartWidget { show_total: !self.show_total, ..self },
            KeyCode::Char('f') => LogsChartWidget { show_fatal: !self.show_fatal, ..self },
            KeyCode::Char('e') => LogsChartWidget { show_errors: !self.show_errors, ..self },
            KeyCode::Char('w') => LogsChartWidget { show_warnings: !self.show_warnings, ..self },
            KeyCode::Char('i') => LogsChartWidget { show_info: !self.show_info, ..self },
            KeyCode::Char('d') => LogsChartWidget { show_debug: !self.show_debug, ..self },
            KeyCode::Char('r') => LogsChartWidget { show_trace: !self.show_trace, ..self },
            _ => self,
        }
    }

    /// The widget after a key: a focused chart applies one of its keys and
    /// forgets its tally; anything else leaves it as it is.
    pub open spec fn after_key(self, key: KeyCode) -> Self {
        if self.focused && chart_key(key) {
            LogsChartWidget { cached_counts: None, last_calculation_time: None, ..self.options_after(key) }
        } else {
            self
        }
    }

    fn apply_option(&mut self, key: KeyCode)
        ensures
            *final(self) == old(self).options_after(key),
    {
        let t = if key == KeyCode::Char('t') {
            self.time_range.next()
        } else {
            self.time_range
        };
        self.time_range = t;
        self.show_total = self.show_total != (key == KeyCode::Char('v'));
        self.show_fatal = self.show_fatal != (key == KeyCode::Char('f'));
        self.show_errors = self.show_errors != (key == KeyCode::Char('e'));
        self.show_warnings = self.show_warnings != (key == KeyCode::Char('w'));
        self.show_info = self.show_info != (key == KeyCode::Char('i'));
        self.show_debug = self.show_debug != (key == KeyCode::Char('d'));
        self.show_trace = self.show_trace != (key == KeyCode::Char('r'));
    }

    /// Handles a key (see `after_key`).
    pub fn on_key(&mut self, key: KeyCode)
        ensures
            *final(self) == old(self).after_key(key),
    {
        if !self.focused {
            return;
        }
        let known = match key {
            KeyCode::Char('t') | KeyCode::Char('v') | KeyCode::Char('f') | KeyCode::Char('e') | KeyCode::Char('w')
            | KeyCode::Char('i') | KeyCode::Char('d') | KeyCode::Char('r') => true,
            _ => false,
        };
        if known {
            self.apply_option(key);
            self.drop_cache();
        }
    }
}

} // verus!

verus! {

/// Pressing `t` seven times brings the time range back.
pub proof fn lemma_range_cycle(t: TimeRange)
    ensures
        next_range(next_range(next_range(next_range(next_range(next_range(next_range(t))))))) == t,
{
}

} // verus!

verus! {

/// The width of each bar when `n` bars share `width` columns with one
/// column between neighbours: 8 when they fit, else an equal share of at
/// least 1.
pub open spec fn bar_width_for(width: int, n: int) -> int {
    if width >= n * 8 + (n - 1) {
        8
    } else {
        let share = (if width >= n - 1 { width - (n - 1) } else { 0 }) / n;
        if share < 1 {
            1
        } else {
            share
        }
    }
}

/// The width of each bar (see `bar_width_for`).
pub fn bar_width(width: u16, n: u16) -> (r: u16)
    requires
        1 <= n <= 8,
    ensures
        r == bar_width_for(width as int, n as int),
{
    let needed = n * 8 + (n - 1);
    if width >= needed {
        8
    } else {
        let share = width.saturating_sub(n - 1) / n;
        if share < 1 {
            1
        } else {
            share
        }
    }
}

/// The inside of a bordered area: one cell in from each edge.
pub fn inner_area(area: crate::layout::Rect) -> (r: crate::layout::Rect)
    requires
        area.x < u16::MAX,
        area.y < u16::MAX,
    ensures
        r.x == area.x + 1,
        r.y == area.y + 1,
        r.width == (if area.width >= 2 { area.width - 2 } else { 0 }),
        r.height == (if area.height >= 2 { area.height - 2 } else { 0 }),
{
    crate::layout::Rect {
        x: area.x + 1,
        y: area.y + 1,
        width: area.width.saturating_sub(2),
        height: area.height.saturating_sub(2),
    }
}

} // verus!

verus! {

/// `level_count` counts exactly the records of the level.
proof fn lemma_level_count_is_filter(logs: Seq<ResolvedLog>, level: LogLevel)
    ensures
        level_count(logs, level) == logs.filter(|e: ResolvedLog| e.level == level).len(),
    decreases logs.len(),
{
    reveal(Seq::filter);
    if logs.len() > 0 {
        lemma_level_count_is_filter(logs.drop_last(), level);
    }
}

/// The chart's counts, as `count_levels` returns them, are in order: all
/// records, then the fatal, error, warning, info, debug and trace records;
/// each is the number of records of that level.
pub proof fn lemma_counts_by_level(logs: Seq<ResolvedLog>)
    requires
        logs.len() <= usize::MAX,
    ensures
        level_counts(logs).0 == logs.len(),
        level_counts(logs).1 == logs.filter(|e: ResolvedLog| e.level == LogLevel::FATAL).len(),
        level_counts(logs).2 == logs.filter(|e: ResolvedLog| e.level == LogLevel::ERROR).len(),
        level_counts(logs).3 == logs.filter(|e: ResolvedLog| e.level == LogLevel::WARN).len(),
        level_counts(logs).4 == logs.filter(|e: ResolvedLog| e.level == LogLevel::INFO).len(),
        level_counts(logs).5 == logs.filter(|e: ResolvedLog| e.level == LogLevel::DEBUG).len(),
        level_counts(logs).6 == logs.filter(|e: ResolvedLog| e.level == LogLevel::TRACE).len(),
{
    lemma_level_count_is_filter(logs, LogLevel::FATAL);
    lemma_level_count_is_filter(logs, LogLevel::ERROR);
    lemma_level_count_is_filter(logs, LogLevel::WARN);
    lemma_level_count_is_filter(logs, LogLevel::INFO);
    lemma_level_count_is_filter(logs, LogLevel::DEBUG);
    lemma_level_count_is_filter(logs, LogLevel::TRACE);
    lemma_level_count_bound(logs, LogLevel::FATAL);
    lemma_level_count_bound(logs, LogLevel::ERROR);
    lemma_level_count_bound(logs, LogLevel::WARN);
    lemma_level_count_bound(logs, LogLevel::INFO);
    lemma_level_count_bound(logs, LogLevel::DEBUG);
    lemma_level_count_bound(logs, LogLevel::TRACE);
}

} // verus!
