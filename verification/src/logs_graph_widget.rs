//! Bar counts by level of the events recorded within a recent span of
//! time.
use vstd::prelude::*;
use crate::event::{level_code, level_of_code, level_text, LogLevel};
use crate::layout::KeyCode;
pub use crate::logs_chart_widget::TimeRange;
use crate::logs_chart_widget::{
    bar_if, bar_view, next_range, or_no_data, push_bar_if, range_label, Bar, BarColor, BarStyle, Counts,
};
use crate::snapshots::ResolvedEvent;
use crate::text::{byte_len, byte_offset_index, byte_slice, chars_of, decimal, push_chars, push_decimal, push_str_chars};

verus! {

/// The level of the `i`-th demonstration event: error, warning, info,
/// debug, trace, fatal, and round again.
pub open spec fn demo_level(i: nat) -> LogLevel {
    let k = i % 6;
    if k == 0 {
        LogLevel::ERROR
    } else if k == 1 {
        LogLevel::WARN
    } else if k == 2 {
        LogLevel::INFO
    } else if k == 3 {
        LogLevel::DEBUG
    } else if k == 4 {
        LogLevel::TRACE
    } else {
        LogLevel::FATAL
    }
}

/// The module a demonstration event of the level comes from.
pub open spec fn demo_module(l: LogLevel) -> Seq<char> {
    match l {
        LogLevel::FATAL => "main"@,
        LogLevel::ERROR => "service"@,
        LogLevel::WARN => "controller"@,
        LogLevel::INFO => "api"@,
        LogLevel::DEBUG => "worker"@,
        LogLevel::TRACE => "internal"@,
    }
}

/// The source file stem of a demonstration event of the level.
pub open spec fn demo_file(l: LogLevel) -> Seq<char> {
    match l {
        LogLevel::FATAL => "fatales"@,
        LogLevel::ERROR => "errors"@,
        LogLevel::WARN => "warnings"@,
        LogLevel::INFO => "infos"@,
        LogLevel::DEBUG => "debugs"@,
        LogLevel::TRACE => "traces"@,
    }
}

/// `e` is the `i`-th demonstration event: timestamp `i` ms, its level in
/// the metadata, a numbered message, target, payload bytes, file and
/// position.
pub open spec fn is_demo_event(e: ResolvedEvent, i: nat) -> bool {
    let l = demo_level(i);
    &&& e.packed_meta == (((i as u64) << 12u64) | ((level_code(l) as u64) << 8u64))
    &&& e.message@ == "["@ + level_text(l) + "] Simulated log message "@ + decimal(i)
    &&& e.target@ == demo_module(l) + "::module"@ + decimal(i % 3)
    &&& e.kv matches Some(b) && b@ == seq![(i % 255) as u8, ((i * 2) % 255) as u8, ((i * 3) % 255) as u8]
    &&& e.file@ == demo_file(l) + ".rs"@
    &&& e.position == (i as u32, ((i * 7) % 100) as u32)
}

fn demo_level_exec(i: usize) -> (r: LogLevel)
    ensures
        r == demo_level(i as nat),
{
    let k = i % 6;
    if k == 0 {
        LogLevel::ERROR
    } else if k == 1 {
        LogLevel::WARN
    } else if k == 2 {
        LogLevel::INFO
    } else if k == 3 {
        LogLevel::DEBUG
    } else if k == 4 {
        LogLevel::TRACE
    } else {
        LogLevel::FATAL
    }
}

fn demo_module_exec(l: LogLevel) -> (r: &'static str)
    ensures
        r@ == demo_module(l),
{
    match l {
        LogLevel::FATAL => "main",
        LogLevel::ERROR => "service",
        LogLevel::WARN => "controller",
        LogLevel::INFO => "api",
        LogLevel::DEBUG => "worker",
        LogLevel::TRACE => "internal",
    }
}

fn demo_file_exec(l: LogLevel) -> (r: &'static str)
    ensures
        r@ == demo_file(l),
{
    match l {
        LogLevel::FATAL => "fatales",
        LogLevel::ERROR => "errors",
        LogLevel::WARN => "warnings",
        LogLevel::INFO => "infos",
        LogLevel::DEBUG => "debugs",
        LogLevel::TRACE => "traces",
    }
}

/// The `i`-th demonstration event.
fn demo_event(i: usize) -> (r: ResolvedEvent)
    requires
        i < 50,
    ensures
        is_demo_event(r, i as nat),
{
    let level = demo_level_exec(i);
    let code: u64 = level.as_u8() as u64;
    let packed_meta = ((i as u64) << 12u64) | (code << 8u64);
    let mut message = String::new();
    push_str_chars(&mut message, "[");
    push_str_chars(&mut message, level.as_str());
    push_str_chars(&mut message, "] Simulated log message ");
    push_decimal(&mut message, i as u64);
    let mut target = String::new();
    push_str_chars(&mut target, demo_module_exec(level));
    push_str_chars(&mut target, "::module");
    push_decimal(&mut target, (i % 3) as u64);
    let mut file = String::new();
    push_str_chars(&mut file, demo_file_exec(level));
    push_str_chars(&mut file, ".rs");
    let kv: Vec<u8> = vec![(i % 255) as u8, (i * 2 % 255) as u8, (i * 3 % 255) as u8];
    let position = (i as u32, (i * 7 % 100) as u32);
    ResolvedEvent { packed_meta, message, target, kv: Some(kv), file, position }
}

} // verus!

verus! {

/// The seconds a range reaches back (0 for all time).
pub open spec fn range_secs(t: TimeRange) -> nat {
    match t {
        TimeRange::Last5Min => 300,
        TimeRange::Last15Min => 900,
        TimeRange::Last1Hour => 3600,
        TimeRange::Last6Hours => 21600,
        TimeRange::Last24Hours => 86400,
        TimeRange::Last7Days => 604800,
        TimeRange::All => 0,
    }
}

/// The seconds a range reaches back (0 for all time).
pub fn range_span_secs(t: TimeRange) -> (r: u64)
    ensures
        r == range_secs(t),
{
    match t {
        TimeRange::Last5Min => 300,
        TimeRange::Last15Min => 900,
        TimeRange::Last1Hour => 3600,
        TimeRange::Last6Hours => 21600,
        TimeRange::Last24Hours => 86400,
        TimeRange::Last7Days => 604800,
        TimeRange::All => 0,
    }
}

/// The second of an event: its millisecond timestamp divided by 1000.
pub open spec fn event_secs(e: ResolvedEvent) -> u64 {
    ((e.packed_meta >> 12u64) / 1000) as u64
}

/// The level of an event, read from its metadata.
pub open spec fn event_level_of(e: ResolvedEvent) -> LogLevel {
    level_of_code(((e.packed_meta >> 8u64) & 0xFu64) as u8)
}

/// The number of events at or after second `cutoff`, of the given level
/// (of any level for `None`).
pub open spec fn count_since(events: Seq<ResolvedEvent>, cutoff: u64, level: Option<LogLevel>) -> nat
    decreases events.len(),
{
    if events.len() == 0 {
        0
    } else {
        let e = events.last();
        count_since(events.drop_last(), cutoff, level) + if event_secs(e) >= cutoff && (match level {
            Some(l) => event_level_of(e) == l,
            None => true,
        }) {
            1nat
        } else {
            0nat
        }
    }
}

proof fn lemma_count_since_bound(events: Seq<ResolvedEvent>, cutoff: u64, level: Option<LogLevel>)
    ensures
        count_since(events, cutoff, level) <= events.len(),
    decreases events.len(),
{
    if events.len() > 0 {
        lemma_count_since_bound(events.drop_last(), cutoff, level);
    }
}

/// Counts of the events at or after `cutoff`: all of them, then fatal,
/// error, warning, info, debug and trace events.
pub open spec fn counts_since(events: Seq<ResolvedEvent>, cutoff: u64) -> Counts {
    (
        count_since(events, cutoff, None) as u64,
        count_since(events, cutoff, Some(LogLevel::FATAL)) as u64,
        count_since(events, cutoff, Some(LogLevel::ERROR)) as u64,
        count_since(events, cutoff, Some(LogLevel::WARN)) as u64,
        count_since(events, cutoff, Some(LogLevel::INFO)) as u64,
        count_since(events, cutoff, Some(LogLevel::DEBUG)) as u64,
        count_since(events, cutoff, Some(LogLevel::TRACE)) as u64,
    )
}

/// Level counts of recorded events over a recent span of time.
pub struct LogsGraphWidget {
    pub id: u8,
    pub title: &'static str,
    pub events: Vec<ResolvedEvent>,
    pub time_range: TimeRange,
    pub show_fatal: bool,
    pub show_errors: bool,
    pub show_warnings: bool,
    pub show_info: bool,
    pub show_debug: bool,
    pub show_trace: bool,
}

impl LogsGraphWidget {
    /// A graph over fifty demonstration events (see `is_demo_event`), all
    /// levels shown, over all time.
    pub fn new() -> (r: Self)
        ensures
            r.id == 2,
            r.title@ == "~ Logs (bars) ~"@,
            r.events@.len() == 50,
            forall|i: int| 0 <= i < 50 ==> is_demo_event(#[trigger] r.events@[i], i as nat),
            r.time_range == TimeRange::All,
            r.show_fatal,
            r.show_errors,
            r.show_warnings,
            r.show_info,
            r.show_debug,
            r.show_trace,
    {
        let mut events: Vec<ResolvedEvent> = Vec::new();
        for i in 0..50usize
            invariant
                events@.len() == i,
                forall|j: int| 0 <= j < i ==> is_demo_event(#[trigger] events@[j], j as nat),
        {
            events.push(demo_event(i));
        }
        LogsGraphWidget {
            id: 2,
            title: "~ Logs (bars) ~",
            events,
            time_range: TimeRange::All,
            show_fatal: true,
            show_errors: true,
            show_warnings: true,
            show_info: true,
            show_debug: true,
            show_trace: true,
        }
    }

    /// The same graph over `events`.
    pub fn with_events(self, events: Vec<ResolvedEvent>) -> (r: Self)
        ensures
            r == (LogsGraphWidget { events, ..self }),
    {
        let mut w = self;
        w.events = events;
        w
    }

    /// The second an event was recorded in.
    pub fn event_ts_secs(e: &ResolvedEvent) -> (r: u64)
        ensures
            r == event_secs(*e),
    {
        (e.packed_meta >> 12u64) / 1000
    }

    /// The level an event was recorded at.
    pub fn event_level(e: &ResolvedEvent) -> (r: LogLevel)
        ensures
            r == event_level_of(*e),
    {
        let meta: u64 = e.packed_meta;
        let raw: u64 = (meta >> 8u64) & 0xFu64;
        assert(raw < 16) by (bit_vector)
            requires
                raw == (meta >> 8u64) & 0xFu64,
        ;
        LogLevel::from_u8(&(raw as u8))
    }

    /// The first second counted when the clock reads `now` (seconds since
    /// the epoch): `now` less the range's span, or 0 for all time.
    pub fn cutoff_secs(&self, now: u64) -> (r: u64)
        requires
            now >= range_secs(self.time_range),
        ensures
            r == (if self.time_range == TimeRange::All {
                0
            } else {
                now - range_secs(self.time_range)
            }),
    {
        match self.time_range {
            TimeRange::Last5Min => now - 5 * 60,
            TimeRange::Last15Min => now - 15 * 60,
            TimeRange::Last1Hour => now - 60 * 60,
            TimeRange::Last6Hours => now - 6 * 60 * 60,
            TimeRange::Last24Hours => now - 24 * 60 * 60,
            TimeRange::Last7Days => now - 7 * 24 * 60 * 60,
            TimeRange::All => 0,
        }
    }

    /// The counts of the events at or after `cutoff`.
    pub fn counts_from(&self, cutoff: u64) -> (r: Counts)
        ensures
            r == counts_since(self.events@, cutoff),
    {
        let mut total: u64 = 0;
        let mut fatal: u64 = 0;
        let mut errors: u64 = 0;
        let mut warns: u64 = 0;
        let mut info: u64 = 0;
        let mut debug: u64 = 0;
        let mut trace: u64 = 0;
        for i in 0..self.events.len()
            invariant
                total == count_since(self.events@.take(i as int), cutoff, None),
                fatal == count_since(self.events@.take(i as int), cutoff, Some(LogLevel::FATAL)),
                errors == count_since(self.events@.take(i as int), cutoff, Some(LogLevel::ERROR)),
                warns == count_since(self.events@.take(i as int), cutoff, Some(LogLevel::WARN)),
                info == count_since(self.events@.take(i as int), cutoff, Some(LogLevel::INFO)),
                debug == count_since(self.events@.take(i as int), cutoff, Some(LogLevel::DEBUG)),
                trace == count_since(self.events@.take(i as int), cutoff, Some(LogLevel::TRACE)),
        {
            let ghost t = self.events@.take(i as int);
            proof {
                assert(self.events@.take(i + 1).drop_last() =~= t);
                lemma_count_since_bound(t, cutoff, None);
                lemma_count_since_bound(t, cutoff, Some(LogLevel::FATAL));
                lemma_count_since_bound(t, cutoff, Some(LogLevel::ERROR));
                lemma_count_since_bound(t, cutoff, Some(LogLevel::WARN));
                lemma_count_since_bound(t, cutoff, Some(LogLevel::INFO));
                lemma_count_since_bound(t, cutoff, Some(LogLevel::DEBUG));
                lemma_count_since_bound(t, cutoff, Some(LogLevel::TRACE));
            }
            let ev = &self.events[i];
            if Self::event_ts_secs(ev) >= cutoff {
                total = total + 1;
                match Self::event_level(ev) {
                    LogLevel::FATAL => fatal = fatal + 1,
                    LogLevel::ERROR => errors = errors + 1,
                    LogLevel::WARN => warns = warns + 1,
                    LogLevel::INFO => info = info + 1,
                    LogLevel::DEBUG => debug = debug + 1,
                    LogLevel::TRACE => trace = trace + 1,
                }
            }
        }
        assert(self.events@.take(self.events.len() as int) =~= self.events@);
        (total, fatal, errors, warns, info, debug, trace)
    }

    /// The counts of the events within the range when the clock reads `now`.
    pub fn aggregate_counts(&self, now: u64) -> (r: Counts)
        requires
            now >= range_secs(self.time_range),
        ensures
            r == counts_since(
                self.events@,
                if self.time_range == TimeRange::All {
                    0
                } else {
                    (now - range_secs(self.time_range)) as u64
                },
            ),
    {
        let cutoff = self.cutoff_secs(now);
        self.counts_from(cutoff)
    }

    /// The label of the graph's time range.
    pub fn format_time_range_label(&self) -> (r: &'static str)
        ensures
            r@ == range_label(self.time_range),
    {
        self.time_range.label()
    }
}

} // verus!

verus! {

/// `n` spaces.
pub open spec fn spaces(n: nat) -> Seq<char> {
    Seq::new(n, |i: int| ' ')
}

/// The text cut to `width` bytes when it is longer, then centred within
/// `width` with spaces (the extra space goes to the right).
pub open spec fn centred(s: Seq<char>, width: nat) -> Seq<char> {
    let t = if byte_len(s) > width {
        byte_slice(s, 0, width as int)
    } else {
        s
    };
    let pad: nat = if byte_len(t) < width {
        (width - byte_len(t)) as nat
    } else {
        0
    };
    spaces(pad / 2) + t + spaces((pad - pad / 2) as nat)
}

fn push_spaces(s: &mut String, n: usize)
    ensures
        final(s)@ == old(s)@ + spaces(n as nat),
{
    let ghost start = s@;
    for i in 0..n
        invariant
            s@ == start + spaces(i as nat),
    {
        s.push(' ');
        assert(start + spaces((i + 1) as nat) =~= start + spaces(i as nat) + seq![' ']);
    }
}

impl LogsGraphWidget {
    /// The bars for the given counts: fatal, errors, warnings, info, debug
    /// and trace as toggled.
    pub open spec fn bars_for(self, c: Counts) -> Seq<(Seq<char>, u64, BarStyle)> {
        or_no_data(
            bar_if(self.show_fatal, "Fatal"@, c.1, BarColor::Magenta, true)
                + bar_if(self.show_errors, "Errors"@, c.2, BarColor::Red, true)
                + bar_if(self.show_warnings, "Warns"@, c.3, BarColor::Yellow, false)
                + bar_if(self.show_info, "Info"@, c.4, BarColor::Green, false)
                + bar_if(self.show_debug, "Debug"@, c.5, BarColor::Cyan, false)
                + bar_if(self.show_trace, "Trace"@, c.6, BarColor::Gray, false),
        )
    }

    /// The bars to draw for the given counts.
    pub fn bars_of(&self, c: Counts) -> (r: Vec<Bar>)
        ensures
            r@.map_values(|b: Bar| bar_view(b)) == self.bars_for(c),
    {
        let mut bars: Vec<Bar> = Vec::new();
        push_bar_if(&mut bars, self.show_fatal, "Fatal", c.1, BarStyle { color: BarColor::Magenta, bold: true });
        push_bar_if(&mut bars, self.show_errors, "Errors", c.2, BarStyle { color: BarColor::Red, bold: true });
        push_bar_if(&mut bars, self.show_warnings, "Warns", c.3, BarStyle { color: BarColor::Yellow, bold: false });
        push_bar_if(&mut bars, self.show_info, "Info", c.4, BarStyle { color: BarColor::Green, bold: false });
        push_bar_if(&mut bars, self.show_debug, "Debug", c.5, BarStyle { color: BarColor::Cyan, bold: false });
        push_bar_if(&mut bars, self.show_trace, "Trace", c.6, BarStyle { color: BarColor::Gray, bold: false });
        let ghost shown = bars@.map_values(|b: Bar| bar_view(b));
        assert(shown =~= bar_if(self.show_fatal, "Fatal"@, c.1, BarColor::Magenta, true)
            + bar_if(self.show_errors, "Errors"@, c.2, BarColor::Red, true)
            + bar_if(self.show_warnings, "Warns"@, c.3, BarColor::Yellow, false)
            + bar_if(self.show_info, "Info"@, c.4, BarColor::Green, false)
            + bar_if(self.show_debug, "Debug"@, c.5, BarColor::Cyan, false)
            + bar_if(self.show_trace, "Trace"@, c.6, BarColor::Gray, false));
        if bars.len() == 0 {
            bars.push(("No data", 0, BarStyle { color: BarColor::Gray, bold: false }));
            assert(bars@.map_values(|b: Bar| bar_view(b)) =~= or_no_data(shown));
        }
        bars
    }

    /// The bars to draw when the clock reads `now`.
    pub fn build_bars(&self, now: u64) -> (r: Vec<Bar>)
        requires
            now >= range_secs(self.time_range),
        ensures
            r@.map_values(|b: Bar| bar_view(b)) == self.bars_for(
                counts_since(
                    self.events@,
                    if self.time_range == TimeRange::All {
                        0
                    } else {
                        (now - range_secs(self.time_range)) as u64
                    },
                ),
            ),
    {
        let c = self.aggregate_counts(now);
        self.bars_of(c)
    }

    /// The text centred within `width` columns (see `centred`). Cutting a
    /// longer text must not split a character.
    pub fn center_pad(s: &str, width: usize) -> (r: String)
        requires
            byte_len(s@) > width ==> crate::text::is_boundary(s@, width as int),
        ensures
            r@ == centred(s@, width as nat),
    {
        let chars = chars_of(s);
        let (t, tlen) = match byte_offset_index(&chars, width) {
            Some(k) if k < chars.len() => {
                let mut t: Vec<char> = Vec::new();
                for i in 0..k
                    invariant
                        k <= chars.len(),
                        t@ == chars@.take(i as int),
                {
                    t.push(chars[i]);
                    assert(chars@.take(i + 1) =~= chars@.take(i as int).push(chars@[i as int]));
                }
                proof {
                    crate::text::lemma_byte_len_take_mono(chars@, k as int, chars.len() as int);
                    assert(chars@.take(chars.len() as int) =~= chars@);
                    assert(chars@.take(0) =~= Seq::<char>::empty());
                    crate::text::lemma_boundary_index_unique(chars@, 0, 0);
                    assert(t@ =~= byte_slice(s@, 0, width as int));
                }
                (t, width)
            },
            _ => {
                proof {
                    assert(chars@.take(chars.len() as int) =~= chars@);
                }
                let n = text_byte_len(&chars, width);
                (chars, n)
            },
        };
        let pad = if tlen < width {
            width - tlen
        } else {
            0
        };
        let left = pad / 2;
        let right = pad - left;
        let mut out = String::new();
        push_spaces(&mut out, left);
        push_chars(&mut out, &t);
        push_spaces(&mut out, right);
        out
    }
}

/// The UTF-8 length of the characters, known not to exceed `bound`.
fn text_byte_len(chars: &Vec<char>, bound: usize) -> (r: usize)
    requires
        byte_len(chars@) <= bound,
    ensures
        r == byte_len(chars@),
{
    let mut n: usize = 0;
    for i in 0..chars.len()
        invariant
            n == byte_len(chars@.take(i as int)),
            byte_len(chars@) <= bound,
    {
        proof {
            crate::text::lemma_byte_len_take_step(chars@, i as int);
            crate::text::lemma_byte_len_take_mono(chars@, i + 1, chars.len() as int);
            assert(chars@.take(chars.len() as int) =~= chars@);
        }
        n = n + crate::text::char_width_exec(chars[i]);
    }
    assert(chars@.take(chars.len() as int) =~= chars@);
    n
}

} // verus!

verus! {

impl LogsGraphWidget {
    /// The widget after a key: `t` cycles the time range; `f`, `e`, `w`,
    /// `i`, `d` and `r` toggle the fatal, error, warning, info, debug and
    /// trace bars; other keys change nothing.
    pub open spec fn after_key(self, key: KeyCode) -> Self {
        match key {
            KeyCode::Char('t') => LogsGraphWidget { time_range: next_range(self.time_range), ..self },
            KeyCode::Char('f') => LogsGraphWidget { show_fatal: !self.show_fatal, ..self },
            KeyCode::Char('e') => LogsGraphWidget { show_errors: !self.show_errors, ..self },
            KeyCode::Char('w') => LogsGraphWidget { show_warnings: !self.show_warnings, ..self },
            KeyCode::Char('i') => LogsGraphWidget { show_info: !self.show_info, ..self },
            KeyCode::Char('d') => LogsGraphWidget { show_debug: !self.show_debug, ..self },
            KeyCode::Char('r') => LogsGraphWidget { show_trace: !self.show_trace, ..self },
            _ => self,
        }
    }

    /// Handles a key (see `after_key`).
    pub fn on_key(&mut self, key: KeyCode)
        ensures
            *final(self) == old(self).after_key(key),
    {
        let t = if key == KeyCode::Char('t') {
            self.time_range.next()
        } else {
            self.time_range
        };
        self.time_range = t;
        self.show_fatal = self.show_fatal != (key == KeyCode::Char('f'));
        self.show_errors = self.show_errors != (key == KeyCode::Char('e'));
        self.show_warnings = self.show_warnings != (key == KeyCode::Char('w'));
        self.show_info = self.show_info != (key == KeyCode::Char('i'));
        self.show_debug = self.show_debug != (key == KeyCode::Char('d'));
        self.show_trace = self.show_trace != (key == KeyCode::Char('r'));
    }
}

} // verus!

verus! {

/// How far each range reaches back from `now`, in seconds: five minutes,
/// fifteen minutes, an hour, six hours, a day, a week, or everything.
pub open spec fn reach_of(t: TimeRange, now: u64) -> int {
    match t {
        TimeRange::Last5Min => 5int * 60,
        TimeRange::Last15Min => 15int * 60,
        TimeRange::Last1Hour => 60int * 60,
        TimeRange::Last6Hours => 6int * 60 * 60,
        TimeRange::Last24Hours => 24int * 60 * 60,
        TimeRange::Last7Days => 7int * 24 * 60 * 60,
        TimeRange::All => now as int,
    }
}

/// The graph counts the events of the chosen range: the cutoff that
/// `cutoff_secs` and `aggregate_counts` use is `now` less the range's
/// reach, so an event is counted exactly when it is no older than the
/// range (every event for all time).
pub proof fn lemma_range_counts_recent(w: LogsGraphWidget, now: u64, e: ResolvedEvent)
    requires
        now >= range_secs(w.time_range),
    ensures
        ({
            let cutoff: u64 = if w.time_range == TimeRange::All {
                0
            } else {
                (now - range_secs(w.time_range)) as u64
            };
            &&& cutoff == now - reach_of(w.time_range, now)
            &&& count_since(seq![e], cutoff, None) == 1 <==> event_secs(e) + reach_of(w.time_range, now) >= now
            &&& counts_since(w.events@, cutoff) == counts_since(
                w.events@,
                (now - reach_of(w.time_range, now)) as u64,
            )
        }),
{
    let cutoff: u64 = if w.time_range == TimeRange::All {
        0
    } else {
        (now - range_secs(w.time_range)) as u64
    };
    assert(cutoff == now - reach_of(w.time_range, now));
    assert(seq![e].drop_last() =~= Seq::<ResolvedEvent>::empty());
    assert(seq![e].last() == e);
    assert(count_since(Seq::<ResolvedEvent>::empty(), cutoff, None) == 0);
}

} // verus!
