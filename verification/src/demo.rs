//! The dashboard's generated entries: how the random draws become a log
//! entry (level, component, message, clock time and the optional
//! figures), and the initial log listed newest first.
use vstd::prelude::*;
use crate::dashboard::{LogEntry, LogLevel, LogView};
use crate::sort::{arrange_by_text, arranged, identity, text_before};
use crate::text::{chars_of, decimal, lowercase, push_decimal, push_str_chars};
use crate::utils::{push_zero_padded, zero_padded};

verus! {

/// The random values one generated entry is made from, drawn by the
/// caller in the order the dashboard draws them. `now_secs` is the clock
/// in seconds since the epoch; `duration` and `memory` are present when
/// the entry carries those figures.
#[derive(Debug, Clone, Copy)]
pub struct EntryDraws {
    pub now_secs: u64,
    pub level_roll: u64,
    pub component_pick: usize,
    pub message_pick: usize,
    pub number: u32,
    pub age: u64,
    pub duration: Option<u32>,
    pub memory: Option<u32>,
    pub thread_roll: u16,
    pub line_roll: u32,
}

/// The level of an initial entry: of every hundred rolls 61 info, 15
/// debug, 10 warn, 10 trace, 3 error and 1 fatal.
pub open spec fn initial_level(roll: u64) -> LogLevel {
    let r = roll % 100;
    if r <= 60 {
        LogLevel::Info
    } else if r <= 75 {
        LogLevel::Debug
    } else if r <= 85 {
        LogLevel::Warn
    } else if r <= 95 {
        LogLevel::Trace
    } else if r <= 98 {
        LogLevel::Error
    } else {
        LogLevel::Fatal
    }
}

/// The level of a live entry: of every hundred rolls 66 info, 15 debug,
/// 10 warn, 7 error and 2 trace.
pub open spec fn live_level(roll: u64) -> LogLevel {
    let r = roll % 100;
    if r <= 65 {
        LogLevel::Info
    } else if r <= 80 {
        LogLevel::Debug
    } else if r <= 90 {
        LogLevel::Warn
    } else if r <= 97 {
        LogLevel::Error
    } else if r <= 99 {
        LogLevel::Trace
    } else {
        LogLevel::Fatal
    }
}

pub fn initial_level_for(roll: u64) -> (r: LogLevel)
    ensures
        r == initial_level(roll),
{
    let x = roll % 100;
    if x <= 60 {
        LogLevel::Info
    } else if x <= 75 {
        LogLevel::Debug
    } else if x <= 85 {
        LogLevel::Warn
    } else if x <= 95 {
        LogLevel::Trace
    } else if x <= 98 {
        LogLevel::Error
    } else {
        LogLevel::Fatal
    }
}

pub fn live_level_for(roll: u64) -> (r: LogLevel)
    ensures
        r == live_level(roll),
{
    let x = roll % 100;
    if x <= 65 {
        LogLevel::Info
    } else if x <= 80 {
        LogLevel::Debug
    } else if x <= 90 {
        LogLevel::Warn
    } else if x <= 97 {
        LogLevel::Error
    } else if x <= 99 {
        LogLevel::Trace
    } else {
        LogLevel::Fatal
    }
}

/// `2025-08-23 HH:MM:SS` for the time of day of `secs`.
pub open spec fn clock_text(secs: nat) -> Seq<char> {
    "2025-08-23 "@ + zero_padded((secs / 3600) % 24, 2) + seq![':'] + zero_padded((secs / 60) % 60, 2) + seq![':']
        + zero_padded(secs % 60, 2)
}

pub fn clock_string(secs: u64) -> (r: String)
    ensures
        r@ == clock_text(secs as nat),
{
    let mut s = String::new();
    push_str_chars(&mut s, "2025-08-23 ");
    push_zero_padded(&mut s, (secs / 3600) % 24, 2);
    s.push(':');
    push_zero_padded(&mut s, (secs / 60) % 60, 2);
    s.push(':');
    push_zero_padded(&mut s, secs % 60, 2);
    assert(s@ =~= clock_text(secs as nat));
    s
}

/// The template with every `{}` replaced by `n`, scanning from the left.
pub open spec fn filled(t: Seq<char>, n: Seq<char>) -> Seq<char>
    decreases t.len(),
{
    if t.len() < 2 {
        t
    } else if t[0] == '{' && t[1] == '}' {
        n + filled(t.skip(2), n)
    } else {
        seq![t[0]] + filled(t.skip(1), n)
    }
}

/// `t.replace("{}", &n.to_string())` (see `filled`).
pub fn fill_template(t: &str, n: u32) -> (r: String)
    ensures
        r@ == filled(t@, decimal(n as nat)),
{
    let c = chars_of(t);
    let mut num = String::new();
    push_decimal(&mut num, n as u64);
    let nv = chars_of(num.as_str());
    let mut out = String::new();
    let mut i: usize = 0;
    assert(c@.skip(0) =~= c@);
    assert(out@ + filled(c@, nv@) =~= filled(c@, nv@));
    while i < c.len()
        invariant
            i <= c.len(),
            nv@ == decimal(n as nat),
            out@ + filled(c@.skip(i as int), nv@) == filled(c@, nv@),
        decreases c.len() - i,
    {
        let ghost rest = c@.skip(i as int);
        if i + 1 < c.len() && c[i] == '{' && c[i + 1] == '}' {
            assert(rest.skip(2) =~= c@.skip(i + 2));
            crate::text::push_chars(&mut out, &nv);
            i = i + 2;
        } else if i + 1 < c.len() {
            assert(rest.skip(1) =~= c@.skip(i + 1));
            out.push(c[i]);
            i = i + 1;
        } else {
            assert(rest =~= seq![c@[i as int]]);
            assert(c@.skip(i + 1) =~= Seq::<char>::empty());
            out.push(c[i]);
            i = i + 1;
        }
        assert(out@ + filled(c@.skip(i as int), nv@) =~= filled(c@, nv@));
    }
    assert(c@.skip(c.len() as int) =~= Seq::<char>::empty());
    assert(out@ =~= filled(c@, nv@));
    out
}

/// The components of the initial entries.
pub open spec fn initial_components() -> Seq<Seq<char>> {
    seq![
        "Auth"@,
        "Database"@,
        "Cache"@,
        "API"@,
        "Worker"@,
        "Scheduler"@,
        "Network"@,
        "Storage"@,
        "Security"@,
        "Monitoring"@,
    ]
}

/// The message templates of the initial entries.
pub open spec fn initial_messages() -> Seq<Seq<char>> {
    seq![
        "Connection established successfully"@,
        "Query executed in {}ms"@,
        "Cache miss for key: {}"@,
        "Request processed"@,
        "Timeout occurred after {}ms"@,
        "Authentication failed for user"@,
        "Memory allocation: {}KB"@,
        "Background job started"@,
        "Configuration reloaded"@,
        "Health check passed"@,
        "Rate limit exceeded"@,
        "Database connection pool exhausted"@,
        "SSL handshake completed"@,
        "Backup operation started"@,
        "Performance threshold exceeded"@,
    ]
}

/// The components of the live entries.
pub open spec fn live_components() -> Seq<Seq<char>> {
    seq!["Auth"@, "Database"@, "Cache"@, "API"@, "Worker"@]
}

/// The messages of the live entries.
pub open spec fn live_messages() -> Seq<Seq<char>> {
    seq![
        "New connection established"@,
        "Request processed successfully"@,
        "Cache updated"@,
        "Error occurred during processing"@,
        "Background task completed"@,
    ]
}

fn initial_component(k: usize) -> (r: &'static str)
    requires
        k < 10,
    ensures
        r@ == initial_components()[k as int],
{
    match k {
        0 => "Auth",
        1 => "Database",
        2 => "Cache",
        3 => "API",
        4 => "Worker",
        5 => "Scheduler",
        6 => "Network",
        7 => "Storage",
        8 => "Security",
        _ => "Monitoring",
    }
}

fn initial_message(k: usize) -> (r: &'static str)
    requires
        k < 15,
    ensures
        r@ == initial_messages()[k as int],
{
    match k {
        0 => "Connection established successfully",
        1 => "Query executed in {}ms",
        2 => "Cache miss for key: {}",
        3 => "Request processed",
        4 => "Timeout occurred after {}ms",
        5 => "Authentication failed for user",
        6 => "Memory allocation: {}KB",
        7 => "Background job started",
        8 => "Configuration reloaded",
        9 => "Health check passed",
        10 => "Rate limit exceeded",
        11 => "Database connection pool exhausted",
        12 => "SSL handshake completed",
        13 => "Backup operation started",
        _ => "Performance threshold exceeded",
    }
}

fn live_component(k: usize) -> (r: &'static str)
    requires
        k < 5,
    ensures
        r@ == live_components()[k as int],
{
    match k {
        0 => "Auth",
        1 => "Database",
        2 => "Cache",
        3 => "API",
        _ => "Worker",
    }
}

fn live_message(k: usize) -> (r: &'static str)
    requires
        k < 5,
    ensures
        r@ == live_messages()[k as int],
{
    match k {
        0 => "New connection established",
        1 => "Request processed successfully",
        2 => "Cache updated",
        3 => "Error occurred during processing",
        _ => "Background task completed",
    }
}

/// `src/<component in lower case>.rs`.
pub open spec fn source_file_of(component: Seq<char>) -> Seq<char> {
    "src/"@ + lowercase(component) + ".rs"@
}

fn source_file(component: &str) -> (r: String)
    ensures
        r@ == source_file_of(component@),
{
    let mut s = String::new();
    push_str_chars(&mut s, "src/");
    let low = component.to_lowercase();
    push_str_chars(&mut s, low.as_str());
    push_str_chars(&mut s, ".rs");
    s
}

/// The figures of an entry: a duration and a memory size below the given
/// bounds when drawn, thread 1 to 20 and line 1 to 500.
pub open spec fn figures_of(
    e: LogEntry,
    d: EntryDraws,
    duration_bound: u32,
    memory_bound: u32,
) -> bool {
    &&& e.duration_ms == (match d.duration {
        Some(x) => Some((x % duration_bound) as u32),
        None => None,
    })
    &&& e.memory_kb == (match d.memory {
        Some(x) => Some((x % memory_bound) as u32),
        None => None,
    })
    &&& e.thread_id == (d.thread_roll % 20 + 1) as u16
    &&& e.line_number == (d.line_roll % 500 + 1) as u32
}

/// `e` is the initial entry `id` made from `d`: its level from the roll,
/// one of the ten components and fifteen message templates (a `{}` filled
/// with the number below 1000), and the clock time `age` seconds (below a
/// day) before now.
pub open spec fn is_initial_entry(e: LogEntry, id: u64, d: EntryDraws) -> bool {
    let component = initial_components()[(d.component_pick % 10) as int];
    &&& e.id == id
    &&& e.level == initial_level(d.level_roll)
    &&& e.component@ == component
    &&& e.message@ == filled(initial_messages()[(d.message_pick % 15) as int], decimal((d.number % 1000) as nat))
    &&& e.timestamp@ == clock_text(
        (if d.now_secs >= d.age % 86400 {
            d.now_secs - d.age % 86400
        } else {
            0
        }) as nat,
    )
    &&& e.source_file@ == source_file_of(component)
    &&& figures_of(e, d, 1000, 10000)
}

/// `e` is the live entry `id` made from `d`: its level from the roll, one
/// of five components and five messages, stamped with the current clock
/// time.
pub open spec fn is_live_entry(e: LogEntry, id: u64, d: EntryDraws) -> bool {
    let component = live_components()[(d.component_pick % 5) as int];
    &&& e.id == id
    &&& e.level == live_level(d.level_roll)
    &&& e.component@ == component
    &&& e.message@ == live_messages()[(d.message_pick % 5) as int]
    &&& e.timestamp@ == clock_text(d.now_secs as nat)
    &&& e.source_file@ == source_file_of(component)
    &&& figures_of(e, d, 500, 5000)
}

fn bounded(x: Option<u32>, bound: u32) -> (r: Option<u32>)
    requires
        bound > 0,
    ensures
        r == (match x {
            Some(v) => Some((v % bound) as u32),
            None => None,
        }),
{
    match x {
        Some(v) => Some(v % bound),
        None => None,
    }
}

/// The initial entry `id` made from the draws (see `is_initial_entry`).
pub fn initial_entry(id: u64, d: &EntryDraws) -> (e: LogEntry)
    ensures
        is_initial_entry(e, id, *d),
{
    let component = initial_component(d.component_pick % 10);
    let template = initial_message(d.message_pick % 15);
    let offset = d.age % 86400;
    let log_time = if d.now_secs >= offset {
        d.now_secs - offset
    } else {
        0
    };
    LogEntry {
        id,
        timestamp: clock_string(log_time),
        level: initial_level_for(d.level_roll),
        component: component.to_owned(),
        message: fill_template(template, d.number % 1000),
        duration_ms: bounded(d.duration, 1000),
        memory_kb: bounded(d.memory, 10000),
        thread_id: d.thread_roll % 20 + 1,
        source_file: source_file(component),
        line_number: d.line_roll % 500 + 1,
    }
}

/// The live entry `id` made from the draws (see `is_live_entry`).
pub fn live_entry(id: u64, d: &EntryDraws) -> (e: LogEntry)
    ensures
        is_live_entry(e, id, *d),
{
    let component = live_component(d.component_pick % 5);
    LogEntry {
        id,
        timestamp: clock_string(d.now_secs),
        level: live_level_for(d.level_roll),
        component: component.to_owned(),
        message: live_message(d.message_pick % 5).to_owned(),
        duration_ms: bounded(d.duration, 500),
        memory_kb: bounded(d.memory, 5000),
        thread_id: d.thread_roll % 20 + 1,
        source_file: source_file(component),
        line_number: d.line_roll % 500 + 1,
    }
}

/// The positions of `logs` ordered by timestamp text, latest first, equal
/// timestamps in their original order.
pub open spec fn newest_first_order(logs: Seq<LogEntry>) -> Seq<usize> {
    arranged(identity(logs.len()), text_before(|i: usize| logs[i as int].timestamp@, true))
}

/// Listed newest first, no entry is followed by one with a later
/// timestamp, and entries with equal timestamps keep their order; every
/// entry is listed exactly once.
pub proof fn lemma_newest_first_ordered(logs: Seq<LogEntry>)
    requires
        logs.len() <= usize::MAX,
    ensures
        newest_first_order(logs).to_multiset() == identity(logs.len()).to_multiset(),
        forall|k: int, l: int|
            #![trigger newest_first_order(logs)[k], newest_first_order(logs)[l]]
            0 <= k < l < newest_first_order(logs).len() ==> {
                let a = logs[newest_first_order(logs)[k] as int].timestamp@;
                let b = logs[newest_first_order(logs)[l] as int].timestamp@;
                &&& !crate::text::text_less(a, b)
                &&& a == b ==> newest_first_order(logs)[k] < newest_first_order(logs)[l]
            },
{
    let key = |i: usize| logs[i as int].timestamp@;
    let before = text_before(key, true);
    crate::sort::lemma_text_before_order(key, true);
    assert(identity(logs.len()).no_duplicates());
    crate::sort::lemma_arranged_sorts(identity(logs.len()), before);
    let r = newest_first_order(logs);
    assert forall|k: int, l: int| #![trigger r[k], r[l]] 0 <= k < l < r.len() implies {
        let a = logs[r[k] as int].timestamp@;
        let b = logs[r[l] as int].timestamp@;
        &&& !crate::text::text_less(a, b)
        &&& a == b ==> r[k] < r[l]
    } by {
        assert(before(r[k], r[l]));
        crate::text::lemma_text_less_strict_total(key(r[k]), key(r[l]), key(r[k]));
    }
}

/// The entries ordered by timestamp, latest first, as a stable sort on the
/// timestamp text does.
pub fn newest_first(logs: Vec<LogEntry>) -> (r: Vec<LogEntry>)
    ensures
        r.len() == logs.len(),
        forall|k: int| 0 <= k < r.len() ==> #[trigger] r@[k] == logs@[newest_first_order(logs@)[k] as int],
{
    let n = logs.len();
    let mut idx: Vec<usize> = Vec::new();
    let mut keys: Vec<Vec<char>> = Vec::new();
    for i in 0..n
        invariant
            n == logs.len(),
            idx@ == identity(i as nat),
            keys.len() == i,
            forall|k: int| 0 <= k < i ==> #[trigger] keys@[k]@ == logs@[k].timestamp@,
    {
        idx.push(i);
        keys.push(chars_of(logs[i].timestamp.as_str()));
        assert(idx@ =~= identity((i + 1) as nat));
    }
    let ghost key = |i: usize| logs@[i as int].timestamp@;
    assert(idx@.no_duplicates());
    let order = arrange_by_text(idx, keys, true, Ghost(key));
    let mut r: Vec<LogEntry> = Vec::new();
    for k in 0..order.len()
        invariant
            n == logs.len(),
            order@ == newest_first_order(logs@),
            order@.to_multiset() == identity(n as nat).to_multiset(),
            r.len() == k,
            forall|j: int| 0 <= j < k ==> #[trigger] r@[j] == logs@[order@[j] as int],
    {
        proof {
            let x = order@[k as int];
            assert(order@.contains(x));
            vstd::seq_lib::to_multiset_contains(order@, x);
            vstd::seq_lib::to_multiset_contains(identity(n as nat), x);
            let j = choose|j: int| 0 <= j < identity(n as nat).len() && identity(n as nat)[j] == x;
            assert(x < n);
        }
        r.push(logs[order[k]].clone());
    }
    proof {
        vstd::seq_lib::to_multiset_len(order@);
        vstd::seq_lib::to_multiset_len(identity(n as nat));
    }
    r
}

impl LogView {
    /// Adds one initial entry per draw, numbered in draw order from 0,
    /// after the entries already held, then lists them all latest first
    /// (see `newest_first`); nothing else changes.
    pub fn generate_initial_logs(&mut self, draws: &Vec<EntryDraws>)
        requires
            draws.len() <= u64::MAX,
            old(self).logs@.len() + draws.len() <= usize::MAX,
        ensures
            final(self).logs@.len() == old(self).logs@.len() + draws.len(),
            exists|made: Seq<LogEntry>|
                {
                    &&& made.len() == draws.len()
                    &&& forall|i: int|
                        0 <= i < made.len() ==> is_initial_entry(#[trigger] made[i], i as u64, draws@[i])
                    &&& forall|k: int|
                        0 <= k < final(self).logs@.len() ==> #[trigger] final(self).logs@[k] == (old(self).logs@
                            + made)[newest_first_order(old(self).logs@ + made)[k] as int]
                },
            *final(self) == (LogView { logs: final(self).logs, ..*old(self) }),
    {
        let mut all: Vec<LogEntry> = Vec::new();
        std::mem::swap(&mut all, &mut self.logs);
        let ghost start = all@;
        let ghost mut made: Seq<LogEntry> = Seq::empty();
        for i in 0..draws.len()
            invariant
                draws.len() <= u64::MAX,
                start.len() + draws.len() <= usize::MAX,
                made.len() == i,
                all@ == start + made,
                forall|j: int| 0 <= j < i ==> is_initial_entry(#[trigger] made[j], j as u64, draws@[j]),
        {
            let e = initial_entry(i as u64, &draws[i]);
            proof {
                made = made.push(e);
            }
            all.push(e);
            assert(all@ =~= start + made);
        }
        let sorted = newest_first(all);
        self.logs = sorted;
    }

    /// Puts the live entry made from `d`, numbered by the current count of
    /// entries, first (see `add_log`).
    pub fn add_random_log(&mut self, d: &EntryDraws)
        ensures
            exists|e: LogEntry|
                {
                    &&& is_live_entry(e, old(self).logs@.len() as u64, *d)
                    &&& final(self).logs@ == seq![e].add(old(self).logs@).take(
                        if old(self).logs@.len() + 1 > 5000 {
                            5000
                        } else {
                            old(self).logs@.len() + 1int
                        },
                    )
                },
            *final(self) == (LogView { logs: final(self).logs, ..*old(self) }),
    {
        let e = live_entry(self.logs.len() as u64, d);
        let ghost g = e;
        self.add_log(e);
        assert(is_live_entry(g, old(self).logs@.len() as u64, *d));
    }
}

} // verus!
