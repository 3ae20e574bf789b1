//! The log table: filtering by level and search text, ordering by time,
//! level or message, navigation (plain for small sets, through a virtual
//! window for large ones), bookmarks and the filtered-rows cache.
use vstd::prelude::*;
use crate::event::{level_code, level_text};
use crate::layout::{Constraint, KeyCode, Rect, TableState};
use crate::logs::{opt_text, ResolvedLog};
use crate::sort::{arrange_by_number, arrange_by_text, arranged, number_before, text_before};
use crate::text::{chars_eq, chars_of, contains_text, has_substring, lowercase, lowercase_chars, push_str_chars};
use crate::utils::Utils;

verus! {

#[derive(Debug, Clone, Copy, PartialEq, Eq, Structural)]
pub enum SortBy {
    Time,
    Level,
    Message,
}

#[derive(Debug, Clone, Copy, PartialEq, Eq, Structural)]
pub enum SortOrder {
    Ascending,
    Descending,
}

#[derive(Debug, Clone, Copy, PartialEq, Eq, Structural)]
pub enum ViewState {
    Normal,
    Search,
    Help,
    LogDetail,
}

/// The milliseconds chrono reads from `%Y-%m-%d %H:%M:%S%.3f %z`, if the
/// text parses.
pub uninterp spec fn zoned_stamp_millis(s: Seq<char>) -> Option<i64>;

/// The milliseconds chrono reads from `%Y-%m-%d %H:%M:%S%.3f` taken as UTC,
/// if the text parses.
pub uninterp spec fn naive_stamp_millis(s: Seq<char>) -> Option<i64>;

/// Calls `DateTime::parse_from_str(s, "%Y-%m-%d %H:%M:%S%.3f %z")` and
/// reads `timestamp_millis` of the result; what chrono accepts is left to
/// the name `zoned_stamp_millis`.
#[verifier::external_body]
fn parse_zoned_millis(s: &str) -> (r: Option<i64>)
    ensures
        r == zoned_stamp_millis(s@),
{
    match chrono::DateTime::parse_from_str(s, "%Y-%m-%d %H:%M:%S%.3f %z") {
        Ok(dt) => Some(dt.timestamp_millis()),
        Err(_) => None,
    }
}

/// Calls `NaiveDateTime::parse_from_str(s, "%Y-%m-%d %H:%M:%S%.3f")` and
/// reads `and_utc().timestamp_millis()` of the result; what chrono accepts
/// is left to the name `naive_stamp_millis`.
#[verifier::external_body]
fn parse_naive_millis(s: &str) -> (r: Option<i64>)
    ensures
        r == naive_stamp_millis(s@),
{
    match chrono::NaiveDateTime::parse_from_str(s, "%Y-%m-%d %H:%M:%S%.3f") {
        Ok(dt) => Some(dt.and_utc().timestamp_millis()),
        Err(_) => None,
    }
}

/// The time key of a record: its timestamp read with a zone offset, else
/// read as UTC, else 0 (a negative instant wraps as `as u64` does).
pub open spec fn stamp_millis(ts: Seq<char>) -> u64 {
    match zoned_stamp_millis(ts) {
        Some(m) => m as u64,
        None => match naive_stamp_millis(ts) {
            Some(m) => m as u64,
            None => 0,
        },
    }
}

/// A record passes the level filter and the (lower-cased) search text.
pub open spec fn log_matches(ev: ResolvedLog, level_filter: Option<Seq<char>>, query: Option<Seq<char>>) -> bool {
    &&& match level_filter {
        Some(f) => level_text(ev.level) == f,
        None => true,
    }
    &&& match query {
        Some(q) => {
            ||| has_substring(lowercase(ev.message@), q)
            ||| has_substring(lowercase(level_text(ev.level)), q)
            ||| has_substring(lowercase(ev.target@), q)
            ||| has_substring(ev.timestamp@, q)
            ||| has_substring(lowercase(ev.file@), q)
        },
        None => true,
    }
}

/// The indices, in increasing order, of the first `n` records that match.
pub open spec fn matches_upto(
    logs: Seq<ResolvedLog>,
    level_filter: Option<Seq<char>>,
    query: Option<Seq<char>>,
    n: nat,
) -> Seq<usize>
    decreases n,
{
    if n == 0 {
        Seq::empty()
    } else {
        let r = matches_upto(logs, level_filter, query, (n - 1) as nat);
        if log_matches(logs[n - 1], level_filter, query) {
            r.push((n - 1) as usize)
        } else {
            r
        }
    }
}

pub proof fn lemma_matches_upto_props(
    logs: Seq<ResolvedLog>,
    level_filter: Option<Seq<char>>,
    query: Option<Seq<char>>,
    n: nat,
)
    requires
        n <= logs.len(),
        logs.len() <= usize::MAX,
    ensures
        matches_upto(logs, level_filter, query, n).len() <= n,
        forall|k: int|
            0 <= k < matches_upto(logs, level_filter, query, n).len() ==> #[trigger] matches_upto(
                logs,
                level_filter,
                query,
                n,
            )[k] < n,
        forall|k: int, l: int|
            0 <= k < l < matches_upto(logs, level_filter, query, n).len() ==> #[trigger] matches_upto(
                logs,
                level_filter,
                query,
                n,
            )[k] < #[trigger] matches_upto(logs, level_filter, query, n)[l],
        matches_upto(logs, level_filter, query, n).no_duplicates(),
    decreases n,
{
    if n > 0 {
        lemma_matches_upto_props(logs, level_filter, query, (n - 1) as nat);
    }
    let r = matches_upto(logs, level_filter, query, n);
    assert forall|i: int, j: int| 0 <= i < r.len() && 0 <= j < r.len() && i != j implies r[i] != r[j] by {
        if i < j {
            assert(r[i] < r[j]);
        } else {
            assert(r[j] < r[i]);
        }
    }
}

/// The sort key order of the table.
pub open spec fn log_order(logs: Seq<ResolvedLog>, sort_by: SortBy, sort_order: SortOrder) -> spec_fn(usize, usize) -> bool {
    let descending = sort_order == SortOrder::Descending;
    match sort_by {
        SortBy::Time => number_before(|i: usize| stamp_millis(logs[i as int].timestamp@), descending),
        SortBy::Level => number_before(|i: usize| level_code(logs[i as int].level) as u64, descending),
        SortBy::Message => text_before(|i: usize| logs[i as int].message@, descending),
    }
}

/// The rows for a list of record indices.
pub open spec fn rows_of(logs: Seq<ResolvedLog>, ids: Seq<usize>) -> Seq<(usize, ResolvedLog)> {
    ids.map_values(|i: usize| (i, logs[i as int]))
}

/// Rows of references hold the listed rows.
pub open spec fn same_rows(r: Seq<(usize, &ResolvedLog)>, v: Seq<(usize, ResolvedLog)>) -> bool {
    &&& r.len() == v.len()
    &&& forall|k: int| 0 <= k < r.len() ==> (#[trigger] r[k]).0 == v[k].0 && *r[k].1 == v[k].1
}

pub open spec fn sort_by_name(s: SortBy) -> Seq<char> {
    match s {
        SortBy::Time => seq!['T', 'i', 'm', 'e'],
        SortBy::Level => seq!['L', 'e', 'v', 'e', 'l'],
        SortBy::Message => seq!['M', 'e', 's', 's', 'a', 'g', 'e'],
    }
}

pub open spec fn sort_order_name(s: SortOrder) -> Seq<char> {
    match s {
        SortOrder::Ascending => seq!['A', 's', 'c', 'e', 'n', 'd', 'i', 'n', 'g'],
        SortOrder::Descending => seq!['D', 'e', 's', 'c', 'e', 'n', 'd', 'i', 'n', 'g'],
    }
}

pub open spec fn min_nat(a: int, b: int) -> int {
    if a < b {
        a
    } else {
        b
    }
}

pub struct LogsWidget<'a> {
    pub id: u8,
    pub title: &'a str,
    pub logs: &'a Vec<ResolvedLog>,
    pub view_state: ViewState,
    pub focused: bool,
    pub paused: bool,
    pub is_loading: bool,
    pub has_data: bool,
    pub error_message: Option<String>,
    pub selected_row: usize,
    pub scroll_offset: u16,
    pub search_query: String,
    pub level_filter: Option<String>,
    pub sort_by: SortBy,
    pub sort_order: SortOrder,
    pub show_timestamps: bool,
    pub show_levels: bool,
    pub show_line_numbers: bool,
    pub wrap_lines: bool,
    pub follow_tail: bool,
    pub auto_scroll: bool,
    pub bookmarks: Vec<usize>,
    pub area: Option<Rect>,
    pub table_state: TableState,
    pub page_size: usize,
    pub processing_heavy_operation: bool,
    pub cached_filtered_logs: Option<Vec<(usize, ResolvedLog)>>,
    pub cache_key: String,
    /// Rows shown at most from the cached path.
    pub page_size_limit: usize,
    /// First row of the virtual window (large data sets).
    pub virtual_scroll_offset: usize,
    /// Rows in the virtual window.
    pub virtual_window_size: usize,
    pub total_filtered_count: usize,
    /// Only a sample of the log file is loaded.
    pub is_sample_data: bool,
    pub full_data_loading: bool,
    pub load_more_requested: bool,
}

impl<'a> LogsWidget<'a> {
    /// The lower-cased search text, when there is one.
    pub open spec fn query(&self) -> Option<Seq<char>> {
        if self.search_query@.len() > 0 {
            Some(lowercase(self.search_query@))
        } else {
            None
        }
    }

    /// Indices of the records that pass the filters, in log order.
    pub open spec fn matched(&self) -> Seq<usize> {
        matches_upto(self.logs@, opt_text(self.level_filter), self.query(), self.logs@.len())
    }

    /// The given records in table order.
    pub open spec fn arrange_ids(&self, ids: Seq<usize>) -> Seq<usize> {
        arranged(ids, log_order(self.logs@, self.sort_by, self.sort_order))
    }

    /// Every matching record in table order.
    pub open spec fn direct_rows(&self) -> Seq<(usize, ResolvedLog)> {
        rows_of(self.logs@, self.arrange_ids(self.matched()))
    }

    /// The count of filtered rows: the cache's size when there is a cache.
    pub open spec fn total_fast(&self) -> nat {
        match self.cached_filtered_logs {
            Some(c) => c@.len(),
            None => self.matched().len(),
        }
    }

    /// The matching records inside the virtual window, in log order.
    pub open spec fn window_ids(&self) -> Seq<usize> {
        let total = self.total_fast() as int;
        let start = self.virtual_scroll_offset as int;
        let end = min_nat(start + self.virtual_window_size, total);
        let hi = min_nat(end, self.matched().len() as int);
        if start >= total || start >= hi {
            Seq::empty()
        } else {
            self.matched().subrange(start, hi)
        }
    }

    /// The text the cache is keyed by: level filter, search text, sort
    /// column and sort order, separated by `|`.
    pub open spec fn cache_key_text(&self) -> Seq<char> {
        (match opt_text(self.level_filter) {
            Some(f) => f,
            None => Seq::empty(),
        }) + seq!['|'] + self.search_query@ + seq!['|'] + sort_by_name(self.sort_by) + seq!['|']
            + sort_order_name(self.sort_order)
    }

    /// The rows the table shows: for more than 10000 records, the virtual
    /// window sorted; for more than 1000, the first `page_size_limit` rows of
    /// the current cache or of the full result; otherwise the full result.
    pub open spec fn visible_rows(&self) -> Seq<(usize, ResolvedLog)> {
        if self.logs@.len() > 10000 {
            rows_of(self.logs@, self.arrange_ids(self.window_ids()))
        } else if self.logs@.len() > 1000 {
            match self.cached_filtered_logs {
                Some(c) if self.cache_key@ == self.cache_key_text() => c@.take(
                    min_nat(self.page_size_limit as int, c@.len() as int),
                ),
                _ => self.direct_rows().take(
                    min_nat(self.page_size_limit as int, self.direct_rows().len() as int),
                ),
            }
        } else {
            self.direct_rows()
        }
    }
}

} // verus!

verus! {

fn log_matches_exec(ev: &ResolvedLog, level_filter: &Option<Vec<char>>, query: &Option<Vec<char>>) -> (r: bool)
    ensures
        r == log_matches(
            *ev,
            match level_filter {
                Some(f) => Some(f@),
                None => None,
            },
            match query {
                Some(q) => Some(q@),
                None => None,
            },
        ),
{
    if let Some(f) = level_filter {
        let name = chars_of(Utils::level_name(ev.level));
        if !chars_eq(&name, f) {
            return false;
        }
    }
    if let Some(q) = query {
        if contains_text(&lowercase_chars(ev.message.as_str()), q) {
            return true;
        }
        if contains_text(&lowercase_chars(ev.level.as_str()), q) {
            return true;
        }
        if contains_text(&lowercase_chars(ev.target.as_str()), q) {
            return true;
        }
        if contains_text(&chars_of(ev.timestamp.as_str()), q) {
            return true;
        }
        if contains_text(&lowercase_chars(ev.file.as_str()), q) {
            return true;
        }
        return false;
    }
    true
}

/// The milliseconds a record's timestamp stands for (see `stamp_millis`).
fn ev_timestamp_millis(event: &ResolvedLog) -> (r: u64)
    ensures
        r == stamp_millis(event.timestamp@),
{
    if let Some(ms) = parse_zoned_millis(event.timestamp.as_str()) {
        ms as u64
    } else if let Some(ms) = parse_naive_millis(event.timestamp.as_str()) {
        ms as u64
    } else {
        0
    }
}

impl<'a> LogsWidget<'a> {
    fn filter_inputs(&self) -> (r: (Option<Vec<char>>, Option<Vec<char>>))
        ensures
            (match r.0 {
                Some(f) => Some(f@),
                None => None,
            }) == opt_text(self.level_filter),
            (match r.1 {
                Some(q) => Some(q@),
                None => None,
            }) == self.query(),
    {
        let lf = match &self.level_filter {
            Some(f) => Some(chars_of(f.as_str())),
            None => None,
        };
        let q = if !self.search_query.as_str().is_empty() {
            Some(lowercase_chars(self.search_query.as_str()))
        } else {
            None
        };
        (lf, q)
    }
}

} // verus!

verus! {

impl<'a> LogsWidget<'a> {
    proof fn lemma_matched_props(&self)
        ensures
            self.matched().len() <= self.logs@.len(),
            forall|k: int| 0 <= k < self.matched().len() ==> #[trigger] self.matched()[k] < self.logs@.len(),
            self.matched().no_duplicates(),
    {
        assert(self.logs@.len() == self.logs.len());
        lemma_matches_upto_props(self.logs@, opt_text(self.level_filter), self.query(), self.logs@.len());
    }

    /// Indices of the records that pass the filters, in log order.
    fn matched_indices(&self) -> (r: Vec<usize>)
        ensures
            r@ == self.matched(),
    {
        let (lf, q) = self.filter_inputs();
        let mut r: Vec<usize> = Vec::new();
        for i in 0..self.logs.len()
            invariant
                (match lf {
                    Some(f) => Some(f@),
                    None => None,
                }) == opt_text(self.level_filter),
                (match q {
                    Some(q) => Some(q@),
                    None => None,
                }) == self.query(),
                r@ == matches_upto(self.logs@, opt_text(self.level_filter), self.query(), i as nat),
        {
            if log_matches_exec(&self.logs[i], &lf, &q) {
                r.push(i);
            }
        }
        r
    }

    /// The given records in table order.
    fn arrange(&self, ids: Vec<usize>) -> (r: Vec<usize>)
        requires
            ids@.no_duplicates(),
            forall|k: int| 0 <= k < ids.len() ==> #[trigger] ids@[k] < self.logs.len(),
        ensures
            r@ == self.arrange_ids(ids@),
            r@.to_multiset() == ids@.to_multiset(),
            r.len() == ids.len(),
    {
        let descending = match self.sort_order {
            SortOrder::Descending => true,
            SortOrder::Ascending => false,
        };
        let ghost logs = self.logs@;
        match self.sort_by {
            SortBy::Time => {
                let mut keys: Vec<u64> = Vec::new();
                for k in 0..ids.len()
                    invariant
                        logs == self.logs@,
                        forall|j: int| 0 <= j < ids.len() ==> #[trigger] ids@[j] < self.logs.len(),
                        keys.len() == k,
                        forall|j: int| 0 <= j < k ==> #[trigger] keys@[j] == stamp_millis(logs[ids@[j] as int].timestamp@),
                {
                    keys.push(ev_timestamp_millis(&self.logs[ids[k]]));
                }
                let ghost key = |i: usize| stamp_millis(logs[i as int].timestamp@);
                arrange_by_number(ids, keys, descending, Ghost(key))
            },
            SortBy::Level => {
                let mut keys: Vec<u64> = Vec::new();
                for k in 0..ids.len()
                    invariant
                        logs == self.logs@,
                        forall|j: int| 0 <= j < ids.len() ==> #[trigger] ids@[j] < self.logs.len(),
                        keys.len() == k,
                        forall|j: int| 0 <= j < k ==> #[trigger] keys@[j] == level_code(logs[ids@[j] as int].level) as u64,
                {
                    let code: u64 = self.logs[ids[k]].level.as_u8() as u64;
                    keys.push(code);
                }
                let ghost key = |i: usize| level_code(logs[i as int].level) as u64;
                arrange_by_number(ids, keys, descending, Ghost(key))
            },
            SortBy::Message => {
                let mut keys: Vec<Vec<char>> = Vec::new();
                for k in 0..ids.len()
                    invariant
                        logs == self.logs@,
                        forall|j: int| 0 <= j < ids.len() ==> #[trigger] ids@[j] < self.logs.len(),
                        keys.len() == k,
                        forall|j: int| 0 <= j < k ==> #[trigger] keys@[j]@ == logs[ids@[j] as int].message@,
                {
                    keys.push(chars_of(self.logs[ids[k]].message.as_str()));
                }
                let ghost key = |i: usize| logs[i as int].message@;
                arrange_by_text(ids, keys, descending, Ghost(key))
            },
        }
    }

    /// Rows (index and record) for the given record indices.
    fn rows_for(&self, ids: &Vec<usize>) -> (r: Vec<(usize, &'a ResolvedLog)>)
        requires
            forall|k: int| 0 <= k < ids.len() ==> #[trigger] ids@[k] < self.logs.len(),
        ensures
            same_rows(r@, rows_of(self.logs@, ids@)),
    {
        let logs: &'a Vec<ResolvedLog> = self.logs;
        let mut r: Vec<(usize, &'a ResolvedLog)> = Vec::new();
        for k in 0..ids.len()
            invariant
                logs@ == self.logs@,
                forall|j: int| 0 <= j < ids.len() ==> #[trigger] ids@[j] < logs.len(),
                same_rows(r@, rows_of(logs@, ids@.take(k as int))),
        {
            let i = ids[k];
            r.push((i, &logs[i]));
            assert(ids@.take(k + 1) =~= ids@.take(k as int).push(i));
        }
        assert(ids@.take(ids.len() as int) =~= ids@);
        r
    }
}

} // verus!

verus! {

impl<'a> LogsWidget<'a> {
    /// The number of filtered rows: the cache's size when there is a cache,
    /// otherwise a count of the matching records.
    fn get_total_filtered_count_fast(&self) -> (r: usize)
        ensures
            r == self.total_fast(),
    {
        if let Some(cached) = &self.cached_filtered_logs {
            return cached.len();
        }
        proof {
            self.lemma_matched_props();
        }
        self.matched_indices().len()
    }

    /// Every matching record in table order.
    fn compute_filtered_logs_direct(&self) -> (r: Vec<(usize, &'a ResolvedLog)>)
        ensures
            same_rows(r@, self.direct_rows()),
    {
        proof {
            self.lemma_matched_props();
        }
        let ids = self.matched_indices();
        let sorted = self.arrange(ids);
        proof {
            assert forall|k: int| 0 <= k < sorted.len() implies #[trigger] sorted@[k] < self.logs.len() by {
                let x = sorted@[k];
                broadcast use vstd::seq_lib::to_multiset_contains;
                assert(sorted@.contains(x));
                assert(sorted@.to_multiset().count(x) > 0);
                assert(self.matched().contains(x));
            }
        }
        self.rows_for(&sorted)
    }

    /// The text the cache is keyed by.
    fn get_cache_key(&self) -> (r: String)
        ensures
            r@ == self.cache_key_text(),
    {
        let mut key = String::new();
        if let Some(f) = &self.level_filter {
            crate::text::push_str_chars(&mut key, f.as_str());
        }
        key.push('|');
        crate::text::push_str_chars(&mut key, self.search_query.as_str());
        key.push('|');
        push_sort_by_name(&mut key, self.sort_by);
        key.push('|');
        push_sort_order_name(&mut key, self.sort_order);
        assert(key@ =~= self.cache_key_text());
        key
    }
}

fn push_sort_by_name(key: &mut String, s: SortBy)
    ensures
        final(key)@ == old(key)@ + sort_by_name(s),
{
    proof {
        reveal_strlit("Time");
        reveal_strlit("Level");
        reveal_strlit("Message");
    }
    let name = match s {
        SortBy::Time => "Time",
        SortBy::Level => "Level",
        SortBy::Message => "Message",
    };
    assert(name@ =~= sort_by_name(s));
    crate::text::push_str_chars(key, name);
}

fn push_sort_order_name(key: &mut String, s: SortOrder)
    ensures
        final(key)@ == old(key)@ + sort_order_name(s),
{
    proof {
        reveal_strlit("Ascending");
        reveal_strlit("Descending");
    }
    let name = match s {
        SortOrder::Ascending => "Ascending",
        SortOrder::Descending => "Descending",
    };
    assert(name@ =~= sort_order_name(s));
    crate::text::push_str_chars(key, name);
}

} // verus!

verus! {

impl<'a> LogsWidget<'a> {
    /// The virtual window's end can be computed without overflow.
    pub open spec fn window_fits(&self) -> bool {
        self.virtual_scroll_offset + self.virtual_window_size <= usize::MAX
    }

    /// The matching records inside the virtual window, sorted.
    fn get_virtualized_logs(&self) -> (r: Vec<(usize, &'a ResolvedLog)>)
        requires
            self.window_fits(),
        ensures
            same_rows(r@, rows_of(self.logs@, self.arrange_ids(self.window_ids()))),
    {
        let total_count = self.get_total_filtered_count_fast();
        let start_idx = self.virtual_scroll_offset;
        let end_idx = if start_idx + self.virtual_window_size < total_count {
            start_idx + self.virtual_window_size
        } else {
            total_count
        };
        proof {
            self.lemma_matched_props();
        }
        let matched = self.matched_indices();
        let hi = if end_idx < matched.len() {
            end_idx
        } else {
            matched.len()
        };
        let mut window: Vec<usize> = Vec::new();
        if start_idx < total_count && start_idx < hi {
            for k in start_idx..hi
                invariant
                    start_idx <= hi <= matched.len(),
                    window@ == matched@.subrange(start_idx as int, k as int),
            {
                window.push(matched[k]);
                assert(matched@.subrange(start_idx as int, k + 1) =~= matched@.subrange(
                    start_idx as int,
                    k as int,
                ).push(matched@[k as int]));
            }
        }
        assert(window@ == self.window_ids());
        proof {
            let m = self.matched();
            assert(window@.no_duplicates()) by {
                assert forall|i: int, j: int| 0 <= i < window@.len() && 0 <= j < window@.len() && i != j implies window@[i] != window@[j] by {
                    assert(window@[i] == m[start_idx + i]);
                    assert(window@[j] == m[start_idx + j]);
                }
            }
            assert forall|k: int| 0 <= k < window.len() implies #[trigger] window@[k] < self.logs.len() by {
                assert(window@[k] == m[start_idx + k]);
            }
        }
        let sorted = self.arrange(window);
        proof {
            broadcast use vstd::seq_lib::to_multiset_contains;

            assert forall|k: int| 0 <= k < sorted.len() implies #[trigger] sorted@[k] < self.logs.len() by {
                let x = sorted@[k];
                assert(sorted@.contains(x));
                assert(sorted@.to_multiset().count(x) > 0);
                assert(self.window_ids().contains(x));
            }
        }
        self.rows_for(&sorted)
    }

    /// The first `page_size_limit` rows of the current cache, or of the full
    /// result when the cache is missing or stale.
    fn get_cached_filtered_logs(&self) -> (r: Vec<(usize, &ResolvedLog)>)
        ensures
            same_rows(
                r@,
                match self.cached_filtered_logs {
                    Some(c) if self.cache_key@ == self.cache_key_text() => c@.take(
                        min_nat(self.page_size_limit as int, c@.len() as int),
                    ),
                    _ => self.direct_rows().take(
                        min_nat(self.page_size_limit as int, self.direct_rows().len() as int),
                    ),
                },
            ),
    {
        let current_key = self.get_cache_key();
        if let Some(cached) = &self.cached_filtered_logs {
            if chars_eq(&chars_of(self.cache_key.as_str()), &chars_of(current_key.as_str())) {
                let n = if self.page_size_limit < cached.len() {
                    self.page_size_limit
                } else {
                    cached.len()
                };
                let mut r: Vec<(usize, &ResolvedLog)> = Vec::new();
                for k in 0..n
                    invariant
                        n <= cached.len(),
                        r.len() == k,
                        forall|j: int| 0 <= j < k ==> (#[trigger] r@[j]).0 == cached@[j].0 && *r@[j].1 == cached@[j].1,
                {
                    r.push((cached[k].0, &cached[k].1));
                }
                return r;
            }
        }
        let direct = self.compute_filtered_logs_direct();
        let n = if self.page_size_limit < direct.len() {
            self.page_size_limit
        } else {
            direct.len()
        };
        let mut r: Vec<(usize, &ResolvedLog)> = Vec::new();
        for k in 0..n
            invariant
                n <= direct.len(),
                same_rows(direct@, self.direct_rows()),
                r.len() == k,
                forall|j: int| 0 <= j < k ==> (#[trigger] r@[j]).0 == direct@[j].0 && *r@[j].1 == *direct@[j].1,
        {
            r.push(direct[k]);
        }
        r
    }

    /// The rows the table shows (see `visible_rows`).
    pub fn filtered_and_sorted_logs(&self) -> (r: Vec<(usize, &ResolvedLog)>)
        requires
            self.window_fits(),
        ensures
            same_rows(r@, self.visible_rows()),
    {
        if self.logs.len() > 10000 {
            return self.get_virtualized_logs();
        }
        if self.logs.len() > 1000 {
            return self.get_cached_filtered_logs();
        }
        self.compute_filtered_logs_direct()
    }

    /// The number of filtered rows (see `total_fast`).
    pub fn get_total_filtered_count(&self) -> (r: usize)
        ensures
            r == self.total_fast(),
    {
        if self.logs.len() > 10000 {
            return self.get_total_filtered_count_fast();
        }
        if let Some(cached) = &self.cached_filtered_logs {
            cached.len()
        } else {
            proof {
                self.lemma_matched_props();
            }
            self.matched_indices().len()
        }
    }

    /// The number of rows the table shows.
    pub fn get_filtered_count(&self) -> (r: usize)
        requires
            self.window_fits(),
        ensures
            r == self.visible_rows().len(),
    {
        self.filtered_and_sorted_logs().len()
    }
}

} // verus!


verus! {

pub open spec fn sat_sub(a: int, b: int) -> int {
    if a > b {
        a - b
    } else {
        0
    }
}

impl<'a> LogsWidget<'a> {
    /// The widget with a new selected row and virtual window start.
    pub open spec fn with_nav(self, nav: (usize, usize)) -> Self {
        LogsWidget { selected_row: nav.0, virtual_scroll_offset: nav.1, ..self }
    }

    /// The selected row, moved back inside the virtual window.
    pub open spec fn kept_row(self) -> usize {
        if self.selected_row >= self.virtual_window_size {
            sat_sub(self.virtual_window_size as int, 1) as usize
        } else {
            self.selected_row
        }
    }

    /// The last window start: the filtered row count less the window size.
    pub open spec fn max_window_start(self) -> usize {
        sat_sub(self.total_fast() as int, self.virtual_window_size as int) as usize
    }

    /// Selection and window start after moving the window `lines` rows up
    /// (stopping at the first row).
    pub open spec fn scroll_up_nav(self, lines: usize) -> (usize, usize) {
        (self.kept_row(), sat_sub(self.virtual_scroll_offset as int, lines as int) as usize)
    }

    /// Selection and window start after moving the window `lines` rows down
    /// (stopping where the window shows the last filtered row).
    pub open spec fn scroll_down_nav(self, lines: usize) -> (usize, usize) {
        (self.kept_row(), min_nat(self.virtual_scroll_offset + lines, self.max_window_start() as int) as usize)
    }

    /// Selection and window start after moving the cursor one row up.
    pub open spec fn cursor_up_nav(self) -> (usize, usize) {
        if self.selected_row > 0 {
            ((self.selected_row - 1) as usize, self.virtual_scroll_offset)
        } else if self.logs@.len() > 10000 && self.virtual_scroll_offset > 0 {
            self.scroll_up_nav(1)
        } else {
            (self.selected_row, self.virtual_scroll_offset)
        }
    }

    /// Selection and window start after moving the cursor one row down.
    pub open spec fn cursor_down_nav(self) -> (usize, usize) {
        let shown = self.visible_rows().len() as int;
        if self.logs@.len() > 10000 {
            if self.selected_row < sat_sub(shown, 1) {
                ((self.selected_row + 1) as usize, self.virtual_scroll_offset)
            } else if self.virtual_scroll_offset + self.virtual_window_size < self.total_fast() {
                self.scroll_down_nav(1)
            } else {
                (self.selected_row, self.virtual_scroll_offset)
            }
        } else if shown > 0 && self.selected_row < shown - 1 {
            ((self.selected_row + 1) as usize, self.virtual_scroll_offset)
        } else {
            (self.selected_row, self.virtual_scroll_offset)
        }
    }

    /// Selection and window start after moving `lines` rows up.
    pub open spec fn lines_up_nav(self, lines: usize) -> (usize, usize) {
        if self.logs@.len() > 10000 {
            self.scroll_up_nav(lines)
        } else {
            (sat_sub(self.selected_row as int, lines as int) as usize, self.virtual_scroll_offset)
        }
    }

    /// Selection and window start after moving `lines` rows down.
    pub open spec fn lines_down_nav(self, lines: usize) -> (usize, usize) {
        let shown = self.visible_rows().len() as int;
        if self.logs@.len() > 10000 {
            self.scroll_down_nav(lines)
        } else if shown > 0 && self.selected_row < shown - 1 {
            (min_nat(self.selected_row + lines, shown - 1) as usize, self.virtual_scroll_offset)
        } else {
            (self.selected_row, self.virtual_scroll_offset)
        }
    }

    /// Selection and window start after going to the first row.
    pub open spec fn top_nav(self) -> (usize, usize) {
        if self.logs@.len() > 10000 {
            (0, 0)
        } else {
            (0, self.virtual_scroll_offset)
        }
    }

    /// Selection and window start after going to the last row.
    pub open spec fn bottom_nav(self) -> (usize, usize) {
        let shown = self.visible_rows().len() as int;
        if self.logs@.len() > 10000 {
            (sat_sub(self.virtual_window_size as int, 1) as usize, self.max_window_start())
        } else if shown > 0 {
            ((shown - 1) as usize, self.virtual_scroll_offset)
        } else {
            (self.selected_row, self.virtual_scroll_offset)
        }
    }

    /// Selection and window start after a page up.
    pub open spec fn page_up_nav(self) -> (usize, usize) {
        if self.logs@.len() > 10000 {
            self.scroll_up_nav(self.virtual_window_size)
        } else {
            (sat_sub(self.selected_row as int, 10) as usize, self.virtual_scroll_offset)
        }
    }

    /// Selection and window start after a page down.
    pub open spec fn page_down_nav(self) -> (usize, usize) {
        let shown = self.visible_rows().len() as int;
        if self.logs@.len() > 10000 {
            self.scroll_down_nav(self.virtual_window_size)
        } else if shown > 0 {
            (min_nat(self.selected_row + 10, shown - 1) as usize, self.virtual_scroll_offset)
        } else {
            (self.selected_row, self.virtual_scroll_offset)
        }
    }

    fn set_nav(&mut self, nav: (usize, usize))
        ensures
            *final(self) == old(self).with_nav(nav),
    {
        self.selected_row = nav.0;
        self.virtual_scroll_offset = nav.1;
    }

    fn kept_row_exec(&self) -> (r: usize)
        ensures
            r == self.kept_row(),
    {
        if self.selected_row >= self.virtual_window_size {
            if self.virtual_window_size > 0 {
                self.virtual_window_size - 1
            } else {
                0
            }
        } else {
            self.selected_row
        }
    }

    fn max_window_start_exec(&self) -> (r: usize)
        ensures
            r == self.max_window_start(),
    {
        let total_count = self.get_total_filtered_count();
        if total_count > self.virtual_window_size {
            total_count - self.virtual_window_size
        } else {
            0
        }
    }

    fn scroll_up_target(&self, lines: usize) -> (r: (usize, usize))
        ensures
            r == self.scroll_up_nav(lines),
    {
        let start = if self.virtual_scroll_offset >= lines {
            self.virtual_scroll_offset - lines
        } else {
            0
        };
        (self.kept_row_exec(), start)
    }

    fn scroll_down_target(&self, lines: usize) -> (r: (usize, usize))
        requires
            self.virtual_scroll_offset + lines <= usize::MAX,
        ensures
            r == self.scroll_down_nav(lines),
    {
        let max_offset = self.max_window_start_exec();
        let moved = self.virtual_scroll_offset + lines;
        let start = if moved < max_offset {
            moved
        } else {
            max_offset
        };
        (self.kept_row_exec(), start)
    }

    /// Moves the virtual window `lines` rows up.
    pub fn scroll_up(&mut self, lines: usize)
        ensures
            *final(self) == old(self).with_nav(old(self).scroll_up_nav(lines)),
    {
        let nav = self.scroll_up_target(lines);
        self.set_nav(nav);
    }

    /// Moves the virtual window `lines` rows down.
    pub fn scroll_down(&mut self, lines: usize)
        requires
            old(self).virtual_scroll_offset + lines <= usize::MAX,
        ensures
            *final(self) == old(self).with_nav(old(self).scroll_down_nav(lines)),
    {
        let nav = self.scroll_down_target(lines);
        self.set_nav(nav);
    }

    /// Goes back to the first row of the filtered data.
    pub fn scroll_to_top(&mut self)
        ensures
            *final(self) == old(self).with_nav((0, 0)),
    {
        self.set_nav((0, 0));
    }

    /// Shows the last window of filtered rows and selects its last row.
    pub fn scroll_to_bottom(&mut self)
        ensures
            *final(self) == old(self).with_nav(
                (sat_sub(old(self).virtual_window_size as int, 1) as usize, old(self).max_window_start()),
            ),
    {
        let start = self.max_window_start_exec();
        let row = if self.virtual_window_size > 0 {
            self.virtual_window_size - 1
        } else {
            0
        };
        self.set_nav((row, start));
    }

    fn cursor_up_target(&self) -> (r: (usize, usize))
        ensures
            r == self.cursor_up_nav(),
    {
        if self.selected_row > 0 {
            (self.selected_row - 1, self.virtual_scroll_offset)
        } else if self.logs.len() > 10000 && self.virtual_scroll_offset > 0 {
            self.scroll_up_target(1)
        } else {
            (self.selected_row, self.virtual_scroll_offset)
        }
    }

    fn cursor_down_target(&self) -> (r: (usize, usize))
        requires
            self.window_fits(),
        ensures
            r == self.cursor_down_nav(),
    {
        let shown = self.filtered_and_sorted_logs().len();
        if self.logs.len() > 10000 {
            let last = if shown > 0 {
                shown - 1
            } else {
                0
            };
            if self.selected_row < last {
                (self.selected_row + 1, self.virtual_scroll_offset)
            } else {
                let total_count = self.get_total_filtered_count();
                if self.virtual_scroll_offset + self.virtual_window_size < total_count {
                    self.scroll_down_target(1)
                } else {
                    (self.selected_row, self.virtual_scroll_offset)
                }
            }
        } else if shown > 0 && self.selected_row < shown - 1 {
            (self.selected_row + 1, self.virtual_scroll_offset)
        } else {
            (self.selected_row, self.virtual_scroll_offset)
        }
    }

    /// Moves the cursor one row up; with more than 10000 records, scrolls the
    /// window when the cursor is on its first row.
    pub fn move_cursor_up(&mut self)
        ensures
            *final(self) == old(self).with_nav(old(self).cursor_up_nav()),
    {
        let nav = self.cursor_up_target();
        self.set_nav(nav);
    }

    /// Moves the cursor one row down; with more than 10000 records, scrolls
    /// the window when the cursor is on its last row.
    pub fn move_cursor_down(&mut self)
        requires
            old(self).window_fits(),
        ensures
            *final(self) == old(self).with_nav(old(self).cursor_down_nav()),
    {
        let nav = self.cursor_down_target();
        self.set_nav(nav);
    }

    fn lines_up_target(&self, lines: usize) -> (r: (usize, usize))
        ensures
            r == self.lines_up_nav(lines),
    {
        if self.logs.len() > 10000 {
            self.scroll_up_target(lines)
        } else {
            let row = if self.selected_row > lines {
                self.selected_row - lines
            } else {
                0
            };
            (row, self.virtual_scroll_offset)
        }
    }

    fn lines_down_target(&self, lines: usize) -> (r: (usize, usize))
        requires
            self.window_fits(),
            self.virtual_scroll_offset + lines <= usize::MAX,
        ensures
            r == self.lines_down_nav(lines),
    {
        if self.logs.len() > 10000 {
            self.scroll_down_target(lines)
        } else {
            let shown = self.filtered_and_sorted_logs().len();
            if shown > 0 && self.selected_row < shown - 1 {
                let last = shown - 1;
                let row = if lines >= last - self.selected_row {
                    last
                } else {
                    self.selected_row + lines
                };
                (row, self.virtual_scroll_offset)
            } else {
                (self.selected_row, self.virtual_scroll_offset)
            }
        }
    }

    fn top_target(&self) -> (r: (usize, usize))
        ensures
            r == self.top_nav(),
    {
        if self.logs.len() > 10000 {
            (0, 0)
        } else {
            (0, self.virtual_scroll_offset)
        }
    }

    fn bottom_target(&self) -> (r: (usize, usize))
        requires
            self.window_fits(),
        ensures
            r == self.bottom_nav(),
    {
        if self.logs.len() > 10000 {
            let row = if self.virtual_window_size > 0 {
                self.virtual_window_size - 1
            } else {
                0
            };
            (row, self.max_window_start_exec())
        } else {
            let shown = self.filtered_and_sorted_logs().len();
            if shown > 0 {
                (shown - 1, self.virtual_scroll_offset)
            } else {
                (self.selected_row, self.virtual_scroll_offset)
            }
        }
    }

    fn page_up_target(&self) -> (r: (usize, usize))
        ensures
            r == self.page_up_nav(),
    {
        if self.logs.len() > 10000 {
            self.scroll_up_target(self.virtual_window_size)
        } else {
            let row = if self.selected_row > 10 {
                self.selected_row - 10
            } else {
                0
            };
            (row, self.virtual_scroll_offset)
        }
    }

    fn page_down_target(&self) -> (r: (usize, usize))
        requires
            self.window_fits(),
            self.logs@.len() <= 10000 ==> self.selected_row + 10 <= usize::MAX,
        ensures
            r == self.page_down_nav(),
    {
        if self.logs.len() > 10000 {
            self.scroll_down_target(self.virtual_window_size)
        } else {
            let shown = self.filtered_and_sorted_logs().len();
            if shown > 0 {
                let moved = self.selected_row + 10;
                let row = if moved < shown - 1 {
                    moved
                } else {
                    shown - 1
                };
                (row, self.virtual_scroll_offset)
            } else {
                (self.selected_row, self.virtual_scroll_offset)
            }
        }
    }

    /// Moves `lines` rows up: the window for more than 10000 records, the
    /// cursor otherwise.
    pub fn virtual_scroll_up(&mut self, lines: usize)
        ensures
            *final(self) == old(self).with_nav(old(self).lines_up_nav(lines)),
    {
        let nav = self.lines_up_target(lines);
        self.set_nav(nav);
    }

    /// Moves `lines` rows down: the window for more than 10000 records, the
    /// cursor otherwise (stopping at the last row).
    pub fn virtual_scroll_down(&mut self, lines: usize)
        requires
            old(self).window_fits(),
            old(self).virtual_scroll_offset + lines <= usize::MAX,
        ensures
            *final(self) == old(self).with_nav(old(self).lines_down_nav(lines)),
    {
        let nav = self.lines_down_target(lines);
        self.set_nav(nav);
    }

    pub fn go_to_top(&mut self)
        ensures
            *final(self) == old(self).with_nav(old(self).top_nav()),
    {
        let nav = self.top_target();
        self.set_nav(nav);
    }

    pub fn go_to_bottom(&mut self)
        requires
            old(self).window_fits(),
        ensures
            *final(self) == old(self).with_nav(old(self).bottom_nav()),
    {
        let nav = self.bottom_target();
        self.set_nav(nav);
    }

    pub fn page_up(&mut self)
        ensures
            *final(self) == old(self).with_nav(old(self).page_up_nav()),
    {
        let nav = self.page_up_target();
        self.set_nav(nav);
    }

    pub fn page_down(&mut self)
        requires
            old(self).window_fits(),
            old(self).logs@.len() <= 10000 ==> old(self).selected_row + 10 <= usize::MAX,
        ensures
            *final(self) == old(self).with_nav(old(self).page_down_nav()),
    {
        let nav = self.page_down_target();
        self.set_nav(nav);
    }

    /// The first shown row (counting from 1), the last shown row and the
    /// number of filtered rows.
    pub fn get_virtual_scroll_info(&self) -> (r: (usize, usize, usize))
        requires
            self.window_fits(),
            self.virtual_scroll_offset < usize::MAX,
        ensures
            r.0 == self.virtual_scroll_offset + 1,
            r.1 == min_nat(self.virtual_scroll_offset + self.virtual_window_size, self.total_fast() as int),
            r.2 == self.total_fast(),
    {
        let total_count = self.get_total_filtered_count();
        let visible_start = self.virtual_scroll_offset + 1;
        let end = self.virtual_scroll_offset + self.virtual_window_size;
        let visible_end = if end < total_count {
            end
        } else {
            total_count
        };
        (visible_start, visible_end, total_count)
    }
}

} // verus!

verus! {

/// `post` is `pre` with its filtered-rows cache brought up to date: for more
/// than 1000 records and a stale key, the cache holds every matching record
/// in table order under the current key; otherwise nothing changes.
pub open spec fn refreshed<'a>(pre: LogsWidget<'a>, post: LogsWidget<'a>) -> bool {
    if pre.logs@.len() <= 1000 || pre.cache_key@ == pre.cache_key_text() {
        post == pre
    } else {
        &&& post == (LogsWidget {
            cached_filtered_logs: post.cached_filtered_logs,
            cache_key: post.cache_key,
            processing_heavy_operation: false,
            ..pre
        })
        &&& post.cached_filtered_logs matches Some(c) && c@ == pre.direct_rows()
        &&& post.cache_key@ == pre.cache_key_text()
    }
}

impl<'a> LogsWidget<'a> {
    fn store_cache(&mut self, rows: Vec<(usize, ResolvedLog)>, key: String)
        ensures
            *final(self) == (LogsWidget {
                cached_filtered_logs: Some(rows),
                cache_key: key,
                processing_heavy_operation: false,
                ..*old(self)
            }),
    {
        self.cached_filtered_logs = Some(rows);
        self.cache_key = key;
        self.processing_heavy_operation = false;
    }

    /// The rows and key to cache, when the cache is to be refreshed.
    fn cache_refresh(&self) -> (r: Option<(Vec<(usize, ResolvedLog)>, String)>)
        ensures
            (self.logs@.len() <= 1000 || self.cache_key@ == self.cache_key_text()) <==> r is None,
            r matches Some(p) ==> p.0@ == self.direct_rows() && p.1@ == self.cache_key_text(),
    {
        if self.logs.len() <= 1000 {
            return None;
        }
        let current_key = self.get_cache_key();
        if chars_eq(&chars_of(self.cache_key.as_str()), &chars_of(current_key.as_str())) {
            return None;
        }
        let direct = self.compute_filtered_logs_direct();
        let mut rows: Vec<(usize, ResolvedLog)> = Vec::new();
        for k in 0..direct.len()
            invariant
                same_rows(direct@, self.direct_rows()),
                rows.len() == k,
                forall|j: int| 0 <= j < k ==> #[trigger] rows@[j] == self.direct_rows()[j],
        {
            let (i, ev) = direct[k];
            rows.push((i, ev.clone()));
        }
        assert(rows@ =~= self.direct_rows());
        Some((rows, current_key))
    }

    /// Brings the filtered-rows cache up to date (only for more than 1000
    /// records; see `refreshed`).
    pub fn update_cache(&mut self)
        ensures
            refreshed(*old(self), *final(self)),
    {
        let refresh = self.cache_refresh();
        if let Some((rows, key)) = refresh {
            self.store_cache(rows, key);
        }
    }

    fn set_query_and_refresh(&mut self, query: String)
        ensures
            refreshed(LogsWidget { search_query: query, ..*old(self) }, *final(self)),
    {
        self.search_query = query;
        self.update_cache();
    }

    /// Replaces the search text; a new text refreshes the cache.
    pub fn set_search_query(&mut self, query: String)
        ensures
            old(self).search_query@ == query@ ==> *final(self) == *old(self),
            old(self).search_query@ != query@ ==> refreshed(LogsWidget { search_query: query, ..*old(self) }, *final(self)),
    {
        if !chars_eq(&chars_of(self.search_query.as_str()), &chars_of(query.as_str())) {
            self.set_query_and_refresh(query);
        }
    }

    /// Drops the cache and goes back to the first row.
    pub fn clear_cache(&mut self)
        ensures
            *final(self) == (LogsWidget {
                cached_filtered_logs: None,
                cache_key: final(self).cache_key,
                processing_heavy_operation: false,
                virtual_scroll_offset: 0,
                selected_row: 0,
                ..*old(self)
            }),
            final(self).cache_key@ == Seq::<char>::empty(),
    {
        self.cached_filtered_logs = None;
        self.cache_key = String::new();
        self.processing_heavy_operation = false;
        self.virtual_scroll_offset = 0;
        self.selected_row = 0;
    }

    fn clear_filters_only(&mut self)
        ensures
            *final(self) == (LogsWidget { level_filter: None, search_query: final(self).search_query, ..*old(self) }),
            final(self).search_query@ == Seq::<char>::empty(),
    {
        self.level_filter = None;
        self.search_query = String::new();
    }

    /// Removes the level filter and the search text, then refreshes the cache.
    pub fn clear_all_filters(&mut self)
        ensures
            final(self).level_filter is None,
            final(self).search_query@ == Seq::<char>::empty(),
            refreshed(
                LogsWidget { level_filter: None, search_query: final(self).search_query, ..*old(self) },
                *final(self),
            ),
    {
        self.clear_filters_only();
        self.update_cache();
    }

    /// Sets how many rows the cached path shows (at least 10) and drops the
    /// cache.
    pub fn set_page_size_limit(&mut self, limit: usize)
        ensures
            *final(self) == (LogsWidget {
                page_size_limit: if limit > 10 { limit } else { 10 },
                cached_filtered_logs: None,
                cache_key: final(self).cache_key,
                processing_heavy_operation: false,
                virtual_scroll_offset: 0,
                selected_row: 0,
                ..*old(self)
            }),
            final(self).cache_key@ == Seq::<char>::empty(),
    {
        self.page_size_limit = if limit > 10 {
            limit
        } else {
            10
        };
        self.clear_cache();
    }
}

} // verus!

verus! {

impl<'a> LogsWidget<'a> {
    /// A widget over `logs`: loading while there are no records, sorted by
    /// time (newest first), showing 20 rows per window and 100 rows from the
    /// cached path, and treating 100 records or fewer as a sample.
    pub fn new(logs: &'a Vec<ResolvedLog>) -> (r: Self)
        ensures
            r.id == 1,
            r.title@ == "~ System Logs ~──"@,
            r.logs == logs,
            r.view_state == ViewState::Normal,
            !r.focused,
            !r.paused,
            r.is_loading == (logs.len() == 0),
            r.has_data == (logs.len() != 0),
            r.error_message is None,
            r.selected_row == 0,
            r.scroll_offset == 0,
            r.search_query@ == Seq::<char>::empty(),
            r.level_filter is None,
            r.sort_by == SortBy::Time,
            r.sort_order == SortOrder::Descending,
            r.show_timestamps,
            r.show_levels,
            !r.show_line_numbers,
            !r.wrap_lines,
            !r.follow_tail,
            r.auto_scroll,
            r.bookmarks@ == Seq::<usize>::empty(),
            r.area is None,
            r.table_state.selected == Some(0usize),
            r.page_size == 20,
            !r.processing_heavy_operation,
            r.cached_filtered_logs is None,
            r.cache_key@ == Seq::<char>::empty(),
            r.page_size_limit == 100,
            r.virtual_scroll_offset == 0,
            r.virtual_window_size == 20,
            r.total_filtered_count == 0,
            r.is_sample_data == (logs.len() <= 100),
            !r.full_data_loading,
            !r.load_more_requested,
    {
        let has_data = logs.len() != 0;
        let is_loading = logs.len() == 0;
        let mut table_state = TableState::new();
        table_state.select(Some(0));
        LogsWidget {
            id: 1,
            title: "~ System Logs ~──",
            logs,
            view_state: ViewState::Normal,
            focused: false,
            paused: false,
            is_loading,
            has_data,
            error_message: None,
            selected_row: 0,
            scroll_offset: 0,
            search_query: String::new(),
            level_filter: None,
            sort_by: SortBy::Time,
            sort_order: SortOrder::Descending,
            show_timestamps: true,
            show_levels: true,
            show_line_numbers: false,
            wrap_lines: false,
            follow_tail: false,
            auto_scroll: true,
            bookmarks: Vec::new(),
            area: None,
            table_state,
            page_size: 20,
            processing_heavy_operation: false,
            cached_filtered_logs: None,
            cache_key: String::new(),
            page_size_limit: 100,
            virtual_scroll_offset: 0,
            virtual_window_size: 20,
            total_filtered_count: 0,
            is_sample_data: logs.len() <= 100,
            full_data_loading: false,
            load_more_requested: false,
        }
    }

    fn replace_logs(&mut self, new_logs: &'a Vec<ResolvedLog>)
        ensures
            *final(self) == (LogsWidget {
                logs: new_logs,
                has_data: new_logs.len() != 0,
                is_loading: false,
                error_message: None,
                ..*old(self)
            }),
    {
        self.logs = new_logs;
        self.has_data = new_logs.len() != 0;
        self.is_loading = false;
        self.error_message = None;
    }

    fn select_first_if_data(&mut self)
        ensures
            *final(self) == (LogsWidget {
                table_state: if old(self).has_data {
                    TableState { selected: Some(0usize) }
                } else {
                    old(self).table_state
                },
                ..*old(self)
            }),
    {
        if self.has_data {
            self.table_state.select(Some(0));
        }
    }

    /// Shows newly loaded records: clears loading and error, drops the cache
    /// (back to the first row) and selects the first table row when there is
    /// data.
    pub fn update_logs(&mut self, new_logs: &'a Vec<ResolvedLog>)
        ensures
            final(self).logs == new_logs,
            final(self).has_data == (new_logs.len() != 0),
            !final(self).is_loading,
            final(self).error_message is None,
            final(self).cached_filtered_logs is None,
            final(self).cache_key@ == Seq::<char>::empty(),
            !final(self).processing_heavy_operation,
            final(self).virtual_scroll_offset == 0,
            final(self).selected_row == 0,
            new_logs.len() != 0 ==> final(self).table_state.selected == Some(0usize),
            new_logs.len() == 0 ==> final(self).table_state == old(self).table_state,
            *final(self) == (LogsWidget {
                logs: new_logs,
                has_data: new_logs.len() != 0,
                is_loading: false,
                error_message: None,
                cached_filtered_logs: None,
                cache_key: final(self).cache_key,
                processing_heavy_operation: false,
                virtual_scroll_offset: 0,
                selected_row: 0,
                table_state: final(self).table_state,
                ..*old(self)
            }),
    {
        self.replace_logs(new_logs);
        self.clear_cache();
        self.select_first_if_data();
    }

    /// Marks the widget loading (or not); starting to load clears the error.
    pub fn set_loading_state(&mut self, loading: bool)
        ensures
            *final(self) == (LogsWidget {
                is_loading: loading,
                error_message: if loading { None } else { old(self).error_message },
                ..*old(self)
            }),
    {
        let err = if loading {
            None
        } else {
            self.error_message.take()
        };
        self.is_loading = loading;
        self.error_message = err;
    }

    /// Shows an error: no longer loading and no data.
    pub fn set_error_state(&mut self, error: String)
        ensures
            *final(self) == (LogsWidget {
                is_loading: false,
                has_data: false,
                error_message: Some(error),
                ..*old(self)
            }),
    {
        self.is_loading = false;
        self.has_data = false;
        self.error_message = Some(error);
    }

    /// The widget over other records, focused.
    pub fn with_events(self, logs: &'a Vec<ResolvedLog>) -> (r: Self)
        ensures
            r == (LogsWidget { logs: logs, focused: true, ..self }),
    {
        let mut w = self;
        w.logs = logs;
        w.focused = true;
        w
    }

    /// Busy with a heavy operation or loading.
    pub fn is_processing(&self) -> (r: bool)
        ensures
            r == (self.processing_heavy_operation || self.is_loading),
    {
        self.processing_heavy_operation || self.is_loading
    }

    /// Asks for the full data set when only a sample is shown and no full
    /// load is under way.
    pub fn request_full_data_load(&mut self)
        ensures
            *final(self) == (if old(self).is_sample_data && !old(self).full_data_loading {
                LogsWidget { load_more_requested: true, full_data_loading: true, ..*old(self) }
            } else {
                *old(self)
            }),
    {
        let start = self.is_sample_data && !self.full_data_loading;
        let requested = start || self.load_more_requested;
        let loading = start || self.full_data_loading;
        self.load_more_requested = requested;
        self.full_data_loading = loading;
    }

    /// A full load was asked for and nothing is loading.
    pub fn should_load_full_data(&self) -> (r: bool)
        ensures
            r == (self.load_more_requested && !self.is_loading),
    {
        self.load_more_requested && !self.is_loading
    }

    fn mark_full_data_flags(&mut self)
        ensures
            *final(self) == (LogsWidget {
                is_sample_data: false,
                full_data_loading: false,
                load_more_requested: false,
                ..*old(self)
            }),
    {
        self.is_sample_data = false;
        self.full_data_loading = false;
        self.load_more_requested = false;
    }

    /// The full data set is shown: no longer a sample, no load pending, and
    /// the cache dropped.
    pub fn mark_full_data_needed(&mut self)
        ensures
            *final(self) == (LogsWidget {
                is_sample_data: false,
                full_data_loading: false,
                load_more_requested: false,
                cached_filtered_logs: None,
                cache_key: final(self).cache_key,
                processing_heavy_operation: false,
                virtual_scroll_offset: 0,
                selected_row: 0,
                ..*old(self)
            }),
            final(self).cache_key@ == Seq::<char>::empty(),
    {
        self.mark_full_data_flags();
        self.clear_cache();
    }
}

} // verus!

verus! {

impl<'a> LogsWidget<'a> {
    /// The status line's text.
    pub open spec fn status_text(self) -> Seq<char> {
        if self.is_loading {
            "Loading logs..."@
        } else if self.processing_heavy_operation {
            "Processing..."@
        } else if self.full_data_loading {
            "Loading full dataset in background..."@
        } else if !self.has_data {
            "No data available"@
        } else if self.error_message is Some {
            "Error: "@ + self.error_message->0@
        } else {
            let shown = self.visible_rows().len();
            let total = self.logs@.len();
            let status = if shown != total {
                crate::text::decimal(shown) + " of "@ + crate::text::decimal(total) + " logs"@
            } else {
                crate::text::decimal(total) + " logs"@
            };
            if self.is_sample_data {
                status + " (sample - press 'L' to load all)"@
            } else {
                status
            }
        }
    }

    /// The status line: loading, busy, empty or error states, otherwise how
    /// many rows are shown out of how many records.
    pub fn get_status_text(&mut self) -> (r: String)
        requires
            old(self).window_fits(),
        ensures
            *final(self) == *old(self),
            r@ == old(self).status_text(),
    {
        self.status_line()
    }

    fn status_line(&self) -> (r: String)
        requires
            self.window_fits(),
        ensures
            r@ == self.status_text(),
    {
        if self.is_loading {
            String::from_str("Loading logs...")
        } else if self.processing_heavy_operation {
            String::from_str("Processing...")
        } else if self.full_data_loading {
            String::from_str("Loading full dataset in background...")
        } else if !self.has_data {
            String::from_str("No data available")
        } else if let Some(error) = &self.error_message {
            let mut s = String::from_str("Error: ");
            crate::text::push_str_chars(&mut s, error.as_str());
            s
        } else {
            let filtered_count = self.get_filtered_count();
            let total_count = self.logs.len();
            let mut status = String::new();
            if filtered_count != total_count {
                crate::text::push_decimal(&mut status, filtered_count as u64);
                crate::text::push_str_chars(&mut status, " of ");
                crate::text::push_decimal(&mut status, total_count as u64);
                crate::text::push_str_chars(&mut status, " logs");
            } else {
                crate::text::push_decimal(&mut status, total_count as u64);
                crate::text::push_str_chars(&mut status, " logs");
            }
            if self.is_sample_data {
                crate::text::push_str_chars(&mut status, " (sample - press 'L' to load all)");
            }
            status
        }
    }

    /// The arrow shown next to the sorted column's header.
    pub fn get_sort_indicator(&self, column: SortBy) -> (r: &'static str)
        ensures
            r@ == (if self.sort_by == column {
                match self.sort_order {
                    SortOrder::Ascending => "↑"@,
                    SortOrder::Descending => "↓"@,
                }
            } else {
                ""@
            }),
    {
        if self.sort_by == column {
            match self.sort_order {
                SortOrder::Ascending => "↑",
                SortOrder::Descending => "↓",
            }
        } else {
            ""
        }
    }

    /// The symbols for the active view options, in display order: paused,
    /// auto-scroll, follow tail, wrapped lines, line numbers, bookmarks.
    pub fn get_status_indicators(&self) -> (r: Vec<&'static str>)
        ensures
            r@.map_values(|s: &str| s@) == (if self.paused { seq!["⏸"@] } else { Seq::empty() })
                + (if self.auto_scroll { seq!["📜"@] } else { Seq::empty() })
                + (if self.follow_tail { seq!["👁"@] } else { Seq::empty() })
                + (if self.wrap_lines { seq!["↩"@] } else { Seq::empty() })
                + (if self.show_line_numbers { seq!["#"@] } else { Seq::empty() })
                + (if self.bookmarks.len() != 0 { seq!["🔖"@] } else { Seq::empty() }),
    {
        let mut indicators: Vec<&'static str> = Vec::new();
        if self.paused {
            indicators.push("⏸");
        }
        if self.auto_scroll {
            indicators.push("📜");
        }
        if self.follow_tail {
            indicators.push("👁");
        }
        if self.wrap_lines {
            indicators.push("↩");
        }
        if self.show_line_numbers {
            indicators.push("#");
        }
        if self.bookmarks.len() != 0 {
            indicators.push("🔖");
        }
        assert(indicators@.map_values(|s: &str| s@) =~= (if self.paused { seq!["⏸"@] } else { Seq::empty() })
            + (if self.auto_scroll { seq!["📜"@] } else { Seq::empty() })
            + (if self.follow_tail { seq!["👁"@] } else { Seq::empty() })
            + (if self.wrap_lines { seq!["↩"@] } else { Seq::empty() })
            + (if self.show_line_numbers { seq!["#"@] } else { Seq::empty() })
            + (if self.bookmarks.len() != 0 { seq!["🔖"@] } else { Seq::empty() }));
        indicators
    }

    /// Column widths: line numbers (6), timestamps (20) and levels (7) when
    /// shown, then thread (6), message (at least 20) and target (15).
    pub fn build_table_constraints(&self) -> (r: Vec<Constraint>)
        ensures
            r@ == (if self.show_line_numbers { seq![Constraint::Length(6)] } else { Seq::empty() })
                + (if self.show_timestamps { seq![Constraint::Length(20)] } else { Seq::empty() })
                + (if self.show_levels { seq![Constraint::Length(7)] } else { Seq::empty() })
                + seq![Constraint::Length(6), Constraint::Min(20), Constraint::Length(15)],
    {
        let mut constraints: Vec<Constraint> = Vec::new();
        if self.show_line_numbers {
            constraints.push(Constraint::Length(6));
        }
        if self.show_timestamps {
            constraints.push(Constraint::Length(20));
        }
        if self.show_levels {
            constraints.push(Constraint::Length(7));
        }
        constraints.push(Constraint::Length(6));
        constraints.push(Constraint::Min(20));
        constraints.push(Constraint::Length(15));
        assert(constraints@ =~= (if self.show_line_numbers { seq![Constraint::Length(6)] } else { Seq::empty() })
            + (if self.show_timestamps { seq![Constraint::Length(20)] } else { Seq::empty() })
            + (if self.show_levels { seq![Constraint::Length(7)] } else { Seq::empty() })
            + seq![Constraint::Length(6), Constraint::Min(20), Constraint::Length(15)]);
        constraints
    }
}

} // verus!

verus! {

/// The index of the first `x` in `s`.
pub open spec fn first_index(s: Seq<usize>, x: usize) -> int
    decreases s.len(),
{
    if s.len() == 0 {
        0
    } else if s[0] == x {
        0
    } else {
        1 + first_index(s.drop_first(), x)
    }
}

pub proof fn lemma_first_index(s: Seq<usize>, x: usize)
    requires
        s.contains(x),
    ensures
        0 <= first_index(s, x) < s.len(),
        s[first_index(s, x)] == x,
        forall|k: int| 0 <= k < first_index(s, x) ==> s[k] != x,
    decreases s.len(),
{
    if s[0] != x {
        let k = choose|k: int| 0 <= k < s.len() && s[k] == x;
        assert(s.drop_first()[k - 1] == x);
        lemma_first_index(s.drop_first(), x);
        assert forall|j: int| 0 <= j < first_index(s, x) implies s[j] != x by {
            if j > 0 {
                assert(s[j] == s.drop_first()[j - 1]);
            }
        }
    }
}

/// The bookmark list with `x` removed (its first occurrence) when present,
/// added at the end otherwise.
pub open spec fn toggled(marks: Seq<usize>, x: usize) -> Seq<usize> {
    if marks.contains(x) {
        marks.remove(first_index(marks, x))
    } else {
        marks.push(x)
    }
}

/// The first row at or after `from` whose record is bookmarked.
pub open spec fn first_marked(ids: Seq<usize>, marks: Seq<usize>, from: int) -> Option<int>
    decreases ids.len() - from,
{
    if from < 0 || from >= ids.len() {
        None
    } else if marks.contains(ids[from]) {
        Some(from)
    } else {
        first_marked(ids, marks, from + 1)
    }
}

/// The level filter that follows `f`: none, ERROR, WARN, INFO, DEBUG,
/// TRACE, FATAL, then none again (any other text goes back to none).
pub open spec fn next_level_filter(f: Option<Seq<char>>) -> Option<Seq<char>> {
    match f {
        None => Some("ERROR"@),
        Some(t) => if t == "ERROR"@ {
            Some("WARN"@)
        } else if t == "WARN"@ {
            Some("INFO"@)
        } else if t == "INFO"@ {
            Some("DEBUG"@)
        } else if t == "DEBUG"@ {
            Some("TRACE"@)
        } else if t == "TRACE"@ {
            Some("FATAL"@)
        } else {
            None
        },
    }
}

pub open spec fn next_sort_by(s: SortBy) -> SortBy {
    match s {
        SortBy::Time => SortBy::Level,
        SortBy::Level => SortBy::Message,
        SortBy::Message => SortBy::Time,
    }
}

pub open spec fn flipped(o: SortOrder) -> SortOrder {
    match o {
        SortOrder::Ascending => SortOrder::Descending,
        SortOrder::Descending => SortOrder::Ascending,
    }
}

fn literal_is(s: &Vec<char>, lit: &str) -> (r: bool)
    ensures
        r == (s@ == lit@),
{
    chars_eq(s, &chars_of(lit))
}

impl<'a> LogsWidget<'a> {
    /// The record indices of the shown rows.
    pub open spec fn visible_ids(self) -> Seq<usize> {
        self.visible_rows().map_values(|r: (usize, ResolvedLog)| r.0)
    }

    /// Where jumping to the next bookmark puts the cursor: the first
    /// bookmarked row after the cursor, else the first bookmarked row.
    pub open spec fn next_bookmark_row(self) -> Option<int> {
        if self.bookmarks@.len() == 0 {
            None
        } else {
            match first_marked(self.visible_ids(), self.bookmarks@, self.selected_row + 1) {
                Some(i) => Some(i),
                None => first_marked(self.visible_ids(), self.bookmarks@, 0),
            }
        }
    }

    fn set_bookmarks(&mut self, marks: Vec<usize>)
        ensures
            *final(self) == (LogsWidget { bookmarks: marks, ..*old(self) }),
    {
        self.bookmarks = marks;
    }

    /// The bookmark list after toggling the record under the cursor.
    fn toggled_bookmarks(&self) -> (r: Vec<usize>)
        requires
            self.window_fits(),
        ensures
            r@ == (if self.selected_row < self.visible_rows().len() {
                toggled(self.bookmarks@, self.visible_rows()[self.selected_row as int].0)
            } else {
                self.bookmarks@
            }),
    {
        let target = {
            let logs = self.filtered_and_sorted_logs();
            if self.selected_row < logs.len() {
                Some(logs[self.selected_row].0)
            } else {
                None
            }
        };
        let mut marks = self.bookmarks.clone();
        assert(marks@ =~= self.bookmarks@);
        if let Some(x) = target {
            let mut pos: usize = 0;
            while pos < marks.len() && marks[pos] != x
                invariant
                    pos <= marks.len(),
                    forall|k: int| 0 <= k < pos ==> marks@[k] != x,
                decreases marks.len() - pos,
            {
                pos = pos + 1;
            }
            proof {
                if marks@.contains(x) {
                    lemma_first_index(marks@, x);
                    let f = first_index(marks@, x);
                    assert(pos == f) by {
                        if pos < f {
                            assert(marks@[pos as int] != x);
                        }
                    }
                }
            }
            if pos < marks.len() {
                marks.remove(pos);
            } else {
                marks.push(x);
            }
        }
        marks
    }

    /// Bookmarks the record under the cursor, or removes its bookmark.
    pub fn toggle_bookmark(&mut self)
        requires
            old(self).window_fits(),
        ensures
            *final(self) == (LogsWidget { bookmarks: final(self).bookmarks, ..*old(self) }),
            final(self).bookmarks@ == (if old(self).selected_row < old(self).visible_rows().len() {
                toggled(old(self).bookmarks@, old(self).visible_rows()[old(self).selected_row as int].0)
            } else {
                old(self).bookmarks@
            }),
    {
        let marks = self.toggled_bookmarks();
        self.set_bookmarks(marks);
    }

    /// The row the cursor jumps to (see `next_bookmark_row`).
    fn next_bookmark_target(&self) -> (r: Option<usize>)
        requires
            self.window_fits(),
        ensures
            r == (match self.next_bookmark_row() {
                Some(i) => Some(i as usize),
                None => None,
            }),
    {
        if self.bookmarks.len() == 0 {
            return None;
        }
        let ids = {
            let rows = self.filtered_and_sorted_logs();
            let mut ids: Vec<usize> = Vec::new();
            for k in 0..rows.len()
                invariant
                    same_rows(rows@, self.visible_rows()),
                    ids.len() == k,
                    forall|j: int| 0 <= j < k ==> #[trigger] ids@[j] == self.visible_rows()[j].0,
            {
                ids.push(rows[k].0);
            }
            assert(ids@ =~= self.visible_ids());
            ids
        };
        let after = if self.selected_row < usize::MAX {
            find_marked(&ids, &self.bookmarks, self.selected_row + 1)
        } else {
            None
        };
        match after {
            Some(i) => Some(i),
            None => find_marked(&ids, &self.bookmarks, 0),
        }
    }

    fn select_row_if(&mut self, target: Option<usize>)
        ensures
            *final(self) == (match target {
                Some(i) => LogsWidget { selected_row: i, ..*old(self) },
                None => *old(self),
            }),
    {
        if let Some(i) = target {
            self.selected_row = i;
        }
    }

    /// Moves the cursor to the next bookmarked row (see `next_bookmark_row`).
    pub fn jump_to_next_bookmark(&mut self)
        requires
            old(self).window_fits(),
        ensures
            *final(self) == (match old(self).next_bookmark_row() {
                Some(i) => LogsWidget { selected_row: i as usize, ..*old(self) },
                None => *old(self),
            }),
    {
        let target = self.next_bookmark_target();
        self.select_row_if(target);
    }
}

pub(crate) fn contains_value(v: &Vec<usize>, x: usize) -> (r: bool)
    ensures
        r == v@.contains(x),
{
    for k in 0..v.len()
        invariant
            forall|j: int| 0 <= j < k ==> v@[j] != x,
    {
        if v[k] == x {
            return true;
        }
    }
    false
}

pub(crate) fn find_marked(ids: &Vec<usize>, marks: &Vec<usize>, from: usize) -> (r: Option<usize>)
    ensures
        r == (match first_marked(ids@, marks@, from as int) {
            Some(i) => Some(i as usize),
            None => None,
        }),
        r matches Some(i) ==> i < ids.len(),
{
    let mut i = from;
    while i < ids.len()
        invariant
            from <= i,
            first_marked(ids@, marks@, from as int) == first_marked(ids@, marks@, i as int),
        decreases ids.len() - i,
    {
        if contains_value(marks, ids[i]) {
            return Some(i);
        }
        i = i + 1;
    }
    None
}

} // verus!

verus! {

/// The scroll offset of the detail popup after a key.
pub open spec fn popup_offset_after(offset: u16, key: KeyCode, content_height: Option<u16>) -> u16 {
    match key {
        KeyCode::Esc | KeyCode::Home => 0,
        KeyCode::Up | KeyCode::Char('k') => sat_sub(offset as int, 1) as u16,
        KeyCode::Down | KeyCode::Char('j') => min_nat(offset + 1, u16::MAX as int) as u16,
        KeyCode::PageUp => sat_sub(offset as int, 10) as u16,
        KeyCode::PageDown => min_nat(offset + 10, u16::MAX as int) as u16,
        KeyCode::End => match content_height {
            Some(h) => sat_sub(h as int, 1) as u16,
            None => offset,
        },
        _ => offset,
    }
}

fn popup_offset_exec(offset: u16, key: KeyCode, content_height: Option<u16>) -> (r: u16)
    ensures
        r == popup_offset_after(offset, key, content_height),
{
    match key {
        KeyCode::Esc | KeyCode::Home => 0,
        KeyCode::Up | KeyCode::Char('k') => offset.saturating_sub(1),
        KeyCode::Down | KeyCode::Char('j') => offset.saturating_add(1),
        KeyCode::PageUp => offset.saturating_sub(10),
        KeyCode::PageDown => offset.saturating_add(10),
        KeyCode::End => match content_height {
            Some(h) => h.saturating_sub(1),
            None => offset,
        },
        _ => offset,
    }
}

impl<'a> LogsWidget<'a> {
    fn next_level_filter_exec(&self) -> (r: Option<String>)
        ensures
            opt_text(r) == next_level_filter(opt_text(self.level_filter)),
    {
        match &self.level_filter {
            None => Some(String::from_str("ERROR")),
            Some(level) => {
                let t = chars_of(level.as_str());
                if literal_is(&t, "ERROR") {
                    Some(String::from_str("WARN"))
                } else if literal_is(&t, "WARN") {
                    Some(String::from_str("INFO"))
                } else if literal_is(&t, "INFO") {
                    Some(String::from_str("DEBUG"))
                } else if literal_is(&t, "DEBUG") {
                    Some(String::from_str("TRACE"))
                } else if literal_is(&t, "TRACE") {
                    Some(String::from_str("FATAL"))
                } else {
                    None
                }
            },
        }
    }

    fn set_level_filter(&mut self, f: Option<String>)
        ensures
            *final(self) == (LogsWidget { level_filter: f, ..*old(self) }),
    {
        self.level_filter = f;
    }

    /// Steps the level filter: none, ERROR, WARN, INFO, DEBUG, TRACE, FATAL,
    /// none.
    pub fn cycle_level_filter(&mut self)
        ensures
            *final(self) == (LogsWidget { level_filter: final(self).level_filter, ..*old(self) }),
            opt_text(final(self).level_filter) == next_level_filter(opt_text(old(self).level_filter)),
    {
        let f = self.next_level_filter_exec();
        self.set_level_filter(f);
    }

    /// Steps the sort column: time, level, message, time.
    pub fn cycle_sort_column(&mut self)
        ensures
            *final(self) == (LogsWidget { sort_by: next_sort_by(old(self).sort_by), ..*old(self) }),
    {
        self.sort_by = match self.sort_by {
            SortBy::Time => SortBy::Level,
            SortBy::Level => SortBy::Message,
            SortBy::Message => SortBy::Time,
        };
    }

    /// Reverses the sort order.
    pub fn toggle_sort_order(&mut self)
        ensures
            *final(self) == (LogsWidget { sort_order: flipped(old(self).sort_order), ..*old(self) }),
    {
        self.sort_order = match self.sort_order {
            SortOrder::Ascending => SortOrder::Descending,
            SortOrder::Descending => SortOrder::Ascending,
        };
    }

    fn set_view(&mut self, view: ViewState, offset: u16)
        ensures
            *final(self) == (LogsWidget { view_state: view, scroll_offset: offset, ..*old(self) }),
    {
        self.view_state = view;
        self.scroll_offset = offset;
    }

    /// Keys in the detail popup: Esc closes it (back to the top), arrows,
    /// page keys, Home and End scroll it. `content_height` is the number of
    /// lines of the selected record's pretty JSON, when a record is selected.
    pub fn handle_log_detail_keys(&mut self, key: KeyCode, content_height: Option<u16>)
        ensures
            old(self).detail_key_result(key, content_height, *final(self)),
    {
        let view = if key == KeyCode::Esc {
            ViewState::Normal
        } else {
            self.view_state
        };
        let offset = popup_offset_exec(self.scroll_offset, key, content_height);
        self.set_view(view, offset);
    }

    /// Keys in the help popup: Esc, `?` and `q` close it.
    pub fn handle_help_keys(&mut self, key: KeyCode)
        ensures
            old(self).help_key_result(key, *final(self)),
    {
        if key == KeyCode::Esc || key == KeyCode::Char('?') || key == KeyCode::Char('q') {
            self.view_state = ViewState::Normal;
        }
    }

    /// Keys while typing a search: characters extend it, Backspace removes
    /// the last one, Enter and Esc end the search.
    pub fn handle_search_keys(&mut self, key: KeyCode)
        ensures
            old(self).search_key_result(key, *final(self)),
    {
        let q = query_after_key(&self.search_query, key);
        let view = if key == KeyCode::Enter || key == KeyCode::Esc {
            ViewState::Normal
        } else {
            self.view_state
        };
        self.set_query_and_view(q, view);
    }

    fn set_query_and_view(&mut self, q: String, view: ViewState)
        ensures
            *final(self) == (LogsWidget { search_query: q, view_state: view, ..*old(self) }),
    {
        self.search_query = q;
        self.view_state = view;
    }
}

/// The search text after a key: a character is appended, Backspace
/// removes the last character.
pub open spec fn edited_query(q: Seq<char>, key: KeyCode) -> Seq<char> {
    match key {
        KeyCode::Char(c) => q.push(c),
        KeyCode::Backspace => if q.len() > 0 {
            q.drop_last()
        } else {
            q
        },
        _ => q,
    }
}

fn query_after_key(q: &String, key: KeyCode) -> (r: String)
    ensures
        r@ == edited_query(q@, key),
{
    let mut r = q.clone();
    match key {
        KeyCode::Char(c) => {
            r.push(c);
        },
        KeyCode::Backspace => {
            r.pop();
        },
        _ => {},
    }
    r
}

} // verus!

verus! {

impl<'a> LogsWidget<'a> {
    /// Where a navigation key moves the cursor and window (`None` for other
    /// keys). `n` and `N` move only while there is a search text.
    pub open spec fn nav_for_key(self, key: KeyCode) -> Option<(usize, usize)> {
        match key {
            KeyCode::Up | KeyCode::Char('k') => Some(self.cursor_up_nav()),
            KeyCode::Down | KeyCode::Char('j') => Some(self.cursor_down_nav()),
            KeyCode::PageUp => Some(self.page_up_nav()),
            KeyCode::PageDown => Some(self.page_down_nav()),
            KeyCode::Home | KeyCode::Char('g') => Some(self.top_nav()),
            KeyCode::End | KeyCode::Char('G') => Some(self.bottom_nav()),
            KeyCode::Char('J') => Some(self.lines_down_nav(5)),
            KeyCode::Char('K') => Some(self.lines_up_nav(5)),
            KeyCode::Char('n') => if self.search_query@.len() > 0 {
                Some(self.cursor_down_nav())
            } else {
                Some((self.selected_row, self.virtual_scroll_offset))
            },
            KeyCode::Char('N') => if self.search_query@.len() > 0 {
                Some(self.cursor_up_nav())
            } else {
                Some((self.selected_row, self.virtual_scroll_offset))
            },
            _ => None,
        }
    }

    /// The arithmetic of the navigation keys stays within `usize`.
    pub open spec fn keys_fit(self) -> bool {
        &&& self.window_fits()
        &&& self.virtual_scroll_offset + 5 <= usize::MAX
        &&& self.logs@.len() <= 10000 ==> self.selected_row + 10 <= usize::MAX
    }

    /// The sums that the key makes in the normal view stay within `usize`:
    /// the navigation keys make the sums of `keys_fit`; Enter, `b` and `B`
    /// compute the shown rows through the virtual window; every other key
    /// makes none.
    pub open spec fn normal_key_fits(self, key: KeyCode) -> bool {
        if self.nav_for_key(key) is Some {
            self.keys_fit()
        } else if key == KeyCode::Enter || key == KeyCode::Char('b') || key == KeyCode::Char('B') {
            self.window_fits()
        } else {
            true
        }
    }

    /// The sums that routing the key makes stay within `usize` (only the
    /// normal view of a focused widget makes any).
    pub open spec fn key_fits(self, key: KeyCode) -> bool {
        self.focused && self.view_state == ViewState::Normal ==> self.normal_key_fits(key)
    }

    /// Whether `key_fits` holds, computed without overflowing.
    pub fn accepts_key(&self, key: KeyCode) -> (r: bool)
        ensures
            r == self.key_fits(key),
    {
        if !(self.focused && self.view_state == ViewState::Normal) {
            return true;
        }
        let window = self.virtual_scroll_offset.checked_add(self.virtual_window_size).is_some();
        let is_nav = self.is_nav_key(key);
        if is_nav {
            window && self.virtual_scroll_offset.checked_add(5).is_some() && (self.logs.len() > 10000
                || self.selected_row.checked_add(10).is_some())
        } else if key == KeyCode::Enter || key == KeyCode::Char('b') || key == KeyCode::Char('B') {
            window
        } else {
            true
        }
    }

    fn is_nav_key(&self, key: KeyCode) -> (r: bool)
        ensures
            r == (self.nav_for_key(key) is Some),
    {
        match key {
            KeyCode::Up | KeyCode::Char('k') | KeyCode::Down | KeyCode::Char('j') | KeyCode::PageUp
            | KeyCode::PageDown | KeyCode::Home | KeyCode::Char('g') | KeyCode::End | KeyCode::Char('G')
            | KeyCode::Char('J') | KeyCode::Char('K') | KeyCode::Char('n') | KeyCode::Char('N') => true,
            _ => false,
        }
    }

    fn nav_for_key_exec(&self, key: KeyCode) -> (r: Option<(usize, usize)>)
        requires
            self.keys_fit(),
        ensures
            r == self.nav_for_key(key),
    {
        match key {
            KeyCode::Up | KeyCode::Char('k') => Some(self.cursor_up_target()),
            KeyCode::Down | KeyCode::Char('j') => Some(self.cursor_down_target()),
            KeyCode::PageUp => Some(self.page_up_target()),
            KeyCode::PageDown => Some(self.page_down_target()),
            KeyCode::Home | KeyCode::Char('g') => Some(self.top_target()),
            KeyCode::End | KeyCode::Char('G') => Some(self.bottom_target()),
            KeyCode::Char('J') => Some(self.lines_down_target(5)),
            KeyCode::Char('K') => Some(self.lines_up_target(5)),
            KeyCode::Char('n') => if !self.search_query.as_str().is_empty() {
                Some(self.cursor_down_target())
            } else {
                Some((self.selected_row, self.virtual_scroll_offset))
            },
            KeyCode::Char('N') => if !self.search_query.as_str().is_empty() {
                Some(self.cursor_up_target())
            } else {
                Some((self.selected_row, self.virtual_scroll_offset))
            },
            _ => None,
        }
    }
}

} // verus!

verus! {

impl<'a> LogsWidget<'a> {
    /// The view options after `t`, `w`, `#`, `f` or space (other keys change
    /// nothing).
    pub open spec fn options_after(self, key: KeyCode) -> Self {
        match key {
            KeyCode::Char('t') => LogsWidget { show_timestamps: !self.show_timestamps, ..self },
            KeyCode::Char('w') => LogsWidget { wrap_lines: !self.wrap_lines, ..self },
            KeyCode::Char('#') => LogsWidget { show_line_numbers: !self.show_line_numbers, ..self },
            KeyCode::Char('f') => LogsWidget { follow_tail: !self.follow_tail, ..self },
            KeyCode::Char(' ') => LogsWidget { paused: !self.paused, ..self },
            _ => self,
        }
    }

    /// `post` is the widget after an action key of the normal view (keys
    /// that neither navigate nor are listed change nothing).
    pub open spec fn action_key_result(self, key: KeyCode, post: Self) -> bool {
        match key {
            KeyCode::Enter => post == (if self.visible_rows().len() > 0 {
                LogsWidget { view_state: ViewState::LogDetail, scroll_offset: 0, ..self }
            } else {
                self
            }),
            KeyCode::Char('/') => post == (LogsWidget { view_state: ViewState::Search, ..self }),
            KeyCode::Char('?') => post == (LogsWidget { view_state: ViewState::Help, ..self }),
            KeyCode::Char('l') => {
                &&& post == (LogsWidget { level_filter: post.level_filter, ..self })
                &&& opt_text(post.level_filter) == next_level_filter(opt_text(self.level_filter))
            },
            KeyCode::Char('L') | KeyCode::Char('m') => post == (if self.is_sample_data && !self.full_data_loading {
                LogsWidget { load_more_requested: true, full_data_loading: true, ..self }
            } else {
                self
            }),
            KeyCode::Char('s') => post == (LogsWidget { sort_by: next_sort_by(self.sort_by), ..self }),
            KeyCode::Char('r') => post == (LogsWidget { sort_order: flipped(self.sort_order), ..self }),
            KeyCode::Char('c') => {
                &&& post.level_filter is None
                &&& post.search_query@ == Seq::<char>::empty()
                &&& refreshed(
                    LogsWidget { level_filter: None, search_query: post.search_query, ..self },
                    post,
                )
            },
            KeyCode::Char('b') => {
                &&& post == (LogsWidget { bookmarks: post.bookmarks, ..self })
                &&& post.bookmarks@ == (if self.selected_row < self.visible_rows().len() {
                    toggled(self.bookmarks@, self.visible_rows()[self.selected_row as int].0)
                } else {
                    self.bookmarks@
                })
            },
            KeyCode::Char('B') => post == (match self.next_bookmark_row() {
                Some(i) => LogsWidget { selected_row: i as usize, ..self },
                None => self,
            }),
            _ => post == self.options_after(key),
        }
    }

    /// `post` is the widget after a key in the normal view.
    pub open spec fn normal_key_result(self, key: KeyCode, post: Self) -> bool {
        match self.nav_for_key(key) {
            Some(nav) => post == self.with_nav(nav),
            None => self.action_key_result(key, post),
        }
    }

    fn toggle_option(&mut self, key: KeyCode)
        ensures
            *final(self) == old(self).options_after(key),
    {
        let t = self.show_timestamps != (key == KeyCode::Char('t'));
        let w = self.wrap_lines != (key == KeyCode::Char('w'));
        let n = self.show_line_numbers != (key == KeyCode::Char('#'));
        let f = self.follow_tail != (key == KeyCode::Char('f'));
        let p = self.paused != (key == KeyCode::Char(' '));
        self.set_options(t, w, n, f, p);
    }

    fn set_options(&mut self, t: bool, w: bool, n: bool, f: bool, p: bool)
        ensures
            *final(self) == (LogsWidget {
                show_timestamps: t,
                wrap_lines: w,
                show_line_numbers: n,
                follow_tail: f,
                paused: p,
                ..*old(self)
            }),
    {
        self.show_timestamps = t;
        self.wrap_lines = w;
        self.show_line_numbers = n;
        self.follow_tail = f;
        self.paused = p;
    }

    fn open_detail_if_rows(&mut self)
        requires
            old(self).window_fits(),
        ensures
            *final(self) == (if old(self).visible_rows().len() > 0 {
                LogsWidget { view_state: ViewState::LogDetail, scroll_offset: 0, ..*old(self) }
            } else {
                *old(self)
            }),
    {
        let has_rows = self.filtered_and_sorted_logs().len() > 0;
        if has_rows {
            self.set_view(ViewState::LogDetail, 0);
        }
    }

    fn set_view_state(&mut self, view: ViewState)
        ensures
            *final(self) == (LogsWidget { view_state: view, ..*old(self) }),
    {
        self.view_state = view;
    }

    fn handle_action_key(&mut self, key: KeyCode)
        requires
            old(self).normal_key_fits(key),
            old(self).nav_for_key(key) is None,
        ensures
            old(self).action_key_result(key, *final(self)),
    {
        match key {
            KeyCode::Enter => self.open_detail_if_rows(),
            KeyCode::Char('/') => self.set_view_state(ViewState::Search),
            KeyCode::Char('?') => self.set_view_state(ViewState::Help),
            KeyCode::Char('l') => self.cycle_level_filter(),
            KeyCode::Char('L') | KeyCode::Char('m') => self.request_full_data_load(),
            KeyCode::Char('s') => self.cycle_sort_column(),
            KeyCode::Char('r') => self.toggle_sort_order(),
            KeyCode::Char('c') => self.clear_all_filters(),
            KeyCode::Char('b') => self.toggle_bookmark(),
            KeyCode::Char('B') => self.jump_to_next_bookmark(),
            _ => self.toggle_option(key),
        }
    }

    /// Keys in the normal view: navigation, search, filters, sorting, view
    /// options, bookmarks and help.
    pub fn handle_normal_keys(&mut self, key: KeyCode)
        requires
            old(self).normal_key_fits(key),
        ensures
            old(self).normal_key_result(key, *final(self)),
    {
        let nav = if self.is_nav_key(key) {
            self.nav_for_key_exec(key)
        } else {
            None
        };
        match nav {
            Some(n) => self.set_nav(n),
            None => self.handle_action_key(key),
        }
    }

    /// `post` is the widget after a key in the detail popup.
    pub open spec fn detail_key_result(self, key: KeyCode, content_height: Option<u16>, post: Self) -> bool {
        post == (LogsWidget {
            view_state: if key == KeyCode::Esc {
                ViewState::Normal
            } else {
                self.view_state
            },
            scroll_offset: popup_offset_after(self.scroll_offset, key, content_height),
            ..self
        })
    }

    /// `post` is the widget after a key in the help popup.
    pub open spec fn help_key_result(self, key: KeyCode, post: Self) -> bool {
        post == (if key == KeyCode::Esc || key == KeyCode::Char('?') || key == KeyCode::Char('q') {
            LogsWidget { view_state: ViewState::Normal, ..self }
        } else {
            self
        })
    }

    /// `post` is the widget after a key while searching.
    pub open spec fn search_key_result(self, key: KeyCode, post: Self) -> bool {
        &&& post == (LogsWidget {
            search_query: post.search_query,
            view_state: if key == KeyCode::Enter || key == KeyCode::Esc {
                ViewState::Normal
            } else {
                self.view_state
            },
            ..self
        })
        &&& post.search_query@ == edited_query(self.search_query@, key)
    }

    /// `post` is the widget after a key routed by the view state.
    pub open spec fn key_result(self, key: KeyCode, content_height: Option<u16>, post: Self) -> bool {
        if !self.focused {
            post == self
        } else {
            match self.view_state {
                ViewState::LogDetail => self.detail_key_result(key, content_height, post),
                ViewState::Help => self.help_key_result(key, post),
                ViewState::Search => self.search_key_result(key, post),
                ViewState::Normal => self.normal_key_result(key, post),
            }
        }
    }

    /// Routes a key by the view state; an unfocused widget ignores keys.
    /// `content_height` is the detail popup's line count (for End).
    pub fn on_key(&mut self, key: KeyCode, content_height: Option<u16>)
        requires
            old(self).key_fits(key),
        ensures
            old(self).key_result(key, content_height, *final(self)),
    {
        if !self.focused {
            return;
        }
        match self.view_state {
            ViewState::LogDetail => self.handle_log_detail_keys(key, content_height),
            ViewState::Help => self.handle_help_keys(key),
            ViewState::Search => self.handle_search_keys(key),
            ViewState::Normal => self.handle_normal_keys(key),
        }
    }
}

} // verus!

verus! {

/// Pressing `l` seven times brings the level filter back where it was: no
/// filter, or any of the six level names.
pub proof fn lemma_level_filter_cycle(f: Option<Seq<char>>)
    requires
        f is None || f == Some("ERROR"@) || f == Some("WARN"@) || f == Some("INFO"@) || f == Some("DEBUG"@) || f
            == Some("TRACE"@) || f == Some("FATAL"@),
    ensures
        next_level_filter(
            next_level_filter(
                next_level_filter(next_level_filter(next_level_filter(next_level_filter(next_level_filter(f))))),
            ),
        ) == f,
{
    reveal_strlit("ERROR");
    reveal_strlit("WARN");
    reveal_strlit("INFO");
    reveal_strlit("DEBUG");
    reveal_strlit("TRACE");
    reveal_strlit("FATAL");
    let (e, w, i, d, t, x) = ("ERROR"@, "WARN"@, "INFO"@, "DEBUG"@, "TRACE"@, "FATAL"@);
    assert(e != w && e != i && e != d && e != t && e != x) by {
        assert(e[0] != w[0] && e.len() != i.len() && e[0] != d[0] && e[0] != t[0] && e[0] != x[0]);
    }
    assert(w != i && w != d && w != t && w != x) by {
        assert(w[0] != i[0] && w.len() != d.len() && w.len() != t.len() && w.len() != x.len());
    }
    assert(i != d && i != t && i != x) by {
        assert(i.len() != d.len() && i.len() != t.len() && i.len() != x.len());
    }
    assert(d != t && d != x) by {
        assert(d[0] != t[0] && d[0] != x[0]);
    }
    assert(t != x) by {
        assert(t[0] != x[0]);
    }
    assert(next_level_filter(None) == Some(e));
    assert(next_level_filter(Some(e)) == Some(w));
    assert(next_level_filter(Some(w)) == Some(i));
    assert(next_level_filter(Some(i)) == Some(d));
    assert(next_level_filter(Some(d)) == Some(t));
    assert(next_level_filter(Some(t)) == Some(x));
    assert(next_level_filter(Some(x)) is None);
}

/// Pressing `s` three times brings the sort column back, and `r` twice the
/// sort order.
pub proof fn lemma_sort_cycles(s: SortBy, o: SortOrder)
    ensures
        next_sort_by(next_sort_by(next_sort_by(s))) == s,
        flipped(flipped(o)) == o,
{
}

/// Toggling a bookmark twice gives back the same set of bookmarks, and
/// exactly the same list when the record was not bookmarked; bookmarks
/// never repeat.
pub proof fn lemma_toggle_twice(marks: Seq<usize>, x: usize)
    requires
        marks.no_duplicates(),
    ensures
        toggled(marks, x).no_duplicates(),
        toggled(toggled(marks, x), x).to_set() == marks.to_set(),
        !marks.contains(x) ==> toggled(toggled(marks, x), x) == marks,
{
    if marks.contains(x) {
        lemma_first_index(marks, x);
        let i = first_index(marks, x);
        let once = marks.remove(i);
        assert(!once.contains(x)) by {
            if once.contains(x) {
                let k = choose|k: int| 0 <= k < once.len() && once[k] == x;
                if k < i {
                    assert(marks[k] == x);
                } else {
                    assert(marks[k + 1] == x);
                }
            }
        }
        assert(once.no_duplicates()) by {
            assert forall|a: int, b: int| 0 <= a < once.len() && 0 <= b < once.len() && a != b implies once[a]
                != once[b] by {
                let a2 = if a < i { a } else { a + 1 };
                let b2 = if b < i { b } else { b + 1 };
                assert(once[a] == marks[a2]);
                assert(once[b] == marks[b2]);
            }
        }
        let twice = once.push(x);
        assert(twice.to_set() =~= marks.to_set()) by {
            assert forall|y: usize| twice.to_set().contains(y) <==> marks.to_set().contains(y) by {
                if marks.contains(y) {
                    let k = choose|k: int| 0 <= k < marks.len() && marks[k] == y;
                    if y != x {
                        if k < i {
                            assert(once[k] == y);
                        } else {
                            assert(k != i);
                            assert(once[k - 1] == y);
                        }
                        assert(twice[k - (if k < i { 0int } else { 1int })] == y);
                    } else {
                        assert(twice[once.len() as int] == y);
                    }
                }
                if twice.contains(y) {
                    let k = choose|k: int| 0 <= k < twice.len() && twice[k] == y;
                    if k < once.len() {
                        let k2 = if k < i { k } else { k + 1 };
                        assert(marks[k2] == y);
                    }
                }
            }
        }
    } else {
        let once = marks.push(x);
        assert(once[marks.len() as int] == x);
        assert(once.no_duplicates());
        lemma_first_index(once, x);
        let i = first_index(once, x);
        assert(i == marks.len()) by {
            if i < marks.len() {
                assert(marks[i] == x);
            }
        }
        assert(once.remove(i) =~= marks);
    }
}

} // verus!

verus! {

/// The name a sort column is shown under.
pub open spec fn sort_label(s: SortBy) -> Seq<char> {
    match s {
        SortBy::Time => "Time"@,
        SortBy::Level => "Level"@,
        SortBy::Message => "Message"@,
    }
}

impl<'a> LogsWidget<'a> {
    /// The arrow next to a column's header: up or down on the sorted
    /// column, nothing on the others.
    pub open spec fn indicator(self, column: SortBy) -> Seq<char> {
        if self.sort_by == column {
            match self.sort_order {
                SortOrder::Ascending => "↑"@,
                SortOrder::Descending => "↓"@,
            }
        } else {
            ""@
        }
    }

    /// The search part of the control line: the text being typed with a
    /// cursor, the search text, or that there is none.
    pub open spec fn search_text(self) -> Seq<char> {
        if self.view_state == ViewState::Search {
            "🔍 "@ + self.search_query@ + "_"@
        } else if self.search_query@.len() > 0 {
            "🔍 "@ + self.search_query@
        } else {
            "Search: None"@
        }
    }

    /// The sort part of the control line.
    pub open spec fn sort_text(self) -> Seq<char> {
        "Sort: "@ + sort_label(self.sort_by) + self.indicator(self.sort_by)
    }

    /// The filter part of the control line.
    pub open spec fn filter_text(self) -> Seq<char> {
        match self.level_filter {
            Some(f) => "Filter: "@ + f@,
            None => "Filter: All"@,
        }
    }

    /// The column headers, as `build_table_constraints` lays the columns
    /// out.
    pub open spec fn header_titles(self) -> Seq<Seq<char>> {
        (if self.show_line_numbers { seq!["#"@] } else { Seq::empty() })
            + (if self.show_timestamps { seq!["Time"@ + self.indicator(SortBy::Time)] } else { Seq::empty() })
            + (if self.show_levels { seq!["Level"@ + self.indicator(SortBy::Level)] } else { Seq::empty() })
            + seq!["Thread"@, "Message"@ + self.indicator(SortBy::Message), "Target"@]
    }

    /// The search, sort and filter texts of the control line.
    pub fn build_control_texts(&self) -> (r: (String, String, String))
        ensures
            r.0@ == self.search_text(),
            r.1@ == self.sort_text(),
            r.2@ == self.filter_text(),
    {
        let mut search = String::new();
        if self.view_state == ViewState::Search {
            push_str_chars(&mut search, "🔍 ");
            push_str_chars(&mut search, self.search_query.as_str());
            push_str_chars(&mut search, "_");
        } else if !self.search_query.as_str().is_empty() {
            push_str_chars(&mut search, "🔍 ");
            push_str_chars(&mut search, self.search_query.as_str());
        } else {
            push_str_chars(&mut search, "Search: None");
        }
        let mut sort = String::new();
        push_str_chars(&mut sort, "Sort: ");
        push_str_chars(
            &mut sort,
            match self.sort_by {
                SortBy::Time => "Time",
                SortBy::Level => "Level",
                SortBy::Message => "Message",
            },
        );
        push_str_chars(&mut sort, self.get_sort_indicator(self.sort_by));
        let mut filter = String::new();
        match &self.level_filter {
            Some(f) => {
                push_str_chars(&mut filter, "Filter: ");
                push_str_chars(&mut filter, f.as_str());
            },
            None => push_str_chars(&mut filter, "Filter: All"),
        }
        (search, sort, filter)
    }

    fn titled(&self, name: &str, column: SortBy) -> (r: String)
        ensures
            r@ == name@ + self.indicator(column),
    {
        let mut s = String::new();
        push_str_chars(&mut s, name);
        push_str_chars(&mut s, self.get_sort_indicator(column));
        s
    }

    /// The column headers (see `header_titles`).
    pub fn build_table_header(&self) -> (r: Vec<String>)
        ensures
            r@.map_values(|s: String| s@) == self.header_titles(),
    {
        let mut cells: Vec<String> = Vec::new();
        if self.show_line_numbers {
            cells.push(String::from_str("#"));
        }
        if self.show_timestamps {
            cells.push(self.titled("Time", SortBy::Time));
        }
        if self.show_levels {
            cells.push(self.titled("Level", SortBy::Level));
        }
        cells.push(String::from_str("Thread"));
        cells.push(self.titled("Message", SortBy::Message));
        cells.push(String::from_str("Target"));
        assert(cells@.map_values(|s: String| s@) =~= self.header_titles());
        cells
    }

    /// The panel title and its status symbols (see `title_texts`).
    pub fn build_title_line(&self) -> (r: (String, String))
        ensures
            (r.0@, r.1@) == crate::text::title_texts(
                self.title@,
                (if self.paused { seq!["⏸"@] } else { Seq::empty() })
                    + (if self.auto_scroll { seq!["📜"@] } else { Seq::empty() })
                    + (if self.follow_tail { seq!["👁"@] } else { Seq::empty() })
                    + (if self.wrap_lines { seq!["↩"@] } else { Seq::empty() })
                    + (if self.show_line_numbers { seq!["#"@] } else { Seq::empty() })
                    + (if self.bookmarks.len() != 0 { seq!["🔖"@] } else { Seq::empty() }),
            ),
    {
        let indicators = self.get_status_indicators();
        crate::text::build_title_texts(self.title, &indicators)
    }
}

} // verus!

verus! {

impl<'a> LogsWidget<'a> {
    /// A cache filed under the current key holds every matching record in
    /// table order.
    pub open spec fn cache_coherent(self) -> bool {
        match self.cached_filtered_logs {
            Some(c) => self.cache_key@ == self.cache_key_text() ==> c@ == self.direct_rows(),
            None => true,
        }
    }
}

/// While the cache is coherent, the cached path shows exactly what it
/// would show without a cache: the first `page_size_limit` rows of the
/// full result.
pub proof fn lemma_cache_transparent<'a>(w: LogsWidget<'a>)
    requires
        w.cache_coherent(),
        1000 < w.logs@.len() <= 10000,
    ensures
        w.visible_rows() == w.direct_rows().take(min_nat(w.page_size_limit as int, w.direct_rows().len() as int)),
{
}

/// Refreshing the cache keeps it coherent.
pub proof fn lemma_refresh_coherent<'a>(pre: LogsWidget<'a>, post: LogsWidget<'a>)
    requires
        refreshed(pre, post),
        pre.cache_coherent(),
    ensures
        post.cache_coherent(),
{
    if !(pre.logs@.len() <= 1000 || pre.cache_key@ == pre.cache_key_text()) {
        assert(post.logs == pre.logs);
        assert(post.matched() == pre.matched());
        assert(post.direct_rows() == pre.direct_rows());
        assert(post.cache_key_text() == pre.cache_key_text());
    }
}

} // verus!

verus! {

/// The table lists every matching record exactly once, ordered by the
/// sort column in the chosen direction, records with equal keys in log
/// order.
pub proof fn lemma_rows_in_order<'a>(w: LogsWidget<'a>)
    requires
        w.logs@.len() <= usize::MAX,
    ensures
        w.arrange_ids(w.matched()).to_multiset() == w.matched().to_multiset(),
        crate::sort::sorted_seq(w.arrange_ids(w.matched()), log_order(w.logs@, w.sort_by, w.sort_order)),
{
    lemma_matches_upto_props(w.logs@, opt_text(w.level_filter), w.query(), w.logs@.len());
    let logs = w.logs@;
    let descending = w.sort_order == SortOrder::Descending;
    match w.sort_by {
        SortBy::Time => crate::sort::lemma_number_before_order(
            |i: usize| stamp_millis(logs[i as int].timestamp@),
            descending,
        ),
        SortBy::Level => crate::sort::lemma_number_before_order(
            |i: usize| level_code(logs[i as int].level) as u64,
            descending,
        ),
        SortBy::Message => crate::sort::lemma_text_before_order(|i: usize| logs[i as int].message@, descending),
    }
    crate::sort::lemma_arranged_sorts(w.matched(), log_order(w.logs@, w.sort_by, w.sort_order));
}

} // verus!

verus! {

/// The message cell: `file:line:col ` before the message, which is cut to
/// its first 47 bytes and `...` when wrapping is on and it is longer than
/// 50 bytes.
pub open spec fn message_cell(wrap: bool, ev: ResolvedLog) -> Seq<char> {
    ev.file@ + seq![':'] + crate::text::decimal(ev.position.0 as nat) + seq![':'] + crate::text::decimal(
        ev.position.1 as nat,
    ) + seq![' '] + (if wrap {
        crate::text::clipped(ev.message@, 50, 47)
    } else {
        ev.message@
    })
}

/// Cutting the message of `ev` does not split a character.
pub open spec fn message_cuttable(wrap: bool, ev: ResolvedLog) -> bool {
    wrap && crate::text::byte_len(ev.message@) > 50 ==> crate::text::is_boundary(ev.message@, 47)
}

impl<'a> LogsWidget<'a> {
    /// The `🔖` mark of a bookmarked row.
    pub open spec fn mark(self, idx: usize) -> Seq<char> {
        if self.bookmarks@.contains(idx) {
            "🔖"@
        } else {
            Seq::empty()
        }
    }

    /// The cell texts of the row for record `idx`: line number, timestamp
    /// and level as toggled (a bookmarked row marks its line number and
    /// level with `🔖`), then thread, message (see `message_cell`) and
    /// target.
    pub open spec fn row_cells(self, idx: usize, ev: ResolvedLog) -> Seq<Seq<char>> {
        (if self.show_line_numbers {
            seq![self.mark(idx) + crate::text::decimal((idx + 1) as nat)]
        } else {
            Seq::empty()
        }) + (if self.show_timestamps {
            seq![ev.timestamp@]
        } else {
            Seq::empty()
        }) + (if self.show_levels {
            seq![self.mark(idx) + level_text(ev.level)]
        } else {
            Seq::empty()
        }) + seq![
            crate::text::decimal(ev.thread_id as nat),
            message_cell(self.wrap_lines, ev),
            ev.target@,
        ]
    }

    fn push_mark(&self, s: &mut String, idx: usize)
        ensures
            final(s)@ == old(s)@ + self.mark(idx),
    {
        if contains_value(&self.bookmarks, idx) {
            push_str_chars(s, "🔖");
        } else {
            assert(s@ =~= old(s)@ + self.mark(idx));
        }
    }

    /// The cell texts of the row for record `idx` (see `row_cells`).
    pub fn build_row_cells(&self, idx: usize, ev: &ResolvedLog) -> (r: Vec<String>)
        requires
            message_cuttable(self.wrap_lines, *ev),
        ensures
            r@.map_values(|s: String| s@) == self.row_cells(idx, *ev),
    {
        let ghost pre1: Seq<Seq<char>> = if self.show_line_numbers {
            seq![self.mark(idx) + crate::text::decimal((idx + 1) as nat)]
        } else {
            Seq::empty()
        };
        let ghost pre2: Seq<Seq<char>> = pre1 + (if self.show_timestamps {
            seq![ev.timestamp@]
        } else {
            Seq::empty()
        });
        let ghost pre3: Seq<Seq<char>> = pre2 + (if self.show_levels {
            seq![self.mark(idx) + level_text(ev.level)]
        } else {
            Seq::empty()
        });
        let mut cells: Vec<String> = Vec::new();
        if self.show_line_numbers {
            let mut t = String::new();
            self.push_mark(&mut t, idx);
            crate::text::push_decimal_wide(&mut t, idx as u128 + 1);
            cells.push(t);
        }
        assert(cells@.map_values(|s: String| s@) =~= pre1);
        if self.show_timestamps {
            cells.push(ev.timestamp.clone());
        }
        assert(cells@.map_values(|s: String| s@) =~= pre2);
        if self.show_levels {
            let mut t = String::new();
            self.push_mark(&mut t, idx);
            push_str_chars(&mut t, Utils::level_name(ev.level));
            cells.push(t);
        }
        assert(cells@.map_values(|s: String| s@) =~= pre3);
        let mut thread = String::new();
        crate::text::push_decimal(&mut thread, ev.thread_id as u64);
        cells.push(thread);
        let mut msg = String::new();
        push_str_chars(&mut msg, ev.file.as_str());
        msg.push(':');
        crate::text::push_decimal(&mut msg, ev.position.0 as u64);
        msg.push(':');
        crate::text::push_decimal(&mut msg, ev.position.1 as u64);
        msg.push(' ');
        crate::text::push_clipped(&mut msg, ev.message.as_str(), self.wrap_lines, 50, 47);
        assert(msg@ =~= message_cell(self.wrap_lines, *ev));
        cells.push(msg);
        cells.push(ev.target.clone());
        assert(cells@.map_values(|s: String| s@) =~= self.row_cells(idx, *ev));
        cells
    }

    /// The cell texts of every row the table shows, in table order.
    pub fn build_table_rows(&self) -> (r: Vec<Vec<String>>)
        requires
            self.window_fits(),
            forall|k: int|
                0 <= k < self.visible_rows().len() ==> message_cuttable(
                    self.wrap_lines,
                    #[trigger] self.visible_rows()[k].1,
                ),
        ensures
            r.len() == self.visible_rows().len(),
            forall|k: int|
                0 <= k < r.len() ==> (#[trigger] r@[k])@.map_values(|s: String| s@) == self.row_cells(
                    self.visible_rows()[k].0,
                    self.visible_rows()[k].1,
                ),
    {
        let rows = self.filtered_and_sorted_logs();
        let mut out: Vec<Vec<String>> = Vec::new();
        for k in 0..rows.len()
            invariant
                same_rows(rows@, self.visible_rows()),
                forall|j: int|
                    0 <= j < self.visible_rows().len() ==> message_cuttable(
                        self.wrap_lines,
                        #[trigger] self.visible_rows()[j].1,
                    ),
                out.len() == k,
                forall|j: int|
                    0 <= j < k ==> (#[trigger] out@[j])@.map_values(|s: String| s@) == self.row_cells(
                        self.visible_rows()[j].0,
                        self.visible_rows()[j].1,
                    ),
        {
            let (idx, ev) = rows[k];
            assert(message_cuttable(self.wrap_lines, self.visible_rows()[k as int].1));
            out.push(self.build_row_cells(idx, ev));
        }
        out
    }
}

} // verus!

verus! {

/// Level codes rank the levels by severity: TRACE, DEBUG, INFO, WARN,
/// ERROR, FATAL, from least to most severe.
pub proof fn lemma_level_codes_rank_severity()
    ensures
        level_code(crate::event::LogLevel::TRACE) < level_code(crate::event::LogLevel::DEBUG),
        level_code(crate::event::LogLevel::DEBUG) < level_code(crate::event::LogLevel::INFO),
        level_code(crate::event::LogLevel::INFO) < level_code(crate::event::LogLevel::WARN),
        level_code(crate::event::LogLevel::WARN) < level_code(crate::event::LogLevel::ERROR),
        level_code(crate::event::LogLevel::ERROR) < level_code(crate::event::LogLevel::FATAL),
{
}

/// Sorted by level, the table lists the given records once each, from the
/// least to the most severe level (by level code, see
/// `lemma_level_codes_rank_severity`), the other way round when
/// descending; records of one level keep their log order. On a table of at
/// most 1000 records the rows shown are the matching records so arranged.
pub proof fn lemma_level_sort_by_severity<'a>(w: LogsWidget<'a>, ids: Seq<usize>)
    requires
        w.sort_by == SortBy::Level,
        ids.no_duplicates(),
    ensures
        w.arrange_ids(ids).to_multiset() == ids.to_multiset(),
        forall|k: int, l: int|
            #![trigger w.arrange_ids(ids)[k], w.arrange_ids(ids)[l]]
            0 <= k < l < w.arrange_ids(ids).len() ==> {
                let a = w.logs@[w.arrange_ids(ids)[k] as int].level;
                let b = w.logs@[w.arrange_ids(ids)[l] as int].level;
                &&& w.sort_order == SortOrder::Ascending ==> level_code(a) <= level_code(b)
                &&& w.sort_order == SortOrder::Descending ==> level_code(a) >= level_code(b)
                &&& level_code(a) == level_code(b) ==> w.arrange_ids(ids)[k] < w.arrange_ids(ids)[l]
            },
        w.logs@.len() <= 1000 ==> w.visible_rows() == rows_of(w.logs@, w.arrange_ids(w.matched())),
{
    let logs = w.logs@;
    let descending = w.sort_order == SortOrder::Descending;
    let key = |i: usize| level_code(logs[i as int].level) as u64;
    let before = number_before(key, descending);
    crate::sort::lemma_number_before_order(key, descending);
    crate::sort::lemma_arranged_sorts(ids, log_order(logs, w.sort_by, w.sort_order));
    let r = w.arrange_ids(ids);
    assert forall|k: int, l: int|
        #![trigger r[k], r[l]]
        0 <= k < l < r.len() implies {
            let a = logs[r[k] as int].level;
            let b = logs[r[l] as int].level;
            &&& w.sort_order == SortOrder::Ascending ==> level_code(a) <= level_code(b)
            &&& w.sort_order == SortOrder::Descending ==> level_code(a) >= level_code(b)
            &&& level_code(a) == level_code(b) ==> r[k] < r[l]
        } by {
        assert(before(r[k], r[l]));
    }
}

/// A record is among the matches exactly when it passes the level filter
/// and the search text.
proof fn lemma_matches_upto_contains(
    logs: Seq<ResolvedLog>,
    level_filter: Option<Seq<char>>,
    query: Option<Seq<char>>,
    n: nat,
    i: usize,
)
    requires
        n <= logs.len() <= usize::MAX,
    ensures
        matches_upto(logs, level_filter, query, n).contains(i) <==> i < n && log_matches(
            logs[i as int],
            level_filter,
            query,
        ),
    decreases n,
{
    if n > 0 {
        lemma_matches_upto_contains(logs, level_filter, query, (n - 1) as nat, i);
        lemma_matches_upto_props(logs, level_filter, query, (n - 1) as nat);
        let r = matches_upto(logs, level_filter, query, (n - 1) as nat);
        if log_matches(logs[n - 1], level_filter, query) {
            let s2 = r.push((n - 1) as usize);
            assert(s2.contains(i) <==> (r.contains(i) || i == n - 1)) by {
                if s2.contains(i) && !r.contains(i) {
                    let j = choose|j: int| 0 <= j < s2.len() && #[trigger] s2[j] == i;
                    if j < r.len() {
                        assert(r[j] == i);
                    }
                }
                if i == n - 1 {
                    assert(s2[r.len() as int] == i);
                }
                if r.contains(i) {
                    let j = choose|j: int| 0 <= j < r.len() && #[trigger] r[j] == i;
                    assert(s2[j] == i);
                }
            }
        }
        if r.contains(i) {
            let j = choose|j: int| 0 <= j < r.len() && r[j] == i;
            assert(r[j] < n - 1);
        }
    }
}

/// The search finds a record by any of its fields: with no level filter
/// and a search text, record `i` is shown (among the matching records, in
/// whatever order the table lists them) exactly when its lower-cased
/// message, level name, target or file, or its timestamp, contains the
/// lower-cased search text.
pub proof fn lemma_search_by_fields<'a>(w: LogsWidget<'a>, i: usize)
    requires
        w.level_filter is None,
        w.search_query@.len() > 0,
        i < w.logs@.len(),
        w.logs@.len() <= usize::MAX,
    ensures
        ({
            let q = lowercase(w.search_query@);
            let ev = w.logs@[i as int];
            let found = has_substring(lowercase(ev.message@), q) || has_substring(lowercase(level_text(ev.level)), q)
                || has_substring(lowercase(ev.target@), q) || has_substring(ev.timestamp@, q) || has_substring(
                lowercase(ev.file@),
                q,
            );
            &&& w.matched().contains(i) <==> found
            &&& w.arrange_ids(w.matched()).contains(i) <==> found
        }),
{
    lemma_matches_upto_contains(w.logs@, opt_text(w.level_filter), w.query(), w.logs@.len(), i);
    lemma_matches_upto_props(w.logs@, opt_text(w.level_filter), w.query(), w.logs@.len());
    let logs = w.logs@;
    let descending = w.sort_order == SortOrder::Descending;
    match w.sort_by {
        SortBy::Time => crate::sort::lemma_number_before_order(
            |j: usize| stamp_millis(logs[j as int].timestamp@),
            descending,
        ),
        SortBy::Level => crate::sort::lemma_number_before_order(
            |j: usize| level_code(logs[j as int].level) as u64,
            descending,
        ),
        SortBy::Message => crate::sort::lemma_text_before_order(|j: usize| logs[j as int].message@, descending),
    }
    crate::sort::lemma_arranged_sorts(w.matched(), log_order(logs, w.sort_by, w.sort_order));
    vstd::seq_lib::to_multiset_contains(w.matched(), i);
    vstd::seq_lib::to_multiset_contains(w.arrange_ids(w.matched()), i);
}

/// Home and `g` in the normal view go to the first row: on a table of at
/// most 10000 records the cursor moves to row 0 and the window stays; on
/// a larger one the cursor and the window both go to the start. Nothing
/// else changes.
pub proof fn lemma_home_goes_to_first_row<'a>(
    w: LogsWidget<'a>,
    key: KeyCode,
    content_height: Option<u16>,
    post: LogsWidget<'a>,
)
    requires
        w.focused,
        w.view_state == ViewState::Normal,
        key == KeyCode::Home || key == KeyCode::Char('g'),
        w.key_result(key, content_height, post),
    ensures
        post.selected_row == 0,
        post.virtual_scroll_offset == (if w.logs@.len() > 10000 {
            0
        } else {
            w.virtual_scroll_offset
        }),
        post == (LogsWidget {
            selected_row: post.selected_row,
            virtual_scroll_offset: post.virtual_scroll_offset,
            ..w
        }),
{
}

} // verus!

verus! {

/// The table never shows more rows than a `usize` counts.
proof fn lemma_visible_rows_fit<'a>(w: LogsWidget<'a>)
    ensures
        w.visible_rows().len() <= usize::MAX,
{
    assert(w.logs@.len() == w.logs.len());
    w.lemma_matched_props();
    let logs = w.logs@;
    let descending = w.sort_order == SortOrder::Descending;
    match w.sort_by {
        SortBy::Time => crate::sort::lemma_number_before_order(
            |j: usize| stamp_millis(logs[j as int].timestamp@),
            descending,
        ),
        SortBy::Level => crate::sort::lemma_number_before_order(
            |j: usize| level_code(logs[j as int].level) as u64,
            descending,
        ),
        SortBy::Message => crate::sort::lemma_text_before_order(|j: usize| logs[j as int].message@, descending),
    }
    crate::sort::lemma_arranged_sorts(w.matched(), log_order(logs, w.sort_by, w.sort_order));
    vstd::seq_lib::to_multiset_len(w.matched());
    vstd::seq_lib::to_multiset_len(w.arrange_ids(w.matched()));
    let win = w.window_ids();
    assert(win.len() <= w.matched().len());
    assert(win.no_duplicates()) by {
        assert forall|a: int, b: int| 0 <= a < win.len() && 0 <= b < win.len() && a != b implies win[a] != win[b] by {
            if win.len() > 0 {
                let start = w.virtual_scroll_offset as int;
                assert(win[a] == w.matched()[start + a]);
                assert(win[b] == w.matched()[start + b]);
            }
        }
    }
    crate::sort::lemma_arranged_sorts(win, log_order(logs, w.sort_by, w.sort_order));
    vstd::seq_lib::to_multiset_len(win);
    vstd::seq_lib::to_multiset_len(w.arrange_ids(win));
    match w.cached_filtered_logs {
        Some(c) => {
            assert(c@.len() == c.len());
        },
        None => {},
    }
    assert(w.visible_rows().len() <= usize::MAX);
}

/// On a table of at most 10000 records, Down/`j` in the normal view moves
/// the selection one row down, staying put at the last shown row; the
/// window and everything else stay.
#[verifier::rlimit(40)]
pub proof fn lemma_down_key_small_table<'a>(
    w: LogsWidget<'a>,
    key: KeyCode,
    content_height: Option<u16>,
    post: LogsWidget<'a>,
)
    requires
        w.focused,
        w.view_state == ViewState::Normal,
        w.logs@.len() <= 10000,
        key == KeyCode::Down || key == KeyCode::Char('j'),
        w.key_result(key, content_height, post),
    ensures
        post == (LogsWidget { selected_row: post.selected_row, ..w }),
        post.selected_row == (if w.selected_row + 1 < w.visible_rows().len() {
            w.selected_row + 1
        } else {
            w.selected_row as int
        }),
{
    lemma_visible_rows_fit(w);
    assert(w.nav_for_key(key) == Some(w.cursor_down_nav()));
}

/// Up/`k` in the normal view moves the selection one row up, staying put
/// at the first row, on a table of at most 10000 records; the window and
/// everything else stay.
pub proof fn lemma_up_key_small_table<'a>(
    w: LogsWidget<'a>,
    key: KeyCode,
    content_height: Option<u16>,
    post: LogsWidget<'a>,
)
    requires
        w.focused,
        w.view_state == ViewState::Normal,
        w.logs@.len() <= 10000,
        key == KeyCode::Up || key == KeyCode::Char('k'),
        w.key_result(key, content_height, post),
    ensures
        post == (LogsWidget { selected_row: post.selected_row, ..w }),
        post.selected_row == (if w.selected_row > 0 {
            w.selected_row - 1
        } else {
            0
        }),
{
    assert(w.nav_for_key(key) == Some(w.cursor_up_nav()));
}

/// End/`G` in the normal view selects the last shown row, on a table of
/// at most 10000 records with rows shown; the window and everything else
/// stay.
#[verifier::rlimit(40)]
pub proof fn lemma_end_key_small_table<'a>(
    w: LogsWidget<'a>,
    key: KeyCode,
    content_height: Option<u16>,
    post: LogsWidget<'a>,
)
    requires
        w.focused,
        w.view_state == ViewState::Normal,
        w.logs@.len() <= 10000,
        w.visible_rows().len() > 0,
        key == KeyCode::End || key == KeyCode::Char('G'),
        w.key_result(key, content_height, post),
    ensures
        post == (LogsWidget { selected_row: post.selected_row, ..w }),
        post.selected_row + 1 == w.visible_rows().len(),
{
    lemma_visible_rows_fit(w);
    assert(w.nav_for_key(key) == Some(w.bottom_nav()));
}

} // verus!
