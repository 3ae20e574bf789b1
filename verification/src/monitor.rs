//! When the dashboard is refreshed because the files under the log
//! directory changed, and the lines each watched file gained recently.
use vstd::prelude::*;

verus! {

/// The file counts last seen and whether the dashboard awaits a refresh.
#[derive(Debug, Clone, Copy, PartialEq, Eq, Structural)]
pub struct RefreshState {
    pub dashboard_needs_refresh: bool,
    pub last_log_file_count: usize,
    pub last_bin_file_count: usize,
    pub last_total_file_count: usize,
}

/// Refreshes are at least this many milliseconds apart.
pub const MIN_REFRESH_GAP_MS: u128 = 500;

impl RefreshState {
    /// Nothing seen yet, no refresh pending.
    pub fn new() -> (r: Self)
        ensures
            r == (RefreshState {
                dashboard_needs_refresh: false,
                last_log_file_count: 0,
                last_bin_file_count: 0,
                last_total_file_count: 0,
            }),
    {
        RefreshState {
            dashboard_needs_refresh: false,
            last_log_file_count: 0,
            last_bin_file_count: 0,
            last_total_file_count: 0,
        }
    }

    /// Whether a refresh was pending; it no longer is.
    pub fn check_and_reset_dashboard_refresh(&mut self) -> (r: bool)
        ensures
            r == old(self).dashboard_needs_refresh,
            *final(self) == (RefreshState { dashboard_needs_refresh: false, ..*old(self) }),
    {
        let needs_refresh = self.dashboard_needs_refresh;
        self.dashboard_needs_refresh = false;
        needs_refresh
    }

    /// Takes in the current file counts, `elapsed_ms` after the last
    /// refresh. When a count changed, the counts are recorded and, if at
    /// least 500 ms have passed, a refresh is requested; the result tells
    /// whether the refresh clock restarts now.
    pub fn update_file_counts(&mut self, log_count: usize, bin_count: usize, total_count: usize, elapsed_ms: u128) -> (r: bool)
        ensures
            ({
                let changed = log_count != old(self).last_log_file_count || bin_count
                    != old(self).last_bin_file_count || total_count != old(self).last_total_file_count;
                &&& r == (changed && elapsed_ms >= MIN_REFRESH_GAP_MS)
                &&& *final(self) == (if changed {
                    RefreshState {
                        dashboard_needs_refresh: old(self).dashboard_needs_refresh || r,
                        last_log_file_count: log_count,
                        last_bin_file_count: bin_count,
                        last_total_file_count: total_count,
                    }
                } else {
                    *old(self)
                })
            }),
    {
        let log_changed = log_count != self.last_log_file_count;
        let bin_changed = bin_count != self.last_bin_file_count;
        let total_changed = total_count != self.last_total_file_count;
        let mut restart = false;
        if log_changed || bin_changed || total_changed {
            if elapsed_ms >= MIN_REFRESH_GAP_MS {
                self.dashboard_needs_refresh = true;
                restart = true;
            }
            self.last_log_file_count = log_count;
            self.last_bin_file_count = bin_count;
            self.last_total_file_count = total_count;
        }
        restart
    }

    /// Takes in the lines a watched file gained, `elapsed_ms` after the
    /// last refresh. When it gained some and at least 500 ms have passed, a
    /// refresh is requested; the result tells whether the refresh clock
    /// restarts now.
    pub fn note_lines_added(&mut self, added: usize, elapsed_ms: u128) -> (r: bool)
        ensures
            r == (added > 0 && elapsed_ms >= MIN_REFRESH_GAP_MS),
            *final(self) == (RefreshState {
                dashboard_needs_refresh: old(self).dashboard_needs_refresh || r,
                ..*old(self)
            }),
    {
        if added > 0 && elapsed_ms >= MIN_REFRESH_GAP_MS {
            self.dashboard_needs_refresh = true;
            true
        } else {
            false
        }
    }
}

/// Additions are remembered for this many whole seconds.
pub const RECENT_WINDOW_SECS: u128 = 10;

/// An addition seen at clock reading `t` (nanoseconds) is still recent at
/// `now`: at most ten whole seconds have passed (none when `t` is later).
pub open spec fn is_recent(now: u128, t: u128) -> bool {
    (if now >= t {
        now - t
    } else {
        0
    }) / 1_000_000_000 <= RECENT_WINDOW_SECS
}

/// The additions still recent at `now`, in their order.
pub open spec fn recent_at(s: Seq<(u128, usize)>, now: u128) -> Seq<(u128, usize)>
    decreases s.len(),
{
    if s.len() == 0 {
        Seq::empty()
    } else {
        let init = recent_at(s.drop_last(), now);
        if is_recent(now, s.last().0) {
            init.push(s.last())
        } else {
            init
        }
    }
}

/// Only recent additions are remembered, and none is made up.
pub proof fn lemma_recent_at_recent(s: Seq<(u128, usize)>, now: u128)
    ensures
        recent_at(s, now).len() <= s.len(),
        forall|k: int| 0 <= k < recent_at(s, now).len() ==> is_recent(now, #[trigger] recent_at(s, now)[k].0),
        forall|k: int| 0 <= k < recent_at(s, now).len() ==> s.contains(#[trigger] recent_at(s, now)[k]),
    decreases s.len(),
{
    if s.len() > 0 {
        lemma_recent_at_recent(s.drop_last(), now);
        let init = recent_at(s.drop_last(), now);
        assert forall|k: int| 0 <= k < recent_at(s, now).len() implies s.contains(#[trigger] recent_at(s, now)[k]) by {
            if k < init.len() {
                let j = choose|j: int| 0 <= j < s.drop_last().len() && s.drop_last()[j] == init[k];
                assert(s[j] == recent_at(s, now)[k]);
            } else {
                assert(s[s.len() - 1] == recent_at(s, now)[k]);
            }
        }
    }
}

/// The lines of the additions.
pub open spec fn lines_of(s: Seq<(u128, usize)>) -> nat
    decreases s.len(),
{
    if s.len() == 0 {
        0
    } else {
        lines_of(s.drop_last()) + s.last().1 as nat
    }
}

/// A watched file's line count and the lines it gained recently, each
/// with the clock reading (nanoseconds) at which it was seen.
#[derive(Debug, Clone)]
pub struct FileLines {
    pub line_count: usize,
    pub recent_additions: Vec<(u128, usize)>,
}

impl FileLines {
    /// A file first seen with `line_count` lines.
    pub fn new(line_count: usize) -> (r: Self)
        ensures
            r.line_count == line_count,
            r.recent_additions@ == Seq::<(u128, usize)>::empty(),
    {
        FileLines { line_count, recent_additions: Vec::new() }
    }

    /// Takes in the file's line count at clock reading `now`: the lines it
    /// gained (none when it shrank) are remembered with `now`, additions no
    /// longer recent are forgotten, and the count is kept. Returns the
    /// lines gained.
    pub fn record_count(&mut self, now: u128, new_line_count: usize) -> (added: usize)
        ensures
            added == (if new_line_count > old(self).line_count {
                new_line_count - old(self).line_count
            } else {
                0
            }),
            final(self).line_count == new_line_count,
            final(self).recent_additions@ == recent_at(
                old(self).recent_additions@ + (if added > 0 {
                    seq![(now, added)]
                } else {
                    Seq::empty()
                }),
                now,
            ),
    {
        let added = new_line_count.saturating_sub(self.line_count);
        let ghost all = old(self).recent_additions@ + (if added > 0 {
            seq![(now, added)]
        } else {
            Seq::<(u128, usize)>::empty()
        });
        if added > 0 {
            self.recent_additions.push((now, added));
        }
        assert(self.recent_additions@ =~= all);
        let mut kept: Vec<(u128, usize)> = Vec::new();
        for i in 0..self.recent_additions.len()
            invariant
                self.recent_additions@ == all,
                kept@ == recent_at(all.take(i as int), now),
        {
            let (t, n) = self.recent_additions[i];
            assert(all.take(i + 1).drop_last() =~= all.take(i as int));
            let age = if now >= t {
                now - t
            } else {
                0
            };
            if age / 1_000_000_000 <= RECENT_WINDOW_SECS {
                kept.push((t, n));
            }
        }
        assert(all.take(all.len() as int) =~= all);
        self.recent_additions = kept;
        self.line_count = new_line_count;
        added
    }

    /// The lines of the recent additions.
    pub fn recent_total(&self) -> (r: u128)
        ensures
            r == lines_of(self.recent_additions@),
    {
        let v = &self.recent_additions;
        let mut total: u128 = 0;
        for i in 0..v.len()
            invariant
                total == lines_of(v@.take(i as int)),
                total <= i * (usize::MAX as int),
                v.len() <= usize::MAX,
        {
            assert(v@.take(i + 1).drop_last() =~= v@.take(i as int));
            assert((i + 1) * (usize::MAX as int) <= (usize::MAX as int) * (usize::MAX as int)) by (nonlinear_arith)
                requires
                    i + 1 <= usize::MAX,
            ;
            total = total + v[i].1 as u128;
        }
        assert(v@.take(v.len() as int) =~= v@);
        total
    }
}

} // verus!
