//! The events-per-second series drawn by the events graph: one point per
//! tick, the last 120 kept.
use vstd::prelude::*;

verus! {

/// The graph keeps this many points.
pub const MAX_POINTS: usize = 120;

/// The points after adding one at the end: the oldest is dropped once
/// there are more than `MAX_POINTS`.
pub open spec fn pushed(points: Seq<(u64, usize)>, p: (u64, usize)) -> Seq<(u64, usize)> {
    if points.len() + 1 > MAX_POINTS {
        points.push(p).drop_first()
    } else {
        points.push(p)
    }
}

/// The series: (tick, events per second) points, oldest first, the latest
/// rate and the number of the next tick.
#[derive(Debug, Clone)]
pub struct RateSeries {
    pub points: Vec<(u64, usize)>,
    pub events_per_sec: usize,
    pub tick: u64,
}

impl RateSeries {
    /// No points yet; the first tick is number 0.
    pub fn new() -> (r: Self)
        ensures
            r.points@ == Seq::<(u64, usize)>::empty(),
            r.events_per_sec == 0,
            r.tick == 0,
    {
        RateSeries { points: Vec::new(), events_per_sec: 0, tick: 0 }
    }

    /// Records the rate of this tick as a point and moves to the next tick;
    /// the tick number stops growing at its largest value, as a float
    /// counter stops once adding one no longer changes it.
    pub fn on_tick(&mut self, events_per_sec: usize)
        ensures
            final(self).points@ == pushed(old(self).points@, (old(self).tick, events_per_sec)),
            final(self).events_per_sec == events_per_sec,
            final(self).tick == (if old(self).tick < u64::MAX {
                old(self).tick + 1
            } else {
                u64::MAX as int
            }),
    {
        let ghost before = self.points@;
        self.events_per_sec = events_per_sec;
        self.points.push((self.tick, events_per_sec));
        self.tick = self.tick.saturating_add(1);
        if self.points.len() > MAX_POINTS {
            self.points.remove(0);
            assert(self.points@ =~= before.push((old(self).tick, events_per_sec)).drop_first());
        }
    }
}

/// A tick never leaves more than `MAX_POINTS` points when there were no
/// more before: the new point comes last, the count grows by one up to
/// `MAX_POINTS`, and at `MAX_POINTS` the oldest point is the one dropped.
pub proof fn lemma_pushed_bounded(points: Seq<(u64, usize)>, p: (u64, usize))
    requires
        points.len() <= MAX_POINTS,
    ensures
        pushed(points, p).len() == (if points.len() + 1 > MAX_POINTS {
            MAX_POINTS as int
        } else {
            points.len() + 1int
        }),
        pushed(points, p).last() == p,
        points.len() == MAX_POINTS ==> pushed(points, p).take(MAX_POINTS - 1) == points.skip(1),
{
    if points.len() == MAX_POINTS {
        assert(pushed(points, p).take(MAX_POINTS - 1) =~= points.skip(1));
    }
}

} // verus!
