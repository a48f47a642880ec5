//! Rolling sample buffers behind the TUI history graph.

use crate::degrees::Celsius;
use crate::sensors;
use crate::sensors::Fan;
use crate::sensors::FanView;
use crate::sensors::Temps;
use std::collections::VecDeque;
use vstd::prelude::*;

verus! {

/// A capped series of samples: the time since the start, in nanoseconds, and the
/// value.
#[derive(Debug)]
pub struct Series {
    samples: VecDeque<(u128, u32)>,
    capacity: usize,
}

/// The samples that a series of the given capacity keeps of `all`: the most
/// recent ones.
pub open spec fn recent<T>(all: Seq<T>, capacity: nat) -> Seq<T> {
    if all.len() > capacity {
        all.skip(all.len() - capacity)
    } else {
        all
    }
}

impl Series {
    pub closed spec fn view(&self) -> Seq<(u128, u32)> {
        self.samples@
    }

    pub closed spec fn limit(self) -> nat {
        self.capacity as nat
    }

    pub open spec fn well_formed(self) -> bool {
        &&& self.limit() >= 2
        &&& self@.len() <= self.limit()
    }

    fn new(capacity: usize) -> (r: Self)
        requires
            capacity >= 2,
        ensures
            r.well_formed(),
            r@.len() == 0,
            r.limit() == capacity,
    {
        Series { samples: VecDeque::new(), capacity }
    }

    fn push(&mut self, at: u128, value: u32)
        requires
            old(self).well_formed(),
        ensures
            final(self).well_formed(),
            final(self).limit() == old(self).limit(),
            final(self)@ == recent(old(self)@.push((at, value)), old(self).limit()),
    {
        let ghost start = self@;
        if self.samples.len() >= self.capacity {
            let oldest: Option<(u128, u32)> = self.samples.pop_front();
        }
        self.samples.push_back((at, value));
        proof {
            assert(self@ =~= recent(start.push((at, value)), self.limit()));
        }
    }

    /// The samples as a contiguous buffer, ready for a chart dataset.
    pub fn points(&self) -> (r: Vec<(u128, u32)>)
        ensures
            r@ == self@,
    {
        let mut points: Vec<(u128, u32)> = Vec::new();
        let mut i: usize = 0;
        while i < self.samples.len()
            invariant
                i <= self.samples@.len(),
                points@ == self.samples@.take(i as int),
            decreases self.samples@.len() - i,
        {
            points.push(self.samples[i]);
            i = i + 1;
            proof {
                assert(points@ =~= self.samples@.take(i as int));
            }
        }
        proof {
            assert(points@ =~= self@);
        }
        points
    }
}

/// The temperatures as bit patterns, the speed of the fastest fan as a number.
#[derive(Debug)]
pub struct History {
    pub cpu: Series,
    pub gpu: Series,
    pub rpm: Series,
}

/// The samples of a series after a reading.
pub open spec fn sampled(
    before: Seq<(u128, u32)>,
    capacity: nat,
    at: u128,
    value: Option<u32>,
) -> Seq<(u128, u32)> {
    match value {
        Some(v) => recent(before.push((at, v)), capacity),
        None => before,
    }
}

/// A temperature as a value of a series.
pub open spec fn pattern(temp: Option<Celsius>) -> Option<u32> {
    match temp {
        Some(t) => Some(t.bits),
        None => None,
    }
}

/// The speed of the fastest fan, if there is one.
pub open spec fn fastest(fans: Seq<FanView>) -> Option<u32>
    decreases fans.len(),
{
    if fans.len() == 0 {
        None
    } else {
        match fastest(fans.drop_last()) {
            Some(rpm) => Some(
                if rpm >= fans.last().rpm {
                    rpm
                } else {
                    fans.last().rpm
                },
            ),
            None => Some(fans.last().rpm),
        }
    }
}

fn top_speed(fans: &[Fan]) -> (r: Option<u32>)
    ensures
        r == fastest(sensors::fan_views(fans@)),
{
    let ghost all = sensors::fan_views(fans@);
    let mut top: Option<u32> = None;
    let mut i: usize = 0;
    while i < fans.len()
        invariant
            all == sensors::fan_views(fans@),
            i <= fans@.len(),
            top == fastest(all.take(i as int)),
        decreases fans@.len() - i,
    {
        let rpm: u32 = fans[i].rpm;
        top = match top {
            Some(t) => if t >= rpm {
                Some(t)
            } else {
                Some(rpm)
            },
            None => Some(rpm),
        };
        i = i + 1;
        proof {
            assert(all.take(i as int).drop_last() =~= all.take(i - 1));
            assert(all[i - 1] == fans@[i - 1]@);
        }
    }
    proof {
        assert(all.take(i as int) =~= all);
    }
    top
}

/// The number of samples that a series keeps when asked for `capacity`.
pub open spec fn kept(capacity: usize) -> nat {
    if capacity >= 2 {
        capacity as nat
    } else {
        2
    }
}

/// What a history holds.
#[verifier::ext_equal]
pub struct HistoryView {
    pub cpu: Seq<(u128, u32)>,
    pub gpu: Seq<(u128, u32)>,
    pub rpm: Seq<(u128, u32)>,
    /// The number of samples that each series keeps.
    pub limit: nat,
}

impl HistoryView {
    /// No samples, in series that keep `limit` of them.
    pub open spec fn empty(limit: nat) -> HistoryView {
        HistoryView { cpu: Seq::empty(), gpu: Seq::empty(), rpm: Seq::empty(), limit }
    }

    /// The history after a reading.
    pub open spec fn extended(self, at: u128, temps: Temps, fans: Seq<FanView>) -> HistoryView {
        HistoryView {
            cpu: sampled(self.cpu, self.limit, at, pattern(temps.cpu)),
            gpu: sampled(self.gpu, self.limit, at, pattern(temps.gpu)),
            rpm: sampled(self.rpm, self.limit, at, fastest(fans)),
            limit: self.limit,
        }
    }
}

impl View for History {
    type V = HistoryView;

    open spec fn view(&self) -> HistoryView {
        HistoryView {
            cpu: self.cpu@,
            gpu: self.gpu@,
            rpm: self.rpm@,
            limit: self.cpu.limit(),
        }
    }
}

impl History {
    pub open spec fn well_formed(self) -> bool {
        &&& self.cpu.well_formed()
        &&& self.gpu.well_formed()
        &&& self.rpm.well_formed()
        &&& self.cpu.limit() == self.gpu.limit() == self.rpm.limit()
    }

    /// An empty history. Two points are the minimum a line chart can draw.
    pub fn new(capacity: usize) -> (r: Self)
        ensures
            r.well_formed(),
            r@ == HistoryView::empty(kept(capacity)),
    {
        let capacity: usize = if capacity >= 2 {
            capacity
        } else {
            2
        };
        History {
            cpu: Series::new(capacity),
            gpu: Series::new(capacity),
            rpm: Series::new(capacity),
        }
    }

    /// Records one sample per available reading, `at` nanoseconds after the
    /// start. Missing readings simply leave their series untouched.
    pub fn push(&mut self, at: u128, temps: Temps, fans: &[Fan])
        requires
            old(self).well_formed(),
        ensures
            final(self).well_formed(),
            final(self)@ == old(self)@.extended(at, temps, sensors::fan_views(fans@)),
    {
        match temps.cpu {
            Some(cpu) => self.cpu.push(at, cpu.bits),
            None => {},
        }
        match temps.gpu {
            Some(gpu) => self.gpu.push(at, gpu.bits),
            None => {},
        }
        match top_speed(fans) {
            Some(rpm) => self.rpm.push(at, rpm),
            None => {},
        }
    }
}

// --- Laws ---

/// What one push hands to a history.
pub struct Taken {
    pub at: u128,
    pub temps: Temps,
    pub fans: Seq<FanView>,
}

/// A history after any number of pushes.
pub open spec fn pushed(start: HistoryView, all: Seq<Taken>) -> HistoryView
    decreases all.len(),
{
    if all.len() == 0 {
        start
    } else {
        let last = all.last();
        pushed(start, all.drop_last()).extended(last.at, last.temps, last.fans)
    }
}

/// What the pushes read of one value, oldest first: those that had it, each with
/// its time.
pub open spec fn readings(all: Seq<Taken>, value: spec_fn(Taken) -> Option<u32>) -> Seq<(u128, u32)>
    decreases all.len(),
{
    if all.len() == 0 {
        Seq::empty()
    } else {
        let before = readings(all.drop_last(), value);
        match value(all.last()) {
            Some(v) => before.push((all.last().at, v)),
            None => before,
        }
    }
}

pub open spec fn cpu_of() -> spec_fn(Taken) -> Option<u32> {
    |t: Taken| pattern(t.temps.cpu)
}

pub open spec fn gpu_of() -> spec_fn(Taken) -> Option<u32> {
    |t: Taken| pattern(t.temps.gpu)
}

/// The speed of the fastest fan, of a push with fans.
pub open spec fn rpm_of() -> spec_fn(Taken) -> Option<u32> {
    |t: Taken| fastest(t.fans)
}

/// However often a new history is pushed to, each series holds the most recent
/// readings of its value, all of them while they fit, oldest first.
pub proof fn law_a_history_keeps_the_most_recent_readings(capacity: usize, all: Seq<Taken>)
    ensures
        pushed(HistoryView::empty(kept(capacity)), all) == (HistoryView {
            cpu: recent(readings(all, cpu_of()), kept(capacity)),
            gpu: recent(readings(all, gpu_of()), kept(capacity)),
            rpm: recent(readings(all, rpm_of()), kept(capacity)),
            limit: kept(capacity),
        }),
    decreases all.len(),
{
    if all.len() > 0 {
        let front = all.drop_last();
        let limit = kept(capacity);
        law_a_history_keeps_the_most_recent_readings(capacity, front);
        let at = all.last().at;
        lemma_recent_of_recent(readings(front, cpu_of()), limit, at, cpu_of()(all.last()));
        lemma_recent_of_recent(readings(front, gpu_of()), limit, at, gpu_of()(all.last()));
        lemma_recent_of_recent(readings(front, rpm_of()), limit, at, rpm_of()(all.last()));
    }
}

/// Dropping what no longer fits at every step drops no more than dropping it at
/// the end.
proof fn lemma_recent_of_recent(
    all: Seq<(u128, u32)>,
    capacity: nat,
    at: u128,
    value: Option<u32>,
)
    requires
        capacity >= 2,
    ensures
        sampled(recent(all, capacity), capacity, at, value) == match value {
            Some(v) => recent(all.push((at, v)), capacity),
            None => recent(all, capacity),
        },
{
    if value is Some {
        let next = (at, value->0);
        assert(recent(recent(all, capacity).push(next), capacity) =~= recent(
            all.push(next),
            capacity,
        ));
    }
}

/// A push without a reading leaves the series of that value as it was.
pub proof fn law_a_missing_reading_changes_nothing(
    start: HistoryView,
    at: u128,
    temps: Temps,
    fans: Seq<FanView>,
)
    ensures
        temps.cpu is None ==> start.extended(at, temps, fans).cpu == start.cpu,
        temps.gpu is None ==> start.extended(at, temps, fans).gpu == start.gpu,
        fans.len() == 0 ==> start.extended(at, temps, fans).rpm == start.rpm,
{
}

/// The fan series follows a fan that no other outruns.
pub proof fn law_the_fastest_fan_is_recorded(fans: Seq<FanView>)
    ensures
        match fastest(fans) {
            Some(rpm) => {
                &&& exists|i: int| 0 <= i < fans.len() && (#[trigger] fans[i]).rpm == rpm
                &&& forall|i: int| 0 <= i < fans.len() ==> (#[trigger] fans[i]).rpm <= rpm
            },
            None => fans.len() == 0,
        },
    decreases fans.len(),
{
    if fans.len() > 0 {
        let front = fans.drop_last();
        law_the_fastest_fan_is_recorded(front);
        let rpm = fastest(fans)->0;
        assert forall|i: int| 0 <= i < fans.len() implies (#[trigger] fans[i]).rpm <= rpm by {
            if i < front.len() {
                assert(front[i].rpm <= fastest(front)->0);
            }
        }
        if rpm == fans.last().rpm {
            assert(fans[fans.len() - 1].rpm == rpm);
        } else {
            let i = choose|i: int| 0 <= i < front.len() && (#[trigger] front[i]).rpm == rpm;
            assert(fans[i].rpm == rpm);
        }
    }
}

/// Whether samples stand in the order of time.
pub open spec fn in_time(samples: Seq<(u128, u32)>) -> bool {
    forall|i: int, j: int|
        0 <= i <= j < samples.len() ==> (#[trigger] samples[i]).0 <= (#[trigger] samples[j]).0
}

/// Where no push is earlier than the one before it, the samples of every series
/// stand in the order of time.
pub proof fn law_samples_advance_in_time(capacity: usize, all: Seq<Taken>)
    requires
        forall|i: int, j: int|
            0 <= i <= j < all.len() ==> (#[trigger] all[i]).at <= (#[trigger] all[j]).at,
    ensures
        in_time(pushed(HistoryView::empty(kept(capacity)), all).cpu),
        in_time(pushed(HistoryView::empty(kept(capacity)), all).gpu),
        in_time(pushed(HistoryView::empty(kept(capacity)), all).rpm),
{
    law_a_history_keeps_the_most_recent_readings(capacity, all);
    lemma_readings_in_time(all, cpu_of());
    lemma_readings_in_time(all, gpu_of());
    lemma_readings_in_time(all, rpm_of());
}

proof fn lemma_readings_in_time(all: Seq<Taken>, value: spec_fn(Taken) -> Option<u32>)
    requires
        forall|i: int, j: int|
            0 <= i <= j < all.len() ==> (#[trigger] all[i]).at <= (#[trigger] all[j]).at,
    ensures
        in_time(readings(all, value)),
        forall|i: int|
            0 <= i < readings(all, value).len() ==> (#[trigger] readings(all, value)[i]).0
                <= all.last().at,
    decreases all.len(),
{
    if all.len() > 0 {
        let front = all.drop_last();
        lemma_readings_in_time(front, value);
        if front.len() > 0 {
            assert(front.last().at <= all.last().at) by {
                assert(all[all.len() - 2].at <= all[all.len() - 1].at);
            }
        }
    }
}

/// A push adds a reading behind those of its series, and the oldest makes room
/// where the series is full; a series without a reading stays as it was. The
/// readings of the fans are the speed of the fastest.
pub proof fn law_a_push_adds_at_the_end(
    history: &mut History,
    at: u128,
    temps: Temps,
    fans: &[Fan],
    done: (),
    i: int,
)
    requires
        call_ensures(History::push, (history, at, temps, fans), done),
        old(history).well_formed(),
    ensures
        temps.cpu is None ==> final(history)@.cpu == old(history)@.cpu,
        temps.cpu matches Some(t) ==> final(history)@.cpu == if old(history)@.cpu.len() < old(
            history,
        )@.limit {
            old(history)@.cpu.push((at, t.bits))
        } else {
            old(history)@.cpu.drop_first().push((at, t.bits))
        },
        temps.gpu is None ==> final(history)@.gpu == old(history)@.gpu,
        temps.gpu matches Some(t) ==> final(history)@.gpu == if old(history)@.gpu.len() < old(
            history,
        )@.limit {
            old(history)@.gpu.push((at, t.bits))
        } else {
            old(history)@.gpu.drop_first().push((at, t.bits))
        },
        fans@.len() == 0 ==> final(history)@.rpm == old(history)@.rpm,
        fans@.len() > 0 ==> {
            let last = final(history)@.rpm.last();
            &&& last.0 == at
            &&& 0 <= i < fans@.len() ==> fans@[i].rpm <= last.1
            &&& exists|k: int| 0 <= k < fans@.len() && (#[trigger] fans@[k]).rpm == last.1
            &&& final(history)@.rpm == if old(history)@.rpm.len() < old(history)@.limit {
                old(history)@.rpm.push(last)
            } else {
                old(history)@.rpm.drop_first().push(last)
            }
        },
        final(history)@.limit == old(history)@.limit,
{
    let before = old(history)@;
    let limit = before.limit;
    let views = sensors::fan_views(fans@);
    law_the_fastest_fan_is_recorded(views);
    if temps.cpu is Some {
        let x = (at, temps.cpu->0.bits);
        assert(recent(before.cpu.push(x), limit) =~= if before.cpu.len() < limit {
            before.cpu.push(x)
        } else {
            before.cpu.drop_first().push(x)
        });
    }
    if temps.gpu is Some {
        let x = (at, temps.gpu->0.bits);
        assert(recent(before.gpu.push(x), limit) =~= if before.gpu.len() < limit {
            before.gpu.push(x)
        } else {
            before.gpu.drop_first().push(x)
        });
    }
    if fans@.len() > 0 {
        let rpm = fastest(views)->0;
        let x = (at, rpm);
        assert(recent(before.rpm.push(x), limit) =~= if before.rpm.len() < limit {
            before.rpm.push(x)
        } else {
            before.rpm.drop_first().push(x)
        });
        assert(final(history)@.rpm.last() == x);
        let k = choose|k: int| 0 <= k < views.len() && (#[trigger] views[k]).rpm == rpm;
        assert(fans@[k].rpm == rpm);
        if 0 <= i < fans@.len() {
            assert(views[i].rpm <= rpm);
        }
    }
}

/// A new history is empty and keeps as many samples as it was made for, but never
/// fewer than two.
pub proof fn law_a_new_history_is_empty(capacity: usize, r: History)
    requires
        call_ensures(History::new, (capacity,), r),
    ensures
        r@.cpu.len() == 0,
        r@.gpu.len() == 0,
        r@.rpm.len() == 0,
        capacity >= 2 ==> r@.limit == capacity,
        capacity < 2 ==> r@.limit == 2,
{
}

/// The samples that a series shows are those that it holds, oldest first.
pub proof fn law_points_are_shown_oldest_first(series: Series, r: Vec<(u128, u32)>)
    requires
        call_ensures(Series::points, (&series,), r),
    ensures
        r@ == series@,
{
}

} // verus!
