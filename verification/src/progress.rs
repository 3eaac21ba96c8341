//! How far a job has come.

use vstd::prelude::*;

verus! {

/// A progress report: the bytes done, out of all bytes.
#[derive(Debug, Clone, Copy, PartialEq, Eq, Structural)]
pub struct ProgressData {
    pub done: u64,
    pub total: u64,
}

/// Turns the archive writer's events, which count the bytes of one member at a
/// time, into progress through the whole job.
#[derive(Debug, Clone, Copy, PartialEq, Eq, Structural)]
pub struct ProgressMeter {
    /// The count in the last event.
    pub last: u64,
    /// The bytes counted so far, over all members, modulo 2^64.
    pub counted: u64,
    /// The bytes of the job.
    pub total: u64,
}

/// By how much an event moves on from the last one. An event of zero starts a
/// member anew.
pub open spec fn advance(last: u64, done: u64) -> int {
    if done > last {
        done - last
    } else {
        0
    }
}

/// The meter after an event.
pub open spec fn after_event(meter: ProgressMeter, done: u64) -> ProgressMeter {
    ProgressMeter {
        last: done,
        counted: ((meter.counted + advance(meter.last, done)) % 0x1_0000_0000_0000_0000) as u64,
        total: meter.total,
    }
}

/// What a meter reports: never more than the whole.
pub open spec fn reported(meter: ProgressMeter) -> ProgressData {
    ProgressData {
        done: if meter.counted < meter.total {
            meter.counted
        } else {
            meter.total
        },
        total: meter.total,
    }
}

impl ProgressMeter {
    /// A meter at the start of a job of `total` bytes.
    pub fn new(total: u64) -> (r: ProgressMeter)
        ensures
            r == (ProgressMeter { last: 0, counted: 0, total }),
    {
        ProgressMeter { last: 0, counted: 0, total }
    }

    /// Takes in an event: `done` bytes of the current member are written.
    pub fn record(&mut self, done: u64) -> (r: ProgressData)
        ensures
            *final(self) == after_event(*old(self), done),
            r == reported(*final(self)),
    {
        let prev: u64 = if done == 0 {
            0
        } else {
            self.last
        };
        let delta = done.saturating_sub(prev);
        self.last = done;
        self.counted = self.counted.wrapping_add(delta);
        ProgressData {
            done: if self.counted < self.total {
                self.counted
            } else {
                self.total
            },
            total: self.total,
        }
    }
}

/// The last report of a job, once the archive is closed.
pub fn completed(total: u64) -> (r: ProgressData)
    ensures
        r == (ProgressData { done: total, total }),
{
    ProgressData { done: total, total }
}

/// The meter after a row of events.
pub open spec fn after_events(meter: ProgressMeter, events: Seq<u64>) -> ProgressMeter
    decreases events.len(),
{
    if events.len() == 0 {
        meter
    } else {
        after_event(after_events(meter, events.drop_last()), events.last())
    }
}

/// The events of one member: they start at zero, and never fall.
pub open spec fn is_member_run(events: Seq<u64>) -> bool {
    &&& events.len() > 0
    &&& events[0] == 0
    &&& forall|i: int, j: int| 0 <= i <= j < events.len() ==> events[i] <= events[j]
}

/// The bytes that the last events of some members' runs count together.
pub open spec fn members_size(runs: Seq<Seq<u64>>) -> int
    decreases runs.len(),
{
    if runs.len() == 0 {
        0
    } else {
        members_size(runs.drop_last()) + runs.last().last()
    }
}

/// A report never says more than the whole job, and says how much that is.
pub proof fn law_reports_stay_within_the_job(meter: ProgressMeter, done: u64)
    ensures
        reported(after_event(meter, done)).done <= meter.total,
        reported(after_event(meter, done)).total == meter.total,
{
}

/// While the count has not run past 64 bits, an event never takes progress
/// back.
pub proof fn law_progress_never_falls(meter: ProgressMeter, done: u64)
    requires
        meter.counted + advance(meter.last, done) <= u64::MAX,
    ensures
        reported(after_event(meter, done)).done >= reported(meter).done,
{
}

/// A member's run adds what its last event counts, and nothing twice, whatever
/// came before it.
pub proof fn law_member_counts_once(meter: ProgressMeter, events: Seq<u64>)
    requires
        is_member_run(events),
        meter.counted + events.last() <= u64::MAX,
    ensures
        after_events(meter, events).counted == meter.counted + events.last(),
        after_events(meter, events).last == events.last(),
        after_events(meter, events).total == meter.total,
    decreases events.len(),
{
    let before = events.drop_last();
    if before.len() == 0 {
        assert(after_events(meter, before) == meter);
    } else {
        assert(before.last() == events[events.len() - 2]);
        law_member_counts_once(meter, before);
    }
}

/// Rows of events take effect one after the other.
proof fn lemma_rows_of_events(meter: ProgressMeter, first: Seq<u64>, second: Seq<u64>)
    ensures
        after_events(meter, first + second) == after_events(after_events(meter, first), second),
    decreases second.len(),
{
    if second.len() == 0 {
        assert(first + second == first);
    } else {
        assert((first + second).drop_last() == first + second.drop_last());
        lemma_rows_of_events(meter, first, second.drop_last());
    }
}

/// After the runs of all members, the meter has counted each member's bytes
/// once; where they are the bytes of the job, it reports the job as done.
pub proof fn law_members_add_up(total: u64, runs: Seq<Seq<u64>>)
    requires
        forall|i: int| 0 <= i < runs.len() ==> is_member_run(#[trigger] runs[i]),
        members_size(runs) <= u64::MAX,
    ensures
        after_events(
            ProgressMeter { last: 0, counted: 0, total },
            runs.flatten(),
        ).counted == members_size(runs),
        members_size(runs) == total ==> reported(
            after_events(ProgressMeter { last: 0, counted: 0, total }, runs.flatten()),
        ) == (ProgressData { done: total, total }),
    decreases runs.len(),
{
    let start = ProgressMeter { last: 0, counted: 0, total };
    lemma_total_stays(start, runs.flatten());
    if runs.len() == 0 {
        assert(runs.flatten() == Seq::<u64>::empty());
    } else {
        let before = runs.drop_last();
        let run = runs.last();
        assert forall|i: int| 0 <= i < before.len() implies is_member_run(#[trigger] before[i]) by {
            assert(before[i] == runs[i]);
        }
        assert(is_member_run(runs[runs.len() - 1]));
        law_members_add_up(total, before);
        assert(before.push(run) == runs);
        before.lemma_flatten_push(run);
        lemma_rows_of_events(start, before.flatten(), run);
        law_member_counts_once(after_events(start, before.flatten()), run);
    }
}

/// Events leave the bytes of the job alone.
proof fn lemma_total_stays(meter: ProgressMeter, events: Seq<u64>)
    ensures
        after_events(meter, events).total == meter.total,
    decreases events.len(),
{
    if events.len() > 0 {
        lemma_total_stays(meter, events.drop_last());
    }
}

/// An event counts what it is ahead of the last one, and nothing where it is not
/// ahead; the count wraps at 2^64. What is reported is the count, or the whole
/// job where that is less.
pub proof fn law_events_count_what_is_new(meter: ProgressMeter, done: u64)
    ensures
        ({
            let after = after_event(meter, done);
            let news = if done > meter.last {
                done - meter.last
            } else {
                0
            };
            &&& after.last == done
            &&& after.total == meter.total
            &&& meter.counted + news <= u64::MAX ==> after.counted == meter.counted + news
            &&& meter.counted + news > u64::MAX ==> after.counted == meter.counted + news
                - 0x1_0000_0000_0000_0000
            &&& reported(after).total == meter.total
            &&& after.counted <= meter.total ==> reported(after).done == after.counted
            &&& after.counted > meter.total ==> reported(after).done == meter.total
        }),
{
}

} // verus!
