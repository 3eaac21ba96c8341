//! What holds of every conversation with a job that appends to an archive.

use vstd::prelude::*;

use crate::append;
use crate::append::{
    AppendArchiveTask, AppendStage, AppendStageView, AppendStepView, AppendTaskView,
};
use crate::batch;
use crate::budget;
use crate::entry;
use crate::entry::{EntryInput, PlannedView, MAX_TOTAL_BYTES};
use crate::error::{ErrorView, Status};
use crate::progress::ProgressData;
use crate::protocol;
use crate::protocol::{Reply, RequestView, StepView};
use crate::volumes;
use crate::writing;
use crate::writing::WriteStage;

verus! {

/// Whether the job waits for such a reply.
pub open spec fn append_awaits(job: AppendTaskView, reply: Reply) -> bool {
    match job.stage {
        AppendStageView::Ready { entries: _, bases: _ } => reply is Begin,
        AppendStageView::Probing { entries, bases: _ } => reply is Inspected
            && reply->Inspected_0@.len() == entries.len(),
        AppendStageView::Measuring { planned } => reply is Inspected && reply->Inspected_0@.len()
            == planned.len(),
        AppendStageView::Opening { planned: _, total: _ } => reply is Finished,
        AppendStageView::SettingDictionary { planned: _, total: _ } => reply is Acknowledged,
        AppendStageView::Writing(write) => writing::write_awaits(write, reply),
    }
}

/// The job waits for just the replies that answer what it asked.
pub proof fn law_append_awaits_answers(job: AppendTaskView, reply: Reply, later: Reply)
    ensures
        append::append_next(job, reply) matches StepView::Ask { job: next, request } ==> (
        append_awaits(next, later) <==> protocol::answers(request, later)),
{
    if let AppendStageView::Writing(write) = job.stage {
        writing::law_write_awaits_answers(write, reply, later);
    }
}

/// Where a job stands after a row of replies, of which there is one at least.
pub open spec fn append_run(job: AppendTaskView, replies: Seq<Reply>) -> AppendStepView {
    protocol::run(|now: AppendTaskView, reply: Reply| append::append_next(now, reply), job, replies)
}

/// A further reply takes a job one step further.
proof fn lemma_one_more(job: AppendTaskView, replies: Seq<Reply>, reply: Reply)
    requires
        replies.len() > 0,
    ensures
        append_run(job, replies.push(reply)) == match append_run(job, replies) {
            StepView::Done(r) => StepView::Done(r),
            StepView::Ask { job: now, request: _ } => append::append_next(now, reply),
        },
{
    protocol::lemma_one_more(
        |now: AppendTaskView, reply: Reply| append::append_next(now, reply),
        job,
        replies,
        reply,
    );
}

/// A job that nobody has talked to, with these entries and base names.
pub open spec fn is_fresh(
    job: AppendTaskView,
    entries: Seq<EntryInput>,
    bases: Seq<Seq<char>>,
) -> bool {
    &&& job.stage == AppendStageView::Ready { entries, bases }
    &&& bases.len() == entries.len()
}

/// Whether by these replies the job's entries were planned, measured, and
/// found to be within the budget, with a dictionary that can be had.
pub open spec fn is_granted(
    job: AppendTaskView,
    entries: Seq<EntryInput>,
    bases: Seq<Seq<char>>,
    replies: Seq<Reply>,
    planned: Seq<PlannedView>,
    total: u64,
) -> bool {
    &&& replies.len() >= 3
    &&& replies[0] is Begin
    &&& replies[1] is Inspected
    &&& replies[2] is Inspected
    &&& entry::plan(entries, bases, replies[1]->Inspected_0@) == Ok::<_, ErrorView>(planned)
    &&& budget::total(planned, replies[2]->Inspected_0@) == Ok::<_, ErrorView>(total)
    &&& job.dictionary is Ok
}

/// What is known of a job from the stage that it reached.
pub open spec fn is_at(
    job: AppendTaskView,
    entries: Seq<EntryInput>,
    bases: Seq<Seq<char>>,
    replies: Seq<Reply>,
    now: AppendTaskView,
) -> bool {
    &&& now == AppendTaskView { stage: now.stage, ..job }
    &&& match now.stage {
        AppendStageView::Ready { entries: _, bases: _ } => false,
        AppendStageView::Probing { entries: e, bases: b } => replies.len() == 1 && replies[0]
            is Begin && e == entries && b == bases,
        AppendStageView::Measuring { planned } => replies.len() == 2 && replies[0] is Begin
            && replies[1] is Inspected && entry::plan(
            entries,
            bases,
            replies[1]->Inspected_0@,
        ) == Ok::<_, ErrorView>(planned),
        AppendStageView::Opening { planned, total } => is_granted(
            job,
            entries,
            bases,
            replies,
            planned,
            total,
        ),
        AppendStageView::SettingDictionary { planned, total } => is_granted(
            job,
            entries,
            bases,
            replies,
            planned,
            total,
        ),
        AppendStageView::Writing(write) => {
            &&& write.archive_path == job.archive_path
            &&& write.progress == job.progress
            &&& exists|planned: Seq<PlannedView>|
                is_granted(job, entries, bases, replies, planned, write.total_bytes)
        },
    }
}

/// A job at any stage has come there by the replies that lead to it.
proof fn lemma_is_at(
    job: AppendTaskView,
    entries: Seq<EntryInput>,
    bases: Seq<Seq<char>>,
    replies: Seq<Reply>,
)
    requires
        is_fresh(job, entries, bases),
        replies.len() > 0,
    ensures
        append_run(job, replies) matches StepView::Ask { job: now, request: _ } ==> is_at(
            job,
            entries,
            bases,
            replies,
            now,
        ),
    decreases replies.len(),
{
    if replies.len() > 1 {
        let before = replies.drop_last();
        lemma_is_at(job, entries, bases, before);
        if let StepView::Ask { job: was, request: _ } = append_run(job, before) {
            lemma_is_at_next(job, entries, bases, before, was, replies.last());
            assert(before.push(replies.last()) == replies);
        }
    }
}

/// A step further, a job has come there by one more reply.
proof fn lemma_is_at_next(
    job: AppendTaskView,
    entries: Seq<EntryInput>,
    bases: Seq<Seq<char>>,
    before: Seq<Reply>,
    was: AppendTaskView,
    reply: Reply,
)
    requires
        is_at(job, entries, bases, before, was),
    ensures
        append::append_next(was, reply) matches StepView::Ask { job: now, request: _ } ==> is_at(
            job,
            entries,
            bases,
            before.push(reply),
            now,
        ),
{
    let replies = before.push(reply);
    if let StepView::Ask { job: now, request: _ } = append::append_next(was, reply) {
        match was.stage {
            AppendStageView::Ready { entries: _, bases: _ } => {},
            AppendStageView::Probing { entries: _, bases: _ } => {
                assert(is_at(job, entries, bases, replies, now));
            },
            AppendStageView::Measuring { planned } => {
                let total = budget::total(planned, reply->Inspected_0@)->Ok_0;
                assert(is_granted(job, entries, bases, replies, planned, total));
            },
            AppendStageView::Opening { planned, total } => {
                assert(is_granted(job, entries, bases, replies, planned, total));
            },
            AppendStageView::SettingDictionary { planned, total } => {
                let write = now.stage->Writing_0;
                assert(write.progress == job.progress);
                assert(is_granted(job, entries, bases, replies, planned, write.total_bytes));
            },
            AppendStageView::Writing(write) => {
                let planned = choose|planned: Seq<PlannedView>|
                    is_granted(job, entries, bases, before, planned, write.total_bytes);
                let next = now.stage->Writing_0;
                assert(next.progress == job.progress);
                assert(is_granted(job, entries, bases, replies, planned, next.total_bytes));
            },
        }
    }
}

/// While paths are only looked at, nothing else is asked.
proof fn lemma_request_fits_stage(job: AppendTaskView, replies: Seq<Reply>)
    requires
        replies.len() > 0,
    ensures
        append_run(job, replies) matches StepView::Ask { job: now, request } ==> ((now.stage
            is Probing || now.stage is Measuring) ==> request is Inspect),
{
}

/// The archive is not even opened before the entries are planned and found to
/// be within 32 GiB, and the dictionary size is known to be right.
pub proof fn law_append_checks_first(
    job: AppendTaskView,
    entries: Seq<EntryInput>,
    bases: Seq<Seq<char>>,
    replies: Seq<Reply>,
)
    requires
        is_fresh(job, entries, bases),
        replies.len() > 0,
    ensures
        append_run(job, replies) matches StepView::Ask { job: _, request } ==> (request !is Inspect
            ==> exists|planned: Seq<PlannedView>, total: u64|
            {
                &&& #[trigger] is_granted(job, entries, bases, replies, planned, total)
                &&& total <= MAX_TOTAL_BYTES
                &&& planned.len() == entries.len()
                &&& planned.len() > 0
            }),
{
    lemma_is_at(job, entries, bases, replies);
    if let StepView::Ask { job: now, request } = append_run(job, replies) {
        if request !is Inspect {
            lemma_request_fits_stage(job, replies);
            let (planned, total) = match now.stage {
                AppendStageView::Opening { planned, total } => (planned, total),
                AppendStageView::SettingDictionary { planned, total } => (planned, total),
                AppendStageView::Writing(write) => (
                    choose|planned: Seq<PlannedView>|
                        is_granted(job, entries, bases, replies, planned, write.total_bytes),
                    write.total_bytes,
                ),
                _ => (Seq::empty(), 0),
            };
            assert(is_granted(job, entries, bases, replies, planned, total));
            entry::law_plan_is_entry_by_entry(entries, bases, replies[1]->Inspected_0@);
            budget::law_total_is_the_sum(planned, replies[2]->Inspected_0@);
        }
    }
}

/// What is written into the archive is the plan: each entry, in order, at the
/// settled level, with the total that was measured.
pub proof fn law_append_writes_the_plan(
    job: AppendTaskView,
    entries: Seq<EntryInput>,
    bases: Seq<Seq<char>>,
    replies: Seq<Reply>,
)
    requires
        is_fresh(job, entries, bases),
        replies.len() > 0,
    ensures
        append_run(job, replies) matches StepView::Ask {
            job: _,
            request: RequestView::AddBatch { entries: handed, total_bytes, progress },
        } ==> progress == job.progress && exists|planned: Seq<PlannedView>|
            {
                &&& #[trigger] is_granted(job, entries, bases, replies, planned, total_bytes)
                &&& handed == batch::batch(planned, job.level)
            },
{
    if replies.len() > 1 {
        let before = replies.drop_last();
        lemma_is_at(job, entries, bases, before);
        if let StepView::Ask { job: was, request: _ } = append_run(job, before) {
            if let StepView::Ask {
                job: _,
                request: RequestView::AddBatch { entries: handed, total_bytes, progress },
            } = append_run(job, replies) {
                match was.stage {
                    AppendStageView::SettingDictionary { planned, total } => {
                        assert(before[0] == replies[0]);
                        assert(before[1] == replies[1]);
                        assert(before[2] == replies[2]);
                        assert(is_granted(job, entries, bases, replies, planned, total_bytes));
                    },
                    _ => {
                        assert(false);
                    },
                }
            }
        }
    }
}

/// The archive is opened at the caller's path with the caller's password, its
/// new members have the caller's dictionary, and its volumes are looked for
/// there.
pub proof fn law_append_opens_what_was_asked(
    job: AppendTaskView,
    entries: Seq<EntryInput>,
    bases: Seq<Seq<char>>,
    replies: Seq<Reply>,
)
    requires
        is_fresh(job, entries, bases),
        replies.len() > 0,
    ensures
        append_run(job, replies) matches StepView::Ask { job: _, request } ==> {
            &&& request matches RequestView::OpenAppend { path, password } ==> path
                == job.archive_path && password == job.password
            &&& request matches RequestView::SetDictionary { size_log, size_bytes } ==>
                job.dictionary == Ok::<_, ErrorView>((size_log, size_bytes))
            &&& request matches RequestView::DiscoverVolumes(path) ==> path == job.archive_path
        },
{
    if replies.len() > 1 {
        lemma_is_at(job, entries, bases, replies.drop_last());
    }
}

/// A job succeeds only with the list of the volumes that were found in the
/// end, after all else was granted.
pub proof fn law_append_succeeds_with_the_files(
    job: AppendTaskView,
    entries: Seq<EntryInput>,
    bases: Seq<Seq<char>>,
    replies: Seq<Reply>,
)
    requires
        is_fresh(job, entries, bases),
        replies.len() > 0,
        replies.len() > 1 ==> append_run(job, replies.drop_last()) is Ask,
    ensures
        append_run(job, replies) matches StepView::Done(Ok(files)) ==> {
            &&& replies.last() is Texts
            &&& files == volumes::file_list(replies.last()->Texts_0.deep_view())
            &&& exists|planned: Seq<PlannedView>, total: u64|
                is_granted(job, entries, bases, replies, planned, total)
        },
{
    if replies.len() > 1 {
        let before = replies.drop_last();
        lemma_is_at(job, entries, bases, before);
        if let StepView::Ask { job: was, request: _ } = append_run(job, before) {
            if let StepView::Done(Ok(files)) = append_run(job, replies) {
                if let AppendStageView::Writing(write) = was.stage {
                    let planned = choose|planned: Seq<PlannedView>|
                        is_granted(job, entries, bases, before, planned, write.total_bytes);
                    assert(before[0] == replies[0]);
                    assert(before[1] == replies[1]);
                    assert(before[2] == replies[2]);
                    assert(is_granted(job, entries, bases, replies, planned, write.total_bytes));
                }
            }
        }
    }
}

/// A job whose entries cannot be planned is answered with the plan's error, as
/// soon as their paths were looked at.
pub proof fn law_append_refuses_a_bad_plan(
    job: AppendTaskView,
    entries: Seq<EntryInput>,
    bases: Seq<Seq<char>>,
    seen: Reply,
)
    requires
        is_fresh(job, entries, bases),
        seen is Inspected,
        seen->Inspected_0@.len() == entries.len(),
    ensures
        entry::plan(entries, bases, seen->Inspected_0@) matches Err(e) ==> append_run(
            job,
            seq![Reply::Begin, seen],
        ) == AppendStepView::Done(Err(e)),
{
    let start = seq![Reply::Begin];
    lemma_one_more(job, start, seen);
    assert(seq![Reply::Begin, seen] == start.push(seen));
}

/// A job whose entries cannot be measured or are over the budget is answered
/// with that error, and else one with a wrong dictionary size with that, as
/// soon as the entries were measured.
pub proof fn law_append_refuses_what_is_too_large(
    job: AppendTaskView,
    entries: Seq<EntryInput>,
    bases: Seq<Seq<char>>,
    seen: Reply,
    planned: Seq<PlannedView>,
    measured: Reply,
)
    requires
        is_fresh(job, entries, bases),
        seen is Inspected,
        seen->Inspected_0@.len() == entries.len(),
        entry::plan(entries, bases, seen->Inspected_0@) == Ok::<_, ErrorView>(planned),
        measured is Inspected,
        measured->Inspected_0@.len() == planned.len(),
    ensures
        budget::total(planned, measured->Inspected_0@) matches Err(e) ==> append_run(
            job,
            seq![Reply::Begin, seen, measured],
        ) == AppendStepView::Done(Err(e)),
        budget::total(planned, measured->Inspected_0@) is Ok ==> (job.dictionary matches Err(e)
            ==> append_run(job, seq![Reply::Begin, seen, measured]) == AppendStepView::Done(
            Err(e),
        )),
{
    let start = seq![Reply::Begin];
    lemma_one_more(job, start, seen);
    lemma_one_more(job, start.push(seen), measured);
    assert(seq![Reply::Begin, seen, measured] == start.push(seen).push(measured));
}

/// The replies to a job in which nothing fails.
pub open spec fn good_replies(
    job: AppendTaskView,
    seen: Reply,
    measured: Reply,
    found: Reply,
) -> Seq<Reply> {
    let opened = seq![Reply::Begin, seen, measured].push(protocol::went_well());
    let closed = opened.push(Reply::Acknowledged).push(protocol::went_well()).push(protocol::went_well());
    let reported = if job.progress {
        closed.push(Reply::Acknowledged)
    } else {
        closed
    };
    reported.push(found)
}

/// A job that is within its limits, and in which nothing fails, succeeds with
/// the list of its files.
pub proof fn law_append_succeeds(
    job: AppendTaskView,
    entries: Seq<EntryInput>,
    bases: Seq<Seq<char>>,
    seen: Reply,
    planned: Seq<PlannedView>,
    measured: Reply,
    total: u64,
    found: Reply,
)
    requires
        is_fresh(job, entries, bases),
        job.dictionary is Ok,
        seen is Inspected,
        seen->Inspected_0@.len() == entries.len(),
        entry::plan(entries, bases, seen->Inspected_0@) == Ok::<_, ErrorView>(planned),
        measured is Inspected,
        measured->Inspected_0@.len() == planned.len(),
        budget::total(planned, measured->Inspected_0@) == Ok::<_, ErrorView>(total),
        found is Texts,
    ensures
        append_run(job, good_replies(job, seen, measured, found)) == AppendStepView::Done(
            Ok(volumes::file_list(found->Texts_0.deep_view())),
        ),
{
    let looked = seq![Reply::Begin, seen, measured];
    let start = seq![Reply::Begin];
    assert(looked == start.push(seen).push(measured));
    lemma_one_more(job, start, seen);
    lemma_one_more(job, start.push(seen), measured);
    let opened = looked.push(protocol::went_well());
    lemma_one_more(job, looked, protocol::went_well());
    let tuned = opened.push(Reply::Acknowledged);
    lemma_one_more(job, opened, Reply::Acknowledged);
    let added = tuned.push(protocol::went_well());
    lemma_one_more(job, tuned, protocol::went_well());
    let closed = added.push(protocol::went_well());
    lemma_one_more(job, added, protocol::went_well());
    if job.progress {
        lemma_one_more(job, closed, Reply::Acknowledged);
        lemma_one_more(job, closed.push(Reply::Acknowledged), found);
    } else {
        lemma_one_more(job, closed, found);
    }
}

/// What a job asked for in answer to a row of replies, in order.
pub open spec fn append_asked(job: AppendTaskView, replies: Seq<Reply>) -> Seq<RequestView> {
    protocol::asked(|now: AppendTaskView, reply: Reply| append::append_next(now, reply), job, replies)
}

/// All that a job asks for: to look at the paths of its entries, to measure its
/// files, to open the caller's archive with the caller's password, to set the
/// caller's dictionary, to add the whole plan, to close the archive, to report
/// the whole as done if anybody listens, and to find the volumes.
pub open spec fn all_requests(
    job: AppendTaskView,
    entries: Seq<EntryInput>,
    planned: Seq<PlannedView>,
    total: u64,
) -> Seq<RequestView> {
    let closed = seq![
        RequestView::Inspect(entry::asked_paths(entries)),
        RequestView::Inspect(budget::measured_paths(planned)),
        RequestView::OpenAppend { path: job.archive_path, password: job.password },
        RequestView::SetDictionary {
            size_log: job.dictionary->Ok_0.0,
            size_bytes: job.dictionary->Ok_0.1,
        },
        RequestView::AddBatch {
            entries: batch::batch(planned, job.level),
            total_bytes: total,
            progress: job.progress,
        },
        RequestView::Close,
    ];
    let told = if job.progress {
        closed.push(RequestView::Notify(ProgressData { done: total, total }))
    } else {
        closed
    };
    told.push(RequestView::DiscoverVolumes(job.archive_path))
}

/// How many of its requests a job has made at a stage.
spec fn requests_made(job: AppendTaskView, stage: AppendStageView) -> int {
    match stage {
        AppendStageView::Ready { entries: _, bases: _ } => 0,
        AppendStageView::Probing { entries: _, bases: _ } => 1,
        AppendStageView::Measuring { planned: _ } => 2,
        AppendStageView::Opening { planned: _, total: _ } => 3,
        AppendStageView::SettingDictionary { planned: _, total: _ } => 4,
        AppendStageView::Writing(write) => match write.stage {
            WriteStage::Adding => 5,
            WriteStage::Closing => 6,
            WriteStage::Reporting => 7,
            WriteStage::Listing => if job.progress {
                8
            } else {
                7
            },
        },
    }
}

/// The plan that a row of replies leads to.
spec fn planned_by(
    entries: Seq<EntryInput>,
    bases: Seq<Seq<char>>,
    replies: Seq<Reply>,
) -> Seq<PlannedView> {
    entry::plan(entries, bases, replies[1]->Inspected_0@)->Ok_0
}

/// The total that a row of replies leads to.
spec fn total_by(entries: Seq<EntryInput>, bases: Seq<Seq<char>>, replies: Seq<Reply>) -> u64 {
    budget::total(planned_by(entries, bases, replies), replies[2]->Inspected_0@)->Ok_0
}

/// Whether what a job has asked for at a stage is the start of all that it asks
/// for.
spec fn has_asked(
    job: AppendTaskView,
    entries: Seq<EntryInput>,
    bases: Seq<Seq<char>>,
    replies: Seq<Reply>,
    asked: Seq<RequestView>,
    stage: AppendStageView,
) -> bool {
    let planned = planned_by(entries, bases, replies);
    let total = total_by(entries, bases, replies);
    match stage {
        AppendStageView::Ready { entries: _, bases: _ } => false,
        AppendStageView::Probing { entries: _, bases: _ } => asked == seq![
            RequestView::Inspect(entry::asked_paths(entries)),
        ],
        AppendStageView::Measuring { planned: _ } => asked == seq![
            RequestView::Inspect(entry::asked_paths(entries)),
            RequestView::Inspect(budget::measured_paths(planned)),
        ],
        AppendStageView::Writing(write) => {
            &&& write.stage == WriteStage::Reporting ==> job.progress
            &&& asked == all_requests(job, entries, planned, total).take(
                requests_made(job, stage),
            )
        },
        _ => asked == all_requests(job, entries, planned, total).take(requests_made(job, stage)),
    }
}

/// At each stage a job has asked for the start of all that it asks for.
proof fn lemma_has_asked(
    job: AppendTaskView,
    entries: Seq<EntryInput>,
    bases: Seq<Seq<char>>,
    replies: Seq<Reply>,
)
    requires
        is_fresh(job, entries, bases),
        replies.len() > 0,
    ensures
        append_run(job, replies) matches StepView::Ask { job: now, request: _ } ==> has_asked(
            job,
            entries,
            bases,
            replies,
            append_asked(job, replies),
            now.stage,
        ),
    decreases replies.len(),
{
    if replies.len() > 1 {
        let before = replies.drop_last();
        lemma_is_at(job, entries, bases, before);
        lemma_has_asked(job, entries, bases, before);
        if let StepView::Ask { job: was, request: _ } = append_run(job, before) {
            if let StepView::Ask { job: now, request } = append_run(job, replies) {
                assert(append_asked(job, replies) == append_asked(job, before).push(request));
                lemma_has_asked_next(
                    job,
                    entries,
                    bases,
                    before,
                    was,
                    replies.last(),
                    append_asked(job, before),
                );
                assert(before.push(replies.last()) == replies);
            }
        }
    } else {
        reveal_with_fuel(protocol::asked, 2);
        assert(replies.drop_last().len() == 0);
        if let StepView::Ask { job: now, request } = append_run(job, replies) {
            assert(append_asked(job, replies) == Seq::<RequestView>::empty().push(request));
        }
    }
}

/// A step further, a job has asked for one thing more.
#[verifier::rlimit(40)]
proof fn lemma_has_asked_next(
    job: AppendTaskView,
    entries: Seq<EntryInput>,
    bases: Seq<Seq<char>>,
    before: Seq<Reply>,
    was: AppendTaskView,
    reply: Reply,
    asked: Seq<RequestView>,
)
    requires
        is_at(job, entries, bases, before, was),
        has_asked(job, entries, bases, before, asked, was.stage),
    ensures
        append::append_next(was, reply) matches StepView::Ask { job: now, request } ==> has_asked(
            job,
            entries,
            bases,
            before.push(reply),
            asked.push(request),
            now.stage,
        ),
{
    let replies = before.push(reply);
    if let StepView::Ask { job: now, request } = append::append_next(was, reply) {
        let planned = planned_by(entries, bases, replies);
        let total = total_by(entries, bases, replies);
        let all = all_requests(job, entries, planned, total);
        let n = requests_made(job, now.stage);
        if was.stage is Probing {
            assert(asked.push(request) == seq![
                RequestView::Inspect(entry::asked_paths(entries)),
                RequestView::Inspect(budget::measured_paths(planned)),
            ]);
        } else if was.stage is Measuring {
            assert(planned_by(entries, bases, before) == planned);
            assert(asked == all.take(2));
            assert(asked.push(request) == all.take(n));
        } else if !(was.stage is Ready) {
            assert(planned_by(entries, bases, before) == planned);
            assert(total_by(entries, bases, before) == total);
            assert(request == all[n - 1]);
            assert(asked == all.take(n - 1));
            assert(asked.push(request) == all.take(n));
        }
    }
}

/// A job that succeeds has asked for all that it is to ask for, once each and in
/// this order: to look at the paths and to measure the files, to open the
/// archive, to set the dictionary, to add the whole plan, to close, to report
/// the end if anybody listens, and to find the volumes. It does so whether or
/// not anybody listens.
pub proof fn law_append_asks_for_all(
    job: AppendTaskView,
    entries: Seq<EntryInput>,
    bases: Seq<Seq<char>>,
    replies: Seq<Reply>,
)
    requires
        is_fresh(job, entries, bases),
        replies.len() > 0,
        replies.len() > 1 ==> append_run(job, replies.drop_last()) is Ask,
        append_run(job, replies) matches StepView::Done(Ok(_)),
    ensures
        exists|planned: Seq<PlannedView>, total: u64|
            {
                &&& #[trigger] is_granted(job, entries, bases, replies, planned, total)
                &&& planned.len() == entries.len()
                &&& append_asked(job, replies) == all_requests(job, entries, planned, total)
            },
{
    if replies.len() > 1 {
        let before = replies.drop_last();
        lemma_is_at(job, entries, bases, before);
        lemma_has_asked(job, entries, bases, before);
        if let StepView::Ask { job: was, request: _ } = append_run(job, before) {
            if let AppendStageView::Writing(write) = was.stage {
                let planned = choose|planned: Seq<PlannedView>|
                    is_granted(job, entries, bases, before, planned, write.total_bytes);
                let total = write.total_bytes;
                assert(before[0] == replies[0]);
                assert(before[1] == replies[1]);
                assert(before[2] == replies[2]);
                assert(is_granted(job, entries, bases, replies, planned, total));
                entry::law_plan_is_entry_by_entry(entries, bases, replies[1]->Inspected_0@);
                assert(append_asked(job, replies) == append_asked(job, before));
                let all = all_requests(job, entries, planned, total);
                assert(all.take(all.len() as int) == all);
            }
        }
    }
}

/// A job asks for nothing more after something was not done: it ends with what
/// the archive library said, or on a reply to something else, or a start that is
/// none, with an error that says so.
pub proof fn law_append_says_what_failed(job: AppendTaskView, reply: Reply, later: Reply)
    ensures
        job.stage is Ready && !(reply is Begin) ==> protocol::fails(
            append::append_next(job, reply),
            Status::GenericFailure,
            "unexpected reply"@,
        ),
        append::append_next(job, reply) matches StepView::Ask { job: now, request } ==> {
            let end = append::append_next(now, later);
            &&& !protocol::answers(request, later) ==> protocol::fails(
                end,
                Status::GenericFailure,
                "unexpected reply"@,
            )
            &&& later matches Reply::Finished(Err(why)) ==> (request is OpenAppend || request
                is AddBatch || request is Close ==> protocol::fails(
                end,
                Status::GenericFailure,
                "rar5: "@ + why@,
            ))
        },
{
}

/// A view of a job hides nothing of it.
pub proof fn law_view_tells_the_append(job: AppendArchiveTask)
    ensures
        job.deep_view().archive_path == job.archive_path@,
        job.deep_view().level == job.level,
        job.deep_view().password == protocol::text_of(job.password),
        job.deep_view().progress == job.progress,
        job.dictionary matches Ok(d) ==> job.deep_view().dictionary == Ok::<_, ErrorView>(d),
        job.dictionary matches Err(e) ==> (job.deep_view().dictionary matches Err(v) && v.status
            == e.status && v.reason == e.reason@),
        match (job.stage, job.deep_view().stage) {
            (
                AppendStage::Ready { entries, bases },
                AppendStageView::Ready { entries: es, bases: bs },
            ) => es == entries@ && bs == bases.deep_view(),
            (
                AppendStage::Probing { entries, bases },
                AppendStageView::Probing { entries: es, bases: bs },
            ) => es == entries@ && bs == bases.deep_view(),
            (AppendStage::Measuring { planned }, AppendStageView::Measuring { planned: p }) => p
                == planned.deep_view(),
            (
                AppendStage::Opening { planned, total },
                AppendStageView::Opening { planned: p, total: t },
            ) => p == planned.deep_view() && t == total,
            (
                AppendStage::SettingDictionary { planned, total },
                AppendStageView::SettingDictionary { planned: p, total: t },
            ) => p == planned.deep_view() && t == total,
            (AppendStage::Writing(write), AppendStageView::Writing(w)) => w == write.deep_view(),
            _ => false,
        },
{
}

} // verus!
