//! What holds of every conversation with a job that creates an archive.

use vstd::prelude::*;

use crate::batch;
use crate::budget;
use crate::create;
use crate::create::{
    CreateArchiveTask, CreateStage, CreateStageView, CreateStepView, CreateTaskView,
};
use crate::entry;
use crate::entry::{EntryInput, PlannedView, MAX_TOTAL_BYTES};
use crate::error::{ErrorView, Status};
use crate::progress::ProgressData;
use crate::protocol;
use crate::protocol::{Reply, RequestView, StepView};
use crate::volumes;
use crate::writing;
use crate::writing::WriteStage;

verus! {

/// Whether the job waits for such a reply.
pub open spec fn create_awaits(job: CreateTaskView, reply: Reply) -> bool {
    match job.stage {
        CreateStageView::Ready { entries: _, bases: _ } => reply is Begin,
        CreateStageView::Probing { entries, bases: _ } => reply is Inspected
            && reply->Inspected_0@.len() == entries.len(),
        CreateStageView::Measuring { planned } => reply is Inspected && reply->Inspected_0@.len()
            == planned.len(),
        CreateStageView::MakingDir { planned: _, total: _ } => reply is Finished,
        CreateStageView::SettingThreads { planned: _, total: _ } => reply is Acknowledged,
        CreateStageView::Creating { planned: _, total: _ } => reply is Finished,
        CreateStageView::Writing(write) => writing::write_awaits(write, reply),
    }
}

/// The job waits for just the replies that answer what it asked.
pub proof fn law_create_awaits_answers(job: CreateTaskView, reply: Reply, later: Reply)
    ensures
        create::create_next(job, reply) matches StepView::Ask { job: next, request } ==> (
        create_awaits(next, later) <==> protocol::answers(request, later)),
{
    if let CreateStageView::Writing(write) = job.stage {
        writing::law_write_awaits_answers(write, reply, later);
    }
}

/// Where a job stands after a row of replies, of which there is one at least.
pub open spec fn create_run(job: CreateTaskView, replies: Seq<Reply>) -> CreateStepView {
    protocol::run(|now: CreateTaskView, reply: Reply| create::create_next(now, reply), job, replies)
}

/// A further reply takes a job one step further.
proof fn lemma_one_more(job: CreateTaskView, replies: Seq<Reply>, reply: Reply)
    requires
        replies.len() > 0,
    ensures
        create_run(job, replies.push(reply)) == match create_run(job, replies) {
            StepView::Done(r) => StepView::Done(r),
            StepView::Ask { job: now, request: _ } => create::create_next(now, reply),
        },
{
    protocol::lemma_one_more(
        |now: CreateTaskView, reply: Reply| create::create_next(now, reply),
        job,
        replies,
        reply,
    );
}

/// A job that nobody has talked to, with these entries and base names.
pub open spec fn is_fresh(
    job: CreateTaskView,
    entries: Seq<EntryInput>,
    bases: Seq<Seq<char>>,
) -> bool {
    &&& job.stage == CreateStageView::Ready { entries, bases }
    &&& bases.len() == entries.len()
}

/// Whether by these replies the job's entries were planned, measured, and
/// found to be within the budget and the caller's limit.
pub open spec fn is_granted(
    job: CreateTaskView,
    entries: Seq<EntryInput>,
    bases: Seq<Seq<char>>,
    replies: Seq<Reply>,
    planned: Seq<PlannedView>,
    total: u64,
) -> bool {
    &&& replies.len() >= 3
    &&& replies[0] is Begin
    &&& replies[1] is Inspected
    &&& replies[2] is Inspected
    &&& entry::plan(entries, bases, replies[1]->Inspected_0@) == Ok::<_, ErrorView>(planned)
    &&& budget::total(planned, replies[2]->Inspected_0@) == Ok::<_, ErrorView>(total)
    &&& budget::over_limit(total, job.settings.limit) is None
}

/// What is known of a job from the stage that it reached.
pub open spec fn is_at(
    job: CreateTaskView,
    entries: Seq<EntryInput>,
    bases: Seq<Seq<char>>,
    replies: Seq<Reply>,
    now: CreateTaskView,
) -> bool {
    &&& now.settings == job.settings
    &&& now.parent == job.parent
    &&& now.progress == job.progress
    &&& match now.stage {
        CreateStageView::Ready { entries: _, bases: _ } => false,
        CreateStageView::Probing { entries: e, bases: b } => replies.len() == 1 && replies[0]
            is Begin && e == entries && b == bases,
        CreateStageView::Measuring { planned } => replies.len() == 2 && replies[0] is Begin
            && replies[1] is Inspected && entry::plan(
            entries,
            bases,
            replies[1]->Inspected_0@,
        ) == Ok::<_, ErrorView>(planned),
        CreateStageView::MakingDir { planned, total } => is_granted(
            job,
            entries,
            bases,
            replies,
            planned,
            total,
        ),
        CreateStageView::SettingThreads { planned, total } => is_granted(
            job,
            entries,
            bases,
            replies,
            planned,
            total,
        ),
        CreateStageView::Creating { planned, total } => is_granted(
            job,
            entries,
            bases,
            replies,
            planned,
            total,
        ),
        CreateStageView::Writing(write) => {
            &&& write.archive_path == job.settings.out_path
            &&& write.progress == job.progress
            &&& exists|planned: Seq<PlannedView>|
                is_granted(job, entries, bases, replies, planned, write.total_bytes)
        },
    }
}

/// A job at any stage has come there by the replies that lead to it.
proof fn lemma_is_at(
    job: CreateTaskView,
    entries: Seq<EntryInput>,
    bases: Seq<Seq<char>>,
    replies: Seq<Reply>,
)
    requires
        is_fresh(job, entries, bases),
        replies.len() > 0,
    ensures
        create_run(job, replies) matches StepView::Ask { job: now, request: _ } ==> is_at(
            job,
            entries,
            bases,
            replies,
            now,
        ),
    decreases replies.len(),
{
    if replies.len() > 1 {
        let before = replies.drop_last();
        lemma_is_at(job, entries, bases, before);
        if let StepView::Ask { job: was, request: _ } = create_run(job, before) {
            lemma_is_at_next(job, entries, bases, before, was, replies.last());
            assert(before.push(replies.last()) == replies);
        }
    }
}

/// A step further, a job has come there by one more reply.
proof fn lemma_is_at_next(
    job: CreateTaskView,
    entries: Seq<EntryInput>,
    bases: Seq<Seq<char>>,
    before: Seq<Reply>,
    was: CreateTaskView,
    reply: Reply,
)
    requires
        is_at(job, entries, bases, before, was),
    ensures
        create::create_next(was, reply) matches StepView::Ask { job: now, request: _ } ==> is_at(
            job,
            entries,
            bases,
            before.push(reply),
            now,
        ),
{
    let replies = before.push(reply);
    if let StepView::Ask { job: now, request: _ } = create::create_next(was, reply) {
        match was.stage {
            CreateStageView::Ready { entries: _, bases: _ } => {},
            CreateStageView::Probing { entries: _, bases: _ } => {
                assert(is_at(job, entries, bases, replies, now));
            },
            CreateStageView::Measuring { planned } => {
                let total = budget::total(planned, reply->Inspected_0@)->Ok_0;
                assert(is_granted(job, entries, bases, replies, planned, total));
            },
            CreateStageView::MakingDir { planned, total } => {
                assert(is_granted(job, entries, bases, replies, planned, total));
            },
            CreateStageView::SettingThreads { planned, total } => {
                assert(is_granted(job, entries, bases, replies, planned, total));
            },
            CreateStageView::Creating { planned, total } => {
                let write = now.stage->Writing_0;
                assert(write.progress == job.progress);
                assert(is_granted(job, entries, bases, replies, planned, write.total_bytes));
            },
            CreateStageView::Writing(write) => {
                let planned = choose|planned: Seq<PlannedView>|
                    is_granted(job, entries, bases, before, planned, write.total_bytes);
                let next = now.stage->Writing_0;
                assert(next.progress == job.progress);
                assert(is_granted(job, entries, bases, replies, planned, next.total_bytes));
            },
        }
    }
}

/// Nothing on disk is touched, and no thread count is changed, before the
/// entries are planned and found to be within 32 GiB and the caller's limit.
pub proof fn law_create_checks_first(
    job: CreateTaskView,
    entries: Seq<EntryInput>,
    bases: Seq<Seq<char>>,
    replies: Seq<Reply>,
)
    requires
        is_fresh(job, entries, bases),
        replies.len() > 0,
    ensures
        create_run(job, replies) matches StepView::Ask { job: _, request } ==> (
        protocol::touches_disk(request) || request is SetThreads ==> exists|
            planned: Seq<PlannedView>,
            total: u64,
        |
            {
                &&& #[trigger] is_granted(job, entries, bases, replies, planned, total)
                &&& total <= MAX_TOTAL_BYTES
                &&& planned.len() == entries.len()
                &&& planned.len() > 0
            }),
{
    lemma_is_at(job, entries, bases, replies);
    if let StepView::Ask { job: now, request } = create_run(job, replies) {
        if protocol::touches_disk(request) || request is SetThreads {
            lemma_request_fits_stage(job, replies);
            let (planned, total) = match now.stage {
                CreateStageView::MakingDir { planned, total } => (planned, total),
                CreateStageView::SettingThreads { planned, total } => (planned, total),
                CreateStageView::Creating { planned, total } => (planned, total),
                CreateStageView::Writing(write) => (
                    choose|planned: Seq<PlannedView>|
                        is_granted(job, entries, bases, replies, planned, write.total_bytes),
                    write.total_bytes,
                ),
                _ => (Seq::empty(), 0),
            };
            assert(is_granted(job, entries, bases, replies, planned, total));
            entry::law_plan_is_entry_by_entry(entries, bases, replies[1]->Inspected_0@);
            budget::law_total_is_the_sum(planned, replies[2]->Inspected_0@);
        }
    }
}

/// While paths are only looked at, nothing else is asked.
proof fn lemma_request_fits_stage(job: CreateTaskView, replies: Seq<Reply>)
    requires
        replies.len() > 0,
    ensures
        create_run(job, replies) matches StepView::Ask { job: now, request } ==> ((now.stage
            is Probing || now.stage is Measuring) ==> request is Inspect),
{
}

/// What is written into the archive is the plan: each entry, in order, at the
/// settled level, with the total that was measured.
pub proof fn law_create_writes_the_plan(
    job: CreateTaskView,
    entries: Seq<EntryInput>,
    bases: Seq<Seq<char>>,
    replies: Seq<Reply>,
)
    requires
        is_fresh(job, entries, bases),
        replies.len() > 0,
    ensures
        create_run(job, replies) matches StepView::Ask {
            job: _,
            request: RequestView::AddBatch { entries: handed, total_bytes, progress },
        } ==> progress == job.progress && exists|planned: Seq<PlannedView>|
            {
                &&& #[trigger] is_granted(job, entries, bases, replies, planned, total_bytes)
                &&& handed == batch::batch(planned, job.settings.level)
            },
{
    if replies.len() > 1 {
        let before = replies.drop_last();
        lemma_is_at(job, entries, bases, before);
        if let StepView::Ask { job: was, request: _ } = create_run(job, before) {
            if let StepView::Ask {
                job: _,
                request: RequestView::AddBatch { entries: handed, total_bytes, progress },
            } = create_run(job, replies) {
                match was.stage {
                    CreateStageView::Creating { planned, total } => {
                        assert(before[0] == replies[0]);
                        assert(before[1] == replies[1]);
                        assert(before[2] == replies[2]);
                        assert(is_granted(job, entries, bases, replies, planned, total_bytes));
                    },
                    _ => {
                        assert(false);
                    },
                }
            }
        }
    }
}

/// A job creates the directory that its archive is to lie in, sets the number
/// of threads that it was given, creates the archive at the caller's path with
/// the options that the caller's options come to, and looks for its volumes
/// there.
pub proof fn law_create_creates_what_was_asked(
    job: CreateTaskView,
    entries: Seq<EntryInput>,
    bases: Seq<Seq<char>>,
    replies: Seq<Reply>,
)
    requires
        is_fresh(job, entries, bases),
        replies.len() > 0,
    ensures
        create_run(job, replies) matches StepView::Ask { job: _, request } ==> {
            &&& request matches RequestView::CreateDirAll(dir) ==> job.parent == Some(dir)
            &&& request matches RequestView::SetThreads(n) ==> job.settings.threads == Some(n)
            &&& request matches RequestView::Create { path, options } ==> path
                == job.settings.out_path && job.settings.options == Ok::<_, ErrorView>(options)
            &&& request matches RequestView::DiscoverVolumes(path) ==> path
                == job.settings.out_path
        },
{
    if replies.len() > 1 {
        lemma_is_at(job, entries, bases, replies.drop_last());
    }
}

/// A job succeeds only with the list of the volumes that were found in the
/// end, after all else was granted.
pub proof fn law_create_succeeds_with_the_files(
    job: CreateTaskView,
    entries: Seq<EntryInput>,
    bases: Seq<Seq<char>>,
    replies: Seq<Reply>,
)
    requires
        is_fresh(job, entries, bases),
        replies.len() > 0,
        replies.len() > 1 ==> create_run(job, replies.drop_last()) is Ask,
    ensures
        create_run(job, replies) matches StepView::Done(Ok(files)) ==> {
            &&& replies.last() is Texts
            &&& files == volumes::file_list(replies.last()->Texts_0.deep_view())
            &&& exists|planned: Seq<PlannedView>, total: u64|
                is_granted(job, entries, bases, replies, planned, total)
        },
{
    if replies.len() > 1 {
        let before = replies.drop_last();
        lemma_is_at(job, entries, bases, before);
        if let StepView::Ask { job: was, request: _ } = create_run(job, before) {
            if let StepView::Done(Ok(files)) = create_run(job, replies) {
                if let CreateStageView::Writing(write) = was.stage {
                    let planned = choose|planned: Seq<PlannedView>|
                        is_granted(job, entries, bases, before, planned, write.total_bytes);
                    assert(before[0] == replies[0]);
                    assert(before[1] == replies[1]);
                    assert(before[2] == replies[2]);
                    assert(is_granted(job, entries, bases, replies, planned, write.total_bytes));
                }
            }
        }
    }
}

/// A job whose entries cannot be planned is answered with the plan's error, as
/// soon as their paths were looked at.
pub proof fn law_create_refuses_a_bad_plan(
    job: CreateTaskView,
    entries: Seq<EntryInput>,
    bases: Seq<Seq<char>>,
    seen: Reply,
)
    requires
        is_fresh(job, entries, bases),
        seen is Inspected,
        seen->Inspected_0@.len() == entries.len(),
    ensures
        entry::plan(entries, bases, seen->Inspected_0@) matches Err(e) ==> create_run(
            job,
            seq![Reply::Begin, seen],
        ) == CreateStepView::Done(Err(e)),
{
    let start = seq![Reply::Begin];
    lemma_one_more(job, start, seen);
    assert(seq![Reply::Begin, seen] == start.push(seen));
}

/// A job whose entries cannot be measured, or are over the budget or the
/// caller's limit, is answered with that error, as soon as they were measured.
pub proof fn law_create_refuses_what_is_too_large(
    job: CreateTaskView,
    entries: Seq<EntryInput>,
    bases: Seq<Seq<char>>,
    seen: Reply,
    planned: Seq<PlannedView>,
    measured: Reply,
)
    requires
        is_fresh(job, entries, bases),
        seen is Inspected,
        seen->Inspected_0@.len() == entries.len(),
        entry::plan(entries, bases, seen->Inspected_0@) == Ok::<_, ErrorView>(planned),
        measured is Inspected,
        measured->Inspected_0@.len() == planned.len(),
    ensures
        budget::total(planned, measured->Inspected_0@) matches Err(e) ==> create_run(
            job,
            seq![Reply::Begin, seen, measured],
        ) == CreateStepView::Done(Err(e)),
        budget::total(planned, measured->Inspected_0@) matches Ok(total) ==> (budget::over_limit(
            total,
            job.settings.limit,
        ) matches Some(e) ==> create_run(job, seq![Reply::Begin, seen, measured])
            == CreateStepView::Done(Err(e))),
{
    let start = seq![Reply::Begin];
    lemma_one_more(job, start, seen);
    lemma_one_more(job, start.push(seen), measured);
    assert(seq![Reply::Begin, seen, measured] == start.push(seen).push(measured));
}

/// A job with a negative limit is refused as soon as its entries were measured,
/// with an error that blames the caller; nothing is created.
pub proof fn law_create_refuses_under_a_negative_limit(
    job: CreateTaskView,
    entries: Seq<EntryInput>,
    bases: Seq<Seq<char>>,
    seen: Reply,
    planned: Seq<PlannedView>,
    measured: Reply,
    limit: i64,
)
    requires
        is_fresh(job, entries, bases),
        job.settings.limit == Some(limit),
        limit < 0,
        seen is Inspected,
        seen->Inspected_0@.len() == entries.len(),
        entry::plan(entries, bases, seen->Inspected_0@) == Ok::<_, ErrorView>(planned),
        measured is Inspected,
        measured->Inspected_0@.len() == planned.len(),
    ensures
        budget::total(planned, measured->Inspected_0@) is Ok ==> (create_run(
            job,
            seq![Reply::Begin, seen, measured],
        ) matches StepView::Done(Err(e)) && e.status == Status::InvalidArg),
{
    law_create_refuses_what_is_too_large(job, entries, bases, seen, planned, measured);
    if let Ok(total) = budget::total(planned, measured->Inspected_0@) {
        budget::law_negative_limit_refuses_every_job(total, limit);
    }
}

/// The replies to a job up to the creation of its archive, where nothing fails.
pub open spec fn replies_before_archive(job: CreateTaskView, seen: Reply, measured: Reply) -> Seq<
    Reply,
> {
    let looked = seq![Reply::Begin, seen, measured];
    let housed = if job.parent is Some {
        looked.push(protocol::went_well())
    } else {
        looked
    };
    if job.settings.threads is Some {
        housed.push(Reply::Acknowledged)
    } else {
        housed
    }
}

/// The replies to a job in which nothing fails.
pub open spec fn good_replies(
    job: CreateTaskView,
    seen: Reply,
    measured: Reply,
    found: Reply,
) -> Seq<Reply> {
    let done = protocol::went_well();
    let closed = replies_before_archive(job, seen, measured).push(done).push(done).push(done);
    let reported = if job.progress {
        closed.push(Reply::Acknowledged)
    } else {
        closed
    };
    reported.push(found)
}

/// Whether the replies `seen` and `measured` find a job to be within its
/// limits, with this plan and this total.
pub open spec fn is_within_limits(
    job: CreateTaskView,
    entries: Seq<EntryInput>,
    bases: Seq<Seq<char>>,
    seen: Reply,
    planned: Seq<PlannedView>,
    measured: Reply,
    total: u64,
) -> bool {
    &&& is_granted(job, entries, bases, seq![Reply::Begin, seen, measured], planned, total)
    &&& seen->Inspected_0@.len() == entries.len()
    &&& measured->Inspected_0@.len() == planned.len()
}

/// A job within its limits comes to create its archive, where nothing fails.
proof fn lemma_comes_to_archive(
    job: CreateTaskView,
    entries: Seq<EntryInput>,
    bases: Seq<Seq<char>>,
    seen: Reply,
    planned: Seq<PlannedView>,
    measured: Reply,
    total: u64,
)
    requires
        is_fresh(job, entries, bases),
        is_within_limits(job, entries, bases, seen, planned, measured, total),
    ensures
        create_run(job, replies_before_archive(job, seen, measured)) == create::create_from_archive(
            job,
            planned,
            total,
        ),
{
    let looked = seq![Reply::Begin, seen, measured];
    let start = seq![Reply::Begin];
    assert(looked == start.push(seen).push(measured));
    assert(looked[1] == seen && looked[2] == measured);
    lemma_one_more(job, start, seen);
    lemma_one_more(job, start.push(seen), measured);
    assert(create_run(job, looked) == create::create_from_dir(job, planned, total));
    let housed = if job.parent is Some {
        looked.push(protocol::went_well())
    } else {
        looked
    };
    lemma_one_more(job, looked, protocol::went_well());
    assert(create_run(job, housed) == create::create_from_threads(job, planned, total));
    lemma_one_more(job, housed, Reply::Acknowledged);
}

/// A job that is within its limits, and in which nothing fails, succeeds with
/// the list of its files.
pub proof fn law_create_succeeds(
    job: CreateTaskView,
    entries: Seq<EntryInput>,
    bases: Seq<Seq<char>>,
    seen: Reply,
    planned: Seq<PlannedView>,
    measured: Reply,
    total: u64,
    found: Reply,
)
    requires
        is_fresh(job, entries, bases),
        is_within_limits(job, entries, bases, seen, planned, measured, total),
        job.settings.options is Ok,
        found is Texts,
    ensures
        create_run(job, good_replies(job, seen, measured, found)) == CreateStepView::Done(
            Ok(volumes::file_list(found->Texts_0.deep_view())),
        ),
{
    lemma_comes_to_archive(job, entries, bases, seen, planned, measured, total);
    lemma_written(job, planned, total, replies_before_archive(job, seen, measured), found);
}

/// A job within its limits whose dictionary size is wrong is answered with that
/// error; no archive is created.
pub proof fn law_create_refuses_a_bad_dictionary(
    job: CreateTaskView,
    entries: Seq<EntryInput>,
    bases: Seq<Seq<char>>,
    seen: Reply,
    planned: Seq<PlannedView>,
    measured: Reply,
    total: u64,
)
    requires
        is_fresh(job, entries, bases),
        is_within_limits(job, entries, bases, seen, planned, measured, total),
    ensures
        job.settings.options matches Err(e) ==> create_run(
            job,
            replies_before_archive(job, seen, measured),
        ) == CreateStepView::Done(Err(e)),
{
    lemma_comes_to_archive(job, entries, bases, seen, planned, measured, total);
}

/// From the creation of the archive on, where nothing fails, a job succeeds.
proof fn lemma_written(
    job: CreateTaskView,
    planned: Seq<PlannedView>,
    total: u64,
    threaded: Seq<Reply>,
    found: Reply,
)
    requires
        threaded.len() > 0,
        job.settings.options is Ok,
        create_run(job, threaded) == create::create_from_archive(job, planned, total),
        found is Texts,
    ensures
        ({
            let closed = threaded.push(protocol::went_well()).push(protocol::went_well()).push(protocol::went_well());
            let reported = if job.progress {
                closed.push(Reply::Acknowledged)
            } else {
                closed
            };
            create_run(job, reported.push(found)) == CreateStepView::Done(
                Ok(volumes::file_list(found->Texts_0.deep_view())),
            )
        }),
{
    let created = threaded.push(protocol::went_well());
    lemma_one_more(job, threaded, protocol::went_well());
    let added = created.push(protocol::went_well());
    lemma_one_more(job, created, protocol::went_well());
    let closed = added.push(protocol::went_well());
    lemma_one_more(job, added, protocol::went_well());
    if job.progress {
        let reported = closed.push(Reply::Acknowledged);
        lemma_one_more(job, closed, Reply::Acknowledged);
        lemma_one_more(job, reported, found);
    } else {
        lemma_one_more(job, closed, found);
    }
}

/// What a job asked for in answer to a row of replies, in order.
pub open spec fn create_asked(job: CreateTaskView, replies: Seq<Reply>) -> Seq<RequestView> {
    protocol::asked(|now: CreateTaskView, reply: Reply| create::create_next(now, reply), job, replies)
}

/// What a job asks for before it creates its archive: to look at the paths of
/// its entries, to measure its files, to create the directory that its archive
/// is to lie in, if its path names one, and to set the number of threads, if it
/// was given one.
pub open spec fn requests_before_archive(
    job: CreateTaskView,
    entries: Seq<EntryInput>,
    planned: Seq<PlannedView>,
) -> Seq<RequestView> {
    let looked = seq![
        RequestView::Inspect(entry::asked_paths(entries)),
        RequestView::Inspect(budget::measured_paths(planned)),
    ];
    let housed = match job.parent {
        Some(dir) => looked.push(RequestView::CreateDirAll(dir)),
        None => looked,
    };
    match job.settings.threads {
        Some(n) => housed.push(RequestView::SetThreads(n)),
        None => housed,
    }
}

/// All that a job asks for: then to create the archive at the caller's path with
/// the settled options, to add the whole plan to it, to close it, to report the
/// whole as done if anybody listens, and to find the volumes.
pub open spec fn all_requests(
    job: CreateTaskView,
    entries: Seq<EntryInput>,
    planned: Seq<PlannedView>,
    total: u64,
) -> Seq<RequestView> {
    let created = requests_before_archive(job, entries, planned).push(
        RequestView::Create {
            path: job.settings.out_path,
            options: job.settings.options->Ok_0,
        },
    );
    let added = created.push(
        RequestView::AddBatch {
            entries: batch::batch(planned, job.settings.level),
            total_bytes: total,
            progress: job.progress,
        },
    );
    let closed = added.push(RequestView::Close);
    let told = if job.progress {
        closed.push(RequestView::Notify(ProgressData { done: total, total }))
    } else {
        closed
    };
    told.push(RequestView::DiscoverVolumes(job.settings.out_path))
}

/// How many of its requests a job has made at a stage.
spec fn requests_made(job: CreateTaskView, stage: CreateStageView) -> int {
    let housed = if job.parent is Some {
        3int
    } else {
        2
    };
    let threaded = if job.settings.threads is Some {
        housed + 1
    } else {
        housed
    };
    match stage {
        CreateStageView::Ready { entries: _, bases: _ } => 0,
        CreateStageView::Probing { entries: _, bases: _ } => 1,
        CreateStageView::Measuring { planned: _ } => 2,
        CreateStageView::MakingDir { planned: _, total: _ } => 3,
        CreateStageView::SettingThreads { planned: _, total: _ } => threaded,
        CreateStageView::Creating { planned: _, total: _ } => threaded + 1,
        CreateStageView::Writing(write) => match write.stage {
            WriteStage::Adding => threaded + 2,
            WriteStage::Closing => threaded + 3,
            WriteStage::Reporting => threaded + 4,
            WriteStage::Listing => if job.progress {
                threaded + 5
            } else {
                threaded + 4
            },
        },
    }
}

/// The plan that a row of replies leads to.
spec fn planned_by(
    entries: Seq<EntryInput>,
    bases: Seq<Seq<char>>,
    replies: Seq<Reply>,
) -> Seq<PlannedView> {
    entry::plan(entries, bases, replies[1]->Inspected_0@)->Ok_0
}

/// The total that a row of replies leads to.
spec fn total_by(entries: Seq<EntryInput>, bases: Seq<Seq<char>>, replies: Seq<Reply>) -> u64 {
    budget::total(planned_by(entries, bases, replies), replies[2]->Inspected_0@)->Ok_0
}

/// Whether what a job has asked for at a stage is the start of all that it asks
/// for.
spec fn has_asked(
    job: CreateTaskView,
    entries: Seq<EntryInput>,
    bases: Seq<Seq<char>>,
    replies: Seq<Reply>,
    asked: Seq<RequestView>,
    stage: CreateStageView,
) -> bool {
    let planned = planned_by(entries, bases, replies);
    let total = total_by(entries, bases, replies);
    match stage {
        CreateStageView::Ready { entries: _, bases: _ } => false,
        CreateStageView::Probing { entries: _, bases: _ } => asked == seq![
            RequestView::Inspect(entry::asked_paths(entries)),
        ],
        CreateStageView::Measuring { planned: _ } => asked == seq![
            RequestView::Inspect(entry::asked_paths(entries)),
            RequestView::Inspect(budget::measured_paths(planned)),
        ],
        CreateStageView::MakingDir { planned: _, total: _ } => job.parent is Some && asked
            == all_requests(job, entries, planned, total).take(requests_made(job, stage)),
        CreateStageView::SettingThreads { planned: _, total: _ } => job.settings.threads is Some
            && asked == all_requests(job, entries, planned, total).take(
            requests_made(job, stage),
        ),
        CreateStageView::Creating { planned: _, total: _ } => job.settings.options is Ok && asked
            == all_requests(job, entries, planned, total).take(requests_made(job, stage)),
        CreateStageView::Writing(write) => {
            &&& job.settings.options is Ok
            &&& write.stage == WriteStage::Reporting ==> job.progress
            &&& asked == all_requests(job, entries, planned, total).take(
                requests_made(job, stage),
            )
        },
    }
}

/// At each stage a job has asked for the start of all that it asks for.
proof fn lemma_has_asked(
    job: CreateTaskView,
    entries: Seq<EntryInput>,
    bases: Seq<Seq<char>>,
    replies: Seq<Reply>,
)
    requires
        is_fresh(job, entries, bases),
        replies.len() > 0,
    ensures
        create_run(job, replies) matches StepView::Ask { job: now, request: _ } ==> has_asked(
            job,
            entries,
            bases,
            replies,
            create_asked(job, replies),
            now.stage,
        ),
    decreases replies.len(),
{
    if replies.len() > 1 {
        let before = replies.drop_last();
        lemma_is_at(job, entries, bases, before);
        lemma_has_asked(job, entries, bases, before);
        if let StepView::Ask { job: was, request: _ } = create_run(job, before) {
            if let StepView::Ask { job: now, request } = create_run(job, replies) {
                assert(create_asked(job, replies) == create_asked(job, before).push(request));
                lemma_has_asked_next(
                    job,
                    entries,
                    bases,
                    before,
                    was,
                    replies.last(),
                    create_asked(job, before),
                );
                assert(before.push(replies.last()) == replies);
            }
        }
    } else {
        reveal_with_fuel(protocol::asked, 2);
        assert(replies.drop_last().len() == 0);
        if let StepView::Ask { job: now, request } = create_run(job, replies) {
            assert(create_asked(job, replies) == Seq::<RequestView>::empty().push(request));
        }
    }
}

/// A step further, a job has asked for one thing more.
#[verifier::rlimit(40)]
proof fn lemma_has_asked_next(
    job: CreateTaskView,
    entries: Seq<EntryInput>,
    bases: Seq<Seq<char>>,
    before: Seq<Reply>,
    was: CreateTaskView,
    reply: Reply,
    asked: Seq<RequestView>,
)
    requires
        is_at(job, entries, bases, before, was),
        has_asked(job, entries, bases, before, asked, was.stage),
    ensures
        create::create_next(was, reply) matches StepView::Ask { job: now, request } ==> has_asked(
            job,
            entries,
            bases,
            before.push(reply),
            asked.push(request),
            now.stage,
        ),
{
    let replies = before.push(reply);
    if let StepView::Ask { job: now, request } = create::create_next(was, reply) {
        let planned = planned_by(entries, bases, replies);
        let total = total_by(entries, bases, replies);
        let all = all_requests(job, entries, planned, total);
        let n = requests_made(job, now.stage);
        if was.stage is Probing {
            assert(asked.push(request) == seq![
                RequestView::Inspect(entry::asked_paths(entries)),
                RequestView::Inspect(budget::measured_paths(planned)),
            ]);
        } else if was.stage is Measuring {
            assert(planned_by(entries, bases, before) == planned);
            assert(asked == all.take(2));
            assert(asked.push(request) == all.take(n));
        } else if !(was.stage is Ready) {
            assert(planned_by(entries, bases, before) == planned);
            assert(total_by(entries, bases, before) == total);
            assert(request == all[n - 1]);
            assert(asked == all.take(n - 1));
            assert(asked.push(request) == all.take(n));
        }
    }
}

/// A job that succeeds has asked for all that it is to ask for, once each and in
/// this order: to look at the paths and to measure the files, to create the
/// directory and to set the threads if it is to, to create the archive, to add
/// the whole plan, to close, to report the end if anybody listens, and to find
/// the volumes. It does so whether or not anybody listens.
pub proof fn law_create_asks_for_all(
    job: CreateTaskView,
    entries: Seq<EntryInput>,
    bases: Seq<Seq<char>>,
    replies: Seq<Reply>,
)
    requires
        is_fresh(job, entries, bases),
        replies.len() > 0,
        replies.len() > 1 ==> create_run(job, replies.drop_last()) is Ask,
        create_run(job, replies) matches StepView::Done(Ok(_)),
    ensures
        exists|planned: Seq<PlannedView>, total: u64|
            {
                &&& #[trigger] is_granted(job, entries, bases, replies, planned, total)
                &&& planned.len() == entries.len()
                &&& job.settings.options is Ok
                &&& create_asked(job, replies) == all_requests(job, entries, planned, total)
            },
{
    if replies.len() > 1 {
        let before = replies.drop_last();
        lemma_is_at(job, entries, bases, before);
        lemma_has_asked(job, entries, bases, before);
        if let StepView::Ask { job: was, request: _ } = create_run(job, before) {
            if let CreateStageView::Writing(write) = was.stage {
                let planned = choose|planned: Seq<PlannedView>|
                    is_granted(job, entries, bases, before, planned, write.total_bytes);
                let total = write.total_bytes;
                assert(before[0] == replies[0]);
                assert(before[1] == replies[1]);
                assert(before[2] == replies[2]);
                assert(is_granted(job, entries, bases, replies, planned, total));
                entry::law_plan_is_entry_by_entry(entries, bases, replies[1]->Inspected_0@);
                assert(create_asked(job, replies) == create_asked(job, before));
                let all = all_requests(job, entries, planned, total);
                assert(all.take(all.len() as int) == all);
            }
        }
    }
}

/// A job asks for nothing more after something was not done: it ends with why a
/// directory cannot be created, with what the archive library said, or on a
/// reply to something else, or a start that is none, with an error that says
/// so.
pub proof fn law_create_says_what_failed(job: CreateTaskView, reply: Reply, later: Reply)
    ensures
        job.stage is Ready && !(reply is Begin) ==> protocol::fails(
            create::create_next(job, reply),
            Status::GenericFailure,
            "unexpected reply"@,
        ),
        create::create_next(job, reply) matches StepView::Ask { job: now, request } ==> {
            let end = create::create_next(now, later);
            &&& !protocol::answers(request, later) ==> protocol::fails(
                end,
                Status::GenericFailure,
                "unexpected reply"@,
            )
            &&& later matches Reply::Finished(Err(why)) ==> {
                &&& request is CreateDirAll ==> protocol::fails(
                    end,
                    Status::GenericFailure,
                    "mkdir: "@ + why@,
                )
                &&& request is Create || request is AddBatch || request is Close
                    ==> protocol::fails(end, Status::GenericFailure, "rar5: "@ + why@)
            }
        },
{
}

/// A view of a job hides nothing of it.
pub proof fn law_view_tells_the_creation(job: CreateArchiveTask)
    ensures
        job.deep_view().settings == job.settings.deep_view(),
        job.deep_view().parent == protocol::text_of(job.parent),
        job.deep_view().progress == job.progress,
        match (job.stage, job.deep_view().stage) {
            (
                CreateStage::Ready { entries, bases },
                CreateStageView::Ready { entries: es, bases: bs },
            ) => es == entries@ && bs == bases.deep_view(),
            (
                CreateStage::Probing { entries, bases },
                CreateStageView::Probing { entries: es, bases: bs },
            ) => es == entries@ && bs == bases.deep_view(),
            (CreateStage::Measuring { planned }, CreateStageView::Measuring { planned: p }) => p
                == planned.deep_view(),
            (
                CreateStage::MakingDir { planned, total },
                CreateStageView::MakingDir { planned: p, total: t },
            ) => p == planned.deep_view() && t == total,
            (
                CreateStage::SettingThreads { planned, total },
                CreateStageView::SettingThreads { planned: p, total: t },
            ) => p == planned.deep_view() && t == total,
            (
                CreateStage::Creating { planned, total },
                CreateStageView::Creating { planned: p, total: t },
            ) => p == planned.deep_view() && t == total,
            (CreateStage::Writing(write), CreateStageView::Writing(w)) => w == write.deep_view(),
            _ => false,
        },
{
}

} // verus!
