//! Writing the planned entries into an open archive: what creating an archive
//! and appending to one have in common.

use vstd::prelude::*;

use crate::batch;
use crate::entry::{PlannedEntry, PlannedView};
use crate::error;
use crate::progress;
use crate::progress::ProgressData;
use crate::protocol;
use crate::protocol::{Reply, Request, RequestView, Step, StepView};
use crate::volumes;

verus! {

/// What a job that writes an archive results in.
#[derive(Debug)]
pub struct CreateResult {
    /// Paths of all files produced (single archive or volumes).
    pub files: Vec<String>,
}

impl DeepView for CreateResult {
    type V = Seq<Seq<char>>;

    open spec fn deep_view(&self) -> Seq<Seq<char>> {
        self.files.deep_view()
    }
}

/// What a job that writes an archive waits for.
#[derive(Debug, Clone, Copy, PartialEq, Eq, Structural)]
pub enum WriteStage {
    /// The entries are being added.
    Adding,
    /// The archive is being closed.
    Closing,
    /// The last progress report is being passed on.
    Reporting,
    /// The volumes are being looked for.
    Listing,
}

/// A job from the moment it adds its entries to an open archive.
#[derive(Debug)]
pub struct BatchWrite {
    pub archive_path: String,
    pub total_bytes: u64,
    pub progress: bool,
    pub stage: WriteStage,
}

/// The mathematical view of a [`BatchWrite`].
pub struct BatchWriteView {
    pub archive_path: Seq<char>,
    pub total_bytes: u64,
    pub progress: bool,
    pub stage: WriteStage,
}

impl DeepView for BatchWrite {
    type V = BatchWriteView;

    open spec fn deep_view(&self) -> BatchWriteView {
        BatchWriteView {
            archive_path: self.archive_path@,
            total_bytes: self.total_bytes,
            progress: self.progress,
            stage: self.stage,
        }
    }
}

/// The job that starts to add entries to the open archive, and what it asks.
pub open spec fn write_start(
    archive_path: Seq<char>,
    entries: Seq<PlannedView>,
    level: u8,
    total_bytes: u64,
    progress: bool,
) -> (BatchWriteView, RequestView) {
    (
        BatchWriteView { archive_path, total_bytes, progress, stage: WriteStage::Adding },
        RequestView::AddBatch { entries: batch::batch(entries, level), total_bytes, progress },
    )
}

/// The job at a later stage.
pub open spec fn at_stage(job: BatchWriteView, stage: WriteStage) -> BatchWriteView {
    BatchWriteView { stage, ..job }
}

/// What the job does next: add, close, report the whole as done if anybody
/// listens, and list the files; what the archive library says against it ends
/// it.
pub open spec fn write_next(job: BatchWriteView, reply: Reply) -> StepView<
    BatchWriteView,
    Seq<Seq<char>>,
> {
    match (job.stage, reply) {
        (WriteStage::Adding, Reply::Finished(Err(said))) => StepView::Done(
            Err(error::library_failure(said@)),
        ),
        (WriteStage::Adding, Reply::Finished(Ok(()))) => StepView::Ask {
            job: at_stage(job, WriteStage::Closing),
            request: RequestView::Close,
        },
        (WriteStage::Closing, Reply::Finished(Err(said))) => StepView::Done(
            Err(error::library_failure(said@)),
        ),
        (WriteStage::Closing, Reply::Finished(Ok(()))) => if job.progress {
            StepView::Ask {
                job: at_stage(job, WriteStage::Reporting),
                request: RequestView::Notify(
                    ProgressData { done: job.total_bytes, total: job.total_bytes },
                ),
            }
        } else {
            StepView::Ask {
                job: at_stage(job, WriteStage::Listing),
                request: RequestView::DiscoverVolumes(job.archive_path),
            }
        },
        (WriteStage::Reporting, Reply::Acknowledged) => StepView::Ask {
            job: at_stage(job, WriteStage::Listing),
            request: RequestView::DiscoverVolumes(job.archive_path),
        },
        (WriteStage::Listing, Reply::Texts(paths)) => StepView::Done(
            Ok(volumes::file_list(paths.deep_view())),
        ),
        _ => StepView::Done(Err(protocol::unexpected_reply())),
    }
}

/// Whether the job waits for such a reply.
pub open spec fn write_awaits(job: BatchWriteView, reply: Reply) -> bool {
    match job.stage {
        WriteStage::Adding => reply is Finished,
        WriteStage::Closing => reply is Finished,
        WriteStage::Reporting => reply is Acknowledged,
        WriteStage::Listing => reply is Texts,
    }
}

/// Starts to add the planned entries to the open archive.
pub fn write_batch(
    archive_path: String,
    planned: Vec<PlannedEntry>,
    level: u8,
    total_bytes: u64,
    progress: bool,
) -> (r: (BatchWrite, Request))
    ensures
        (r.0.deep_view(), r.1.deep_view()) == write_start(
            archive_path@,
            planned.deep_view(),
            level,
            total_bytes,
            progress,
        ),
{
    let entries = batch::build_batch(planned, level);
    (
        BatchWrite { archive_path, total_bytes, progress, stage: WriteStage::Adding },
        Request::AddBatch { entries, total_bytes, progress },
    )
}

impl BatchWrite {
    /// Goes on to ask for the volumes.
    fn list(self) -> (r: Step<BatchWrite, CreateResult>)
        ensures
            r.deep_view() == (StepView::<BatchWriteView, Seq<Seq<char>>>::Ask {
                job: at_stage(self.deep_view(), WriteStage::Listing),
                request: RequestView::DiscoverVolumes(self.archive_path@),
            }),
    {
        let request = Request::DiscoverVolumes(self.archive_path.clone());
        Step::Ask { job: BatchWrite { stage: WriteStage::Listing, ..self }, request }
    }

    /// Takes in a reply, and goes on.
    pub fn resume(self, reply: Reply) -> (r: Step<BatchWrite, CreateResult>)
        ensures
            r.deep_view() == write_next(self.deep_view(), reply),
    {
        match (self.stage, reply) {
            (WriteStage::Adding, Reply::Finished(Err(said))) => protocol::library_failed(
                said.as_str(),
            ),
            (WriteStage::Adding, Reply::Finished(Ok(()))) => Step::Ask {
                job: BatchWrite { stage: WriteStage::Closing, ..self },
                request: Request::Close,
            },
            (WriteStage::Closing, Reply::Finished(Err(said))) => protocol::library_failed(
                said.as_str(),
            ),
            (WriteStage::Closing, Reply::Finished(Ok(()))) => {
                if self.progress {
                    let report = progress::completed(self.total_bytes);
                    Step::Ask {
                        job: BatchWrite { stage: WriteStage::Reporting, ..self },
                        request: Request::Notify(report),
                    }
                } else {
                    self.list()
                }
            },
            (WriteStage::Reporting, Reply::Acknowledged) => self.list(),
            (WriteStage::Listing, Reply::Texts(paths)) => Step::Done(
                Ok(CreateResult { files: volumes::list_files(paths) }),
            ),
            _ => protocol::refuse_reply(),
        }
    }
}

/// The job waits for just the replies that answer what it asked.
pub proof fn law_write_awaits_answers(job: BatchWriteView, reply: Reply, later: Reply)
    ensures
        write_next(job, reply) matches StepView::Ask { job: next, request } ==> (write_awaits(
            next,
            later,
        ) <==> protocol::answers(request, later)),
{
}

/// The whole is reported as done only where somebody listens, and not before
/// the archive is closed.
pub proof fn law_last_report_is_the_whole(job: BatchWriteView, reply: Reply)
    ensures
        write_next(job, reply) matches StepView::Ask {
            job: _,
            request: RequestView::Notify(report),
        } ==> {
            &&& job.progress
            &&& job.stage == WriteStage::Closing
            &&& protocol::says_done(reply)
            &&& report == (ProgressData { done: job.total_bytes, total: job.total_bytes })
        },
{
}

/// Where the archive library fails, the job passes on what it said, and asks
/// for nothing more.
pub proof fn law_write_passes_failures_on(job: BatchWriteView, said: String)
    requires
        job.stage == WriteStage::Adding || job.stage == WriteStage::Closing,
    ensures
        write_next(job, Reply::Finished(Err(said))) == StepView::<
            BatchWriteView,
            Seq<Seq<char>>,
        >::Done(Err(error::library_failure(said@))),
{
}

/// Where a job that writes stands after a row of replies.
pub open spec fn write_run(job: BatchWriteView, replies: Seq<Reply>) -> StepView<
    BatchWriteView,
    Seq<Seq<char>>,
> {
    protocol::run(|now: BatchWriteView, reply: Reply| write_next(now, reply), job, replies)
}

/// A job first asks that every entry be added, with the total and whether
/// anybody listens; then, each thing being done, that the archive be closed,
/// that the whole be reported where anybody listens, and that the volumes be
/// found. It results in the list of what was found.
pub proof fn law_write_asks_for_all(
    archive_path: Seq<char>,
    entries: Seq<PlannedView>,
    level: u8,
    total: u64,
    progress: bool,
    added: Reply,
    closed: Reply,
    found: Vec<String>,
)
    requires
        protocol::says_done(added),
        protocol::says_done(closed),
    ensures
        ({
            let (job, first) = write_start(archive_path, entries, level, total, progress);
            let finish = RequestView::DiscoverVolumes(archive_path);
            let report = RequestView::Notify(ProgressData { done: total, total });
            let quiet = write_run(job, seq![added, closed]);
            let told = write_run(job, seq![added, closed, Reply::Acknowledged]);
            let list = StepView::<BatchWriteView, Seq<Seq<char>>>::Done(
                Ok(volumes::file_list(found.deep_view())),
            );
            &&& first == (RequestView::AddBatch {
                entries: batch::batch(entries, level),
                total_bytes: total,
                progress,
            })
            &&& write_run(job, seq![added]) is Ask && write_run(job, seq![added])->request
                == RequestView::Close
            &&& quiet is Ask
            &&& !progress ==> quiet->request == finish && write_run(
                job,
                seq![added, closed, Reply::Texts(found)],
            ) == list
            &&& progress ==> quiet->request == report && told is Ask && told->request == finish
                && write_run(job, seq![added, closed, Reply::Acknowledged, Reply::Texts(found)])
                == list
        }),
{
    let one = seq![added];
    let two = one.push(closed);
    let three = two.push(Reply::Acknowledged);
    reveal_with_fuel(protocol::run, 4);
    assert(seq![added, closed] == two);
    assert(seq![added, closed, Reply::Acknowledged] == three);
    assert(seq![added, closed, Reply::Texts(found)] == two.push(Reply::Texts(found)));
    assert(seq![added, closed, Reply::Acknowledged, Reply::Texts(found)] == three.push(
        Reply::Texts(found),
    ));
    assert(two.drop_last() == one);
    assert(three.drop_last() == two);
    assert(two.push(Reply::Texts(found)).drop_last() == two);
    assert(three.push(Reply::Texts(found)).drop_last() == three);
}

/// A job ends on the first thing that is not done: with what the archive library
/// said, or on a reply to something else with an error that says so.
pub proof fn law_write_ends_on_failures(job: BatchWriteView, reply: Reply)
    ensures
        job.stage == WriteStage::Adding || job.stage == WriteStage::Closing ==> (
        reply matches Reply::Finished(Err(said)) ==> protocol::fails(
            write_next(job, reply),
            error::Status::GenericFailure,
            "rar5: "@ + said@,
        )),
        !write_awaits(job, reply) ==> protocol::fails(
            write_next(job, reply),
            error::Status::GenericFailure,
            "unexpected reply"@,
        ),
{
}

/// A view of a job that writes hides nothing of it, and neither does that of a
/// result.
pub proof fn law_view_tells_the_write(job: BatchWrite, result: CreateResult)
    ensures
        job.deep_view().archive_path == job.archive_path@,
        job.deep_view().total_bytes == job.total_bytes,
        job.deep_view().progress == job.progress,
        job.deep_view().stage == job.stage,
        result.deep_view() == result.files.deep_view(),
{
}

} // verus!
