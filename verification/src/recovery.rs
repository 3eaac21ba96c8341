//! Repairing archives, and rebuilding missing volumes.

use vstd::prelude::*;

use crate::error;
use crate::error::{Error, Status};
use crate::protocol;
use crate::protocol::{Reply, Request, RequestView, Step, StepView};

verus! {

/// How far a job that repairs an archive has come.
#[derive(Debug, Clone, Copy, PartialEq, Eq, Structural)]
pub enum RepairStage {
    /// Nothing was asked yet.
    Ready,
    /// The damaged archive is being read.
    Reading,
    /// It is being repaired.
    Repairing,
    /// The repaired archive is being written.
    Writing,
}

/// A job that repairs an archive.
#[derive(Debug)]
pub struct RepairArchiveTask {
    pub input_path: String,
    pub output_path: String,
    pub stage: RepairStage,
}

/// The mathematical view of a [`RepairArchiveTask`].
pub struct RepairTaskView {
    pub input_path: Seq<char>,
    pub output_path: Seq<char>,
    pub stage: RepairStage,
}

impl DeepView for RepairArchiveTask {
    type V = RepairTaskView;

    open spec fn deep_view(&self) -> RepairTaskView {
        RepairTaskView {
            input_path: self.input_path@,
            output_path: self.output_path@,
            stage: self.stage,
        }
    }
}

/// The job asks for something, and is at a later stage.
pub open spec fn repair_asks(
    job: RepairTaskView,
    stage: RepairStage,
    request: RequestView,
) -> StepView<RepairTaskView, ()> {
    StepView::Ask { job: RepairTaskView { stage, ..job }, request }
}

/// What the job does next: read, repair, write what came of it.
pub open spec fn repair_next(job: RepairTaskView, reply: Reply) -> StepView<RepairTaskView, ()> {
    match (job.stage, reply) {
        (RepairStage::Ready, Reply::Begin) => repair_asks(
            job,
            RepairStage::Reading,
            RequestView::ReadFile(job.input_path),
        ),
        (RepairStage::Reading, Reply::Bytes(Err(why))) => StepView::Done(
            Err(error::failure("read "@ + job.input_path + ": "@ + why@)),
        ),
        (RepairStage::Reading, Reply::Bytes(Ok(data))) => repair_asks(
            job,
            RepairStage::Repairing,
            RequestView::Repair(data@),
        ),
        (RepairStage::Repairing, Reply::Bytes(Err(said))) => StepView::Done(
            Err(error::failure("repair failed: "@ + said@)),
        ),
        (RepairStage::Repairing, Reply::Bytes(Ok(data))) => repair_asks(
            job,
            RepairStage::Writing,
            RequestView::WriteFile { path: job.output_path, data: data@ },
        ),
        (RepairStage::Writing, Reply::Finished(Err(why))) => StepView::Done(
            Err(error::failure("write "@ + job.output_path + ": "@ + why@)),
        ),
        (RepairStage::Writing, Reply::Finished(Ok(()))) => StepView::Done(Ok(())),
        _ => StepView::Done(Err(protocol::unexpected_reply())),
    }
}

/// A job that repairs a damaged archive by its inline recovery record: it
/// reads `input_path`, and writes the repaired archive to `output_path`.
pub fn repair_archive(input_path: String, output_path: String) -> (r: RepairArchiveTask)
    ensures
        r.deep_view() == (RepairTaskView {
            input_path: input_path@,
            output_path: output_path@,
            stage: RepairStage::Ready,
        }),
        r.input_path@ == input_path@,
        r.output_path@ == output_path@,
{
    RepairArchiveTask { input_path, output_path, stage: RepairStage::Ready }
}

impl RepairArchiveTask {
    /// Asks for something, at a later stage.
    fn ask(self, stage: RepairStage, request: Request) -> (r: Step<RepairArchiveTask, ()>)
        ensures
            r.deep_view() == repair_asks(self.deep_view(), stage, request.deep_view()),
    {
        Step::Ask { job: RepairArchiveTask { stage, ..self }, request }
    }

    /// Takes in a reply, and goes on.
    pub fn compute(self, reply: Reply) -> (r: Step<RepairArchiveTask, ()>)
        ensures
            r.deep_view() == repair_next(self.deep_view(), reply),
    {
        match (self.stage, reply) {
            (RepairStage::Ready, Reply::Begin) => {
                let request = Request::ReadFile(self.input_path.clone());
                self.ask(RepairStage::Reading, request)
            },
            (RepairStage::Reading, Reply::Bytes(outcome)) => match outcome {
                Err(why) => Step::Done(
                    Err(
                        Error::failure(
                            "read ".to_owned().concat(self.input_path.as_str()).concat(
                                ": ",
                            ).concat(why.as_str()),
                        ),
                    ),
                ),
                Ok(data) => self.ask(RepairStage::Repairing, Request::Repair(data)),
            },
            (RepairStage::Repairing, Reply::Bytes(outcome)) => match outcome {
                Err(said) => Step::Done(
                    Err(Error::failure("repair failed: ".to_owned().concat(said.as_str()))),
                ),
                Ok(data) => {
                    let request = Request::WriteFile { path: self.output_path.clone(), data };
                    self.ask(RepairStage::Writing, request)
                },
            },
            (RepairStage::Writing, Reply::Finished(outcome)) => match outcome {
                Err(why) => Step::Done(
                    Err(
                        Error::failure(
                            "write ".to_owned().concat(self.output_path.as_str()).concat(
                                ": ",
                            ).concat(why.as_str()),
                        ),
                    ),
                ),
                Ok(()) => Step::Done(Ok(())),
            },
            _ => protocol::refuse_reply(),
        }
    }
}

/// A job that rebuilds missing volumes.
#[derive(Debug)]
pub enum RebuildVolumesTask {
    /// Nothing was asked yet.
    Ready { first_volume: String },
    /// The volumes are being rebuilt.
    Rebuilding,
}

/// The mathematical view of a [`RebuildVolumesTask`].
pub enum RebuildTaskView {
    Ready { first_volume: Seq<char> },
    Rebuilding,
}

impl DeepView for RebuildVolumesTask {
    type V = RebuildTaskView;

    open spec fn deep_view(&self) -> RebuildTaskView {
        match *self {
            RebuildVolumesTask::Ready { first_volume } => RebuildTaskView::Ready {
                first_volume: first_volume@,
            },
            RebuildVolumesTask::Rebuilding => RebuildTaskView::Rebuilding,
        }
    }
}

/// What the job does next: rebuild, and pass on the paths as they come.
pub open spec fn rebuild_next(job: RebuildTaskView, reply: Reply) -> StepView<
    RebuildTaskView,
    Seq<Seq<char>>,
> {
    match (job, reply) {
        (RebuildTaskView::Ready { first_volume }, Reply::Begin) => StepView::Ask {
            job: RebuildTaskView::Rebuilding,
            request: RequestView::RebuildVolumes(first_volume),
        },
        (RebuildTaskView::Rebuilding, Reply::Rebuilt(Err(said))) => StepView::Done(
            Err(error::failure("rebuild failed: "@ + said@)),
        ),
        (RebuildTaskView::Rebuilding, Reply::Rebuilt(Ok(paths))) => StepView::Done(
            Ok(paths.deep_view()),
        ),
        _ => StepView::Done(Err(protocol::unexpected_reply())),
    }
}

/// A job that rebuilds the missing volumes of a multi-volume set from its
/// `.rev` recovery volumes (like WinRAR `rc`). `first_volume` is the path of
/// `name.part1.rar`; the result lists the volumes produced.
pub fn rebuild_missing_volumes(first_volume: String) -> (r: RebuildVolumesTask)
    ensures
        r.deep_view() == (RebuildTaskView::Ready { first_volume: first_volume@ }),
{
    RebuildVolumesTask::Ready { first_volume }
}

impl RebuildVolumesTask {
    /// Takes in a reply, and goes on.
    pub fn compute(self, reply: Reply) -> (r: Step<RebuildVolumesTask, Vec<String>>)
        ensures
            r.deep_view() == rebuild_next(self.deep_view(), reply),
    {
        match (self, reply) {
            (RebuildVolumesTask::Ready { first_volume }, Reply::Begin) => Step::Ask {
                job: RebuildVolumesTask::Rebuilding,
                request: Request::RebuildVolumes(first_volume),
            },
            (RebuildVolumesTask::Rebuilding, Reply::Rebuilt(outcome)) => match outcome {
                Err(said) => Step::Done(
                    Err(Error::failure("rebuild failed: ".to_owned().concat(said.as_str()))),
                ),
                Ok(paths) => Step::Done(Ok(paths)),
            },
            _ => protocol::refuse_reply(),
        }
    }
}

/// Whether a job that repairs an archive waits for such a reply.
pub open spec fn repair_awaits(job: RepairTaskView, reply: Reply) -> bool {
    match job.stage {
        RepairStage::Ready => reply is Begin,
        RepairStage::Reading => reply is Bytes,
        RepairStage::Repairing => reply is Bytes,
        RepairStage::Writing => reply is Finished,
    }
}

/// Whether a job that rebuilds volumes waits for such a reply.
pub open spec fn rebuild_awaits(job: RebuildTaskView, reply: Reply) -> bool {
    match job {
        RebuildTaskView::Ready { first_volume: _ } => reply is Begin,
        RebuildTaskView::Rebuilding => reply is Rebuilt,
    }
}

/// A job that repairs an archive waits for just the replies that answer what
/// it asked, and writes nothing but what the repair gave, to the output path.
pub proof fn law_repair_awaits_answers(job: RepairTaskView, reply: Reply, later: Reply)
    ensures
        repair_next(job, reply) matches StepView::Ask { job: next, request } ==> {
            &&& repair_awaits(next, later) <==> protocol::answers(request, later)
            &&& protocol::touches_disk(request) ==> {
                &&& job.stage == RepairStage::Repairing
                &&& reply matches Reply::Bytes(Ok(repaired))
                &&& request == (RequestView::WriteFile { path: job.output_path, data: repaired@ })
            }
        },
{
}

/// A job that rebuilds volumes waits for just the replies that answer what it
/// asked.
pub proof fn law_rebuild_awaits_answers(job: RebuildTaskView, reply: Reply, later: Reply)
    ensures
        rebuild_next(job, reply) matches StepView::Ask { job: next, request } ==> (rebuild_awaits(
            next,
            later,
        ) <==> protocol::answers(request, later)),
{
}

/// Where a job that repairs an archive stands after a row of replies.
pub open spec fn repair_run(job: RepairTaskView, replies: Seq<Reply>) -> StepView<
    RepairTaskView,
    (),
> {
    protocol::run(|now: RepairTaskView, reply: Reply| repair_next(now, reply), job, replies)
}

/// A job hands the file that it read over to be repaired, writes what came of
/// that to the output path, and ends well where that is done.
pub proof fn law_repair_writes_what_was_repaired(
    job: RepairTaskView,
    damaged: Vec<u8>,
    repaired: Vec<u8>,
    written: Reply,
)
    requires
        job.stage == RepairStage::Ready,
    ensures
        ({
            let read = seq![Reply::Begin, Reply::Bytes(Ok(damaged))];
            let mended = read.push(Reply::Bytes(Ok(repaired)));
            &&& repair_run(job, read) is Ask && repair_run(job, read)->request
                == RequestView::Repair(damaged@)
            &&& repair_run(job, mended) is Ask && repair_run(job, mended)->request == (
            RequestView::WriteFile { path: job.output_path, data: repaired@ })
            &&& protocol::says_done(written) ==> repair_run(
                job,
                mended.push(written),
            ) matches StepView::Done(Ok(_))
        }),
{
    let begin = seq![Reply::Begin];
    let read = begin.push(Reply::Bytes(Ok(damaged)));
    let mended = read.push(Reply::Bytes(Ok(repaired)));
    reveal_with_fuel(protocol::run, 4);
    assert(seq![Reply::Begin, Reply::Bytes(Ok(damaged))] == read);
    assert(read.drop_last() == begin);
    assert(mended.drop_last() == read);
    assert(mended.push(written).drop_last() == mended);
}

/// A job reads the caller's file first, and ends on the first thing that cannot
/// be done, saying what and why; on a reply to something else it says that.
pub proof fn law_repair_says_what_failed(
    input_path: Seq<char>,
    output_path: Seq<char>,
    damaged: Vec<u8>,
    repaired: Vec<u8>,
    why: String,
)
    ensures
        ({
            let job = RepairTaskView { input_path, output_path, stage: RepairStage::Ready };
            let first = repair_run(job, seq![Reply::Begin]);
            let bad = Reply::Bytes(Err(why));
            let unread = repair_run(job, seq![Reply::Begin, bad]);
            let unrepaired = repair_run(job, seq![Reply::Begin, Reply::Bytes(Ok(damaged)), bad]);
            let unwritten = repair_run(
                job,
                seq![
                    Reply::Begin,
                    Reply::Bytes(Ok(damaged)),
                    Reply::Bytes(Ok(repaired)),
                    Reply::Finished(Err(why)),
                ],
            );
            let status = Status::GenericFailure;
            &&& first is Ask && first->request == RequestView::ReadFile(input_path)
            &&& protocol::fails(unread, status, "read "@ + input_path + ": "@ + why@)
            &&& protocol::fails(unrepaired, status, "repair failed: "@ + why@)
            &&& protocol::fails(unwritten, status, "write "@ + output_path + ": "@ + why@)
        }),
{
    let begin = seq![Reply::Begin];
    let read = begin.push(Reply::Bytes(Ok(damaged)));
    let mended = read.push(Reply::Bytes(Ok(repaired)));
    let bad = Reply::Bytes(Err(why));
    reveal_with_fuel(protocol::run, 4);
    assert(seq![Reply::Begin, bad] == begin.push(bad));
    assert(seq![Reply::Begin, Reply::Bytes(Ok(damaged)), bad] == read.push(bad));
    assert(seq![
        Reply::Begin,
        Reply::Bytes(Ok(damaged)),
        Reply::Bytes(Ok(repaired)),
        Reply::Finished(Err(why)),
    ] == mended.push(Reply::Finished(Err(why))));
    assert(begin.push(bad).drop_last() == begin);
    assert(read.drop_last() == begin);
    assert(read.push(bad).drop_last() == read);
    assert(mended.drop_last() == read);
    assert(mended.push(Reply::Finished(Err(why))).drop_last() == mended);
}

/// Where a job that rebuilds volumes stands after a row of replies.
pub open spec fn rebuild_run(job: RebuildTaskView, replies: Seq<Reply>) -> StepView<
    RebuildTaskView,
    Seq<Seq<char>>,
> {
    protocol::run(|now: RebuildTaskView, reply: Reply| rebuild_next(now, reply), job, replies)
}

/// A job asks for the volumes of the caller's set to be rebuilt, and results in
/// the paths of all volumes that were, each in its place; where they cannot be
/// rebuilt, it says why.
pub proof fn law_rebuild_lists_every_volume(
    first_volume: Seq<char>,
    paths: Vec<String>,
    why: String,
)
    ensures
        ({
            let job = RebuildTaskView::Ready { first_volume };
            let first = rebuild_run(job, seq![Reply::Begin]);
            let end = rebuild_run(job, seq![Reply::Begin, Reply::Rebuilt(Ok(paths))]);
            let failed = rebuild_run(job, seq![Reply::Begin, Reply::Rebuilt(Err(why))]);
            &&& first is Ask && first->request == RequestView::RebuildVolumes(first_volume)
            &&& end matches StepView::Done(Ok(listed)) && listed.len() == paths@.len() && forall|
                i: int,
            |
                0 <= i < listed.len() ==> #[trigger] listed[i] == paths@[i]@
            &&& protocol::fails(failed, Status::GenericFailure, "rebuild failed: "@ + why@)
        }),
{
    let begin = seq![Reply::Begin];
    let good = begin.push(Reply::Rebuilt(Ok(paths)));
    let bad = begin.push(Reply::Rebuilt(Err(why)));
    reveal_with_fuel(protocol::run, 2);
    assert(seq![Reply::Begin, Reply::Rebuilt(Ok(paths))] == good);
    assert(seq![Reply::Begin, Reply::Rebuilt(Err(why))] == bad);
    assert(good.drop_last() == begin);
    assert(bad.drop_last() == begin);
}

/// A job ends on a reply that it does not wait for, with an error that says so.
pub proof fn law_recovery_ends_on_other_replies(
    repair: RepairTaskView,
    rebuild: RebuildTaskView,
    reply: Reply,
)
    ensures
        !repair_awaits(repair, reply) ==> protocol::fails(
            repair_next(repair, reply),
            Status::GenericFailure,
            "unexpected reply"@,
        ),
        !rebuild_awaits(rebuild, reply) ==> protocol::fails(
            rebuild_next(rebuild, reply),
            Status::GenericFailure,
            "unexpected reply"@,
        ),
{
}

/// A view of a job hides nothing of it.
pub proof fn law_view_tells_the_recovery(repair: RepairArchiveTask, rebuild: RebuildVolumesTask)
    ensures
        repair.deep_view().input_path == repair.input_path@,
        repair.deep_view().output_path == repair.output_path@,
        repair.deep_view().stage == repair.stage,
        match (rebuild, rebuild.deep_view()) {
            (
                RebuildVolumesTask::Ready { first_volume },
                RebuildTaskView::Ready { first_volume: v },
            ) => v == first_volume@,
            (RebuildVolumesTask::Rebuilding, RebuildTaskView::Rebuilding) => true,
            _ => false,
        },
{
}

} // verus!
