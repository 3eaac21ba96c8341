//! Extracting an archive.

use vstd::prelude::*;

use crate::error;
use crate::error::{Error, Status};
use crate::options;
use crate::options::{ExtractArchiveOptions, ExtractOptions};
use crate::protocol;
use crate::protocol::{Reply, Request, RequestView, Step, StepView};

verus! {

/// How far a job that extracts an archive has come.
#[derive(Debug, Clone, Copy, PartialEq, Eq, Structural)]
pub enum ExtractStage {
    /// Nothing was asked yet.
    Ready,
    /// The archive is being opened.
    Opening,
    /// The destination is being created.
    MakingDir,
    /// The members are being extracted.
    Extracting,
}

/// A job that extracts an archive.
#[derive(Debug)]
pub struct ExtractArchiveTask {
    pub archive_path: String,
    pub password: Option<String>,
    pub dest_path: String,
    pub options: ExtractOptions,
    pub stage: ExtractStage,
}

/// The mathematical view of an [`ExtractArchiveTask`].
pub struct ExtractTaskView {
    pub archive_path: Seq<char>,
    pub password: Option<Seq<char>>,
    pub dest_path: Seq<char>,
    pub options: ExtractOptions,
    pub stage: ExtractStage,
}

impl DeepView for ExtractArchiveTask {
    type V = ExtractTaskView;

    open spec fn deep_view(&self) -> ExtractTaskView {
        ExtractTaskView {
            archive_path: self.archive_path@,
            password: self.password.deep_view(),
            dest_path: self.dest_path@,
            options: self.options,
            stage: self.stage,
        }
    }
}

/// The job asks for something, and is at a later stage.
pub open spec fn extract_asks(
    job: ExtractTaskView,
    stage: ExtractStage,
    request: RequestView,
) -> StepView<ExtractTaskView, ()> {
    StepView::Ask { job: ExtractTaskView { stage, ..job }, request }
}

/// What the job does next: open, create the destination, extract.
pub open spec fn extract_next(job: ExtractTaskView, reply: Reply) -> StepView<
    ExtractTaskView,
    (),
> {
    match (job.stage, reply) {
        (ExtractStage::Ready, Reply::Begin) => extract_asks(
            job,
            ExtractStage::Opening,
            RequestView::Open { path: job.archive_path, password: job.password },
        ),
        (ExtractStage::Opening, Reply::Finished(Err(said))) => StepView::Done(
            Err(error::library_failure(said@)),
        ),
        (ExtractStage::Opening, Reply::Finished(Ok(()))) => extract_asks(
            job,
            ExtractStage::MakingDir,
            RequestView::CreateDirAll(job.dest_path),
        ),
        (ExtractStage::MakingDir, Reply::Finished(Err(why))) => StepView::Done(
            Err(error::failure("mkdir: "@ + why@)),
        ),
        (ExtractStage::MakingDir, Reply::Finished(Ok(()))) => extract_asks(
            job,
            ExtractStage::Extracting,
            RequestView::ExtractAll { dest: job.dest_path, options: job.options },
        ),
        (ExtractStage::Extracting, Reply::Finished(Err(said))) => StepView::Done(
            Err(error::library_failure(said@)),
        ),
        (ExtractStage::Extracting, Reply::Finished(Ok(()))) => StepView::Done(Ok(())),
        _ => StepView::Done(Err(protocol::unexpected_reply())),
    }
}

/// Whether the job waits for such a reply.
pub open spec fn extract_awaits(job: ExtractTaskView, reply: Reply) -> bool {
    match job.stage {
        ExtractStage::Ready => reply is Begin,
        _ => reply is Finished,
    }
}

/// A job that extracts an archive into a directory. There is no limit on the
/// size of a member or of them all.
pub fn extract_archive(archive_path: String, opts: ExtractArchiveOptions) -> (r: ExtractArchiveTask)
    ensures
        r.deep_view() == (ExtractTaskView {
            archive_path: archive_path@,
            password: options::password_of(opts.password),
            dest_path: opts.dest_path@,
            options: options::extract_options_of(opts),
            stage: ExtractStage::Ready,
        }),
        r.archive_path@ == archive_path@,
        r.dest_path@ == opts.dest_path@,
        r.options.flat_paths <==> opts.flat == Some(true),
        opts.password matches Some(p) ==> p@.len() > 0 ==> r.password is Some && r.password->0@ == p@,
        opts.password is None || opts.password->0@.len() == 0 ==> r.password is None,
{
    let options = options::settle_extract(&opts);
    ExtractArchiveTask {
        archive_path,
        password: options::pick_password(opts.password),
        dest_path: opts.dest_path,
        options,
        stage: ExtractStage::Ready,
    }
}

impl ExtractArchiveTask {
    /// Asks for something, at a later stage.
    fn ask(self, stage: ExtractStage, request: Request) -> (r: Step<ExtractArchiveTask, ()>)
        ensures
            r.deep_view() == extract_asks(self.deep_view(), stage, request.deep_view()),
    {
        Step::Ask { job: ExtractArchiveTask { stage, ..self }, request }
    }

    /// Takes in a reply, and goes on.
    pub fn compute(self, reply: Reply) -> (r: Step<ExtractArchiveTask, ()>)
        ensures
            r.deep_view() == extract_next(self.deep_view(), reply),
    {
        match (self.stage, reply) {
            (ExtractStage::Ready, Reply::Begin) => {
                let request = Request::Open {
                    path: self.archive_path.clone(),
                    password: options::same_password(&self.password),
                };
                self.ask(ExtractStage::Opening, request)
            },
            (ExtractStage::Opening, Reply::Finished(outcome)) => match outcome {
                Err(said) => protocol::library_failed(said.as_str()),
                Ok(()) => {
                    let request = Request::CreateDirAll(self.dest_path.clone());
                    self.ask(ExtractStage::MakingDir, request)
                },
            },
            (ExtractStage::MakingDir, Reply::Finished(outcome)) => match outcome {
                Err(why) => Step::Done(
                    Err(Error::failure("mkdir: ".to_owned().concat(why.as_str()))),
                ),
                Ok(()) => {
                    let request = Request::ExtractAll {
                        dest: self.dest_path.clone(),
                        options: self.options,
                    };
                    self.ask(ExtractStage::Extracting, request)
                },
            },
            (ExtractStage::Extracting, Reply::Finished(outcome)) => match outcome {
                Err(said) => protocol::library_failed(said.as_str()),
                Ok(()) => Step::Done(Ok(())),
            },
            _ => protocol::refuse_reply(),
        }
    }
}

/// The job waits for just the replies that answer what it asked.
pub proof fn law_extract_awaits_answers(job: ExtractTaskView, reply: Reply, later: Reply)
    ensures
        extract_next(job, reply) matches StepView::Ask { job: next, request } ==> (extract_awaits(
            next,
            later,
        ) <==> protocol::answers(request, later)),
{
}

/// Where a job stands after a row of replies, of which there is one at least.
pub open spec fn extract_run(job: ExtractTaskView, replies: Seq<Reply>) -> StepView<
    ExtractTaskView,
    (),
> {
    protocol::run(|now: ExtractTaskView, reply: Reply| extract_next(now, reply), job, replies)
}

/// Whether these replies lead a job to a stage: first the start, and then word
/// that each thing asked is done.
pub open spec fn led_to(replies: Seq<Reply>, stage: ExtractStage) -> bool {
    let asked: nat = match stage {
        ExtractStage::Ready => 0,
        ExtractStage::Opening => 1,
        ExtractStage::MakingDir => 2,
        ExtractStage::Extracting => 3,
    };
    replies.len() == asked && all_went_well(replies)
}

/// Whether nothing in these replies, the start and what follows it, speaks
/// against the job.
pub open spec fn all_went_well(replies: Seq<Reply>) -> bool {
    &&& replies.len() > 0 ==> replies[0] is Begin
    &&& forall|i: int| 0 < i < replies.len() ==> protocol::says_done(#[trigger] replies[i])
}

/// A job at any stage has come there by the replies that lead to it.
proof fn lemma_led_to(job: ExtractTaskView, replies: Seq<Reply>)
    requires
        job.stage == ExtractStage::Ready,
        replies.len() > 0,
    ensures
        extract_run(job, replies) matches StepView::Ask { job: now, request: _ } ==> now == (
        ExtractTaskView { stage: now.stage, ..job }) && now.stage != ExtractStage::Ready && led_to(
            replies,
            now.stage,
        ),
    decreases replies.len(),
{
    if replies.len() > 1 {
        let before = replies.drop_last();
        lemma_led_to(job, before);
        assert forall|i: int| 0 < i < before.len() && all_went_well(before) implies
            protocol::says_done(#[trigger] replies[i]) by {
            assert(replies[i] == before[i]);
        }
    }
}

/// Nothing is extracted before the archive is open and the destination is
/// there; then the archive is extracted to where, and as, the caller asked.
pub proof fn law_extract_opens_first(job: ExtractTaskView, replies: Seq<Reply>)
    requires
        job.stage == ExtractStage::Ready,
        replies.len() > 0,
    ensures
        extract_run(job, replies) matches StepView::Ask { job: _, request } ==> {
            &&& request matches RequestView::Open { path, password } ==> path == job.archive_path
                && password == job.password
            &&& request matches RequestView::CreateDirAll(dir) ==> dir == job.dest_path && led_to(
                replies,
                ExtractStage::MakingDir,
            )
            &&& request matches RequestView::ExtractAll { dest, options } ==> dest == job.dest_path
                && options == job.options && led_to(replies, ExtractStage::Extracting)
        },
{
    lemma_led_to(job, replies);
    if replies.len() > 1 {
        lemma_led_to(job, replies.drop_last());
    }
}

/// A job ends well exactly if the archive can be opened, the destination be
/// created, and the members be extracted.
pub proof fn law_extract_succeeds(job: ExtractTaskView, replies: Seq<Reply>)
    requires
        job.stage == ExtractStage::Ready,
        replies.len() == 4,
    ensures
        all_went_well(replies) <==> extract_run(job, replies) matches StepView::Done(Ok(_)),
{
    let third = replies.drop_last();
    let second = third.drop_last();
    let first = second.drop_last();
    assert(first.len() == 1);
    assert(first[0] == replies[0] && second[1] == replies[1] && third[2] == replies[2]);
    reveal_with_fuel(protocol::run, 4);
    assert(extract_run(job, first) == extract_next(job, replies[0]));
}

/// A job that ends well has asked for three things, in this order: to open the
/// caller's archive with the caller's password, to create the caller's
/// directory, and to extract all into it with the caller's options. Each was
/// done.
pub proof fn law_extract_asks_for_all(job: ExtractTaskView, replies: Seq<Reply>)
    requires
        job.stage == ExtractStage::Ready,
        replies.len() > 0,
        replies.len() > 1 ==> extract_run(job, replies.drop_last()) is Ask,
        extract_run(job, replies) matches StepView::Done(Ok(_)),
    ensures
        all_went_well(replies),
        protocol::asked(
            |now: ExtractTaskView, reply: Reply| extract_next(now, reply),
            job,
            replies,
        ) == seq![
            RequestView::Open { path: job.archive_path, password: job.password },
            RequestView::CreateDirAll(job.dest_path),
            RequestView::ExtractAll { dest: job.dest_path, options: job.options },
        ],
{
    let third = replies.drop_last();
    if replies.len() > 1 {
        lemma_led_to(job, third);
        assert(third.len() == 3);
        law_extract_succeeds(job, replies);
        let second = third.drop_last();
        let first = second.drop_last();
        assert(first[0] == replies[0] && second[1] == replies[1] && third[2] == replies[2]);
        reveal_with_fuel(protocol::run, 4);
        reveal_with_fuel(protocol::asked, 5);
        assert(extract_run(job, first) == extract_next(job, replies[0]));
        assert(first.drop_last().len() == 0);
    }
}

/// A job ends on the first thing that is not done: on a directory that cannot be
/// created, on what the archive library said, or on a reply to something else.
pub proof fn law_extract_says_what_failed(job: ExtractTaskView, reply: Reply)
    ensures
        reply matches Reply::Finished(Err(why)) ==> {
            &&& job.stage == ExtractStage::MakingDir ==> protocol::fails(
                extract_next(job, reply),
                Status::GenericFailure,
                "mkdir: "@ + why@,
            )
            &&& job.stage == ExtractStage::Opening || job.stage == ExtractStage::Extracting
                ==> protocol::fails(
                extract_next(job, reply),
                Status::GenericFailure,
                "rar5: "@ + why@,
            )
        },
        !extract_awaits(job, reply) ==> protocol::fails(
            extract_next(job, reply),
            Status::GenericFailure,
            "unexpected reply"@,
        ),
{
}

/// A view of a job hides nothing of it.
pub proof fn law_view_tells_the_extraction(job: ExtractArchiveTask)
    ensures
        job.deep_view().archive_path == job.archive_path@,
        job.deep_view().password == protocol::text_of(job.password),
        job.deep_view().dest_path == job.dest_path@,
        job.deep_view().options == job.options,
        job.deep_view().stage == job.stage,
{
}

} // verus!
