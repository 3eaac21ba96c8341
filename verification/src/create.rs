//! Creating an archive.

use vstd::prelude::*;

use crate::budget;
use crate::entry;
use crate::entry::{EntryInput, PlannedEntry, PlannedView};
use crate::error;
use crate::error::Error;
use crate::options;
use crate::options::{CreateArchiveOptions, CreateSettings, CreateSettingsView};
use crate::path;
use crate::protocol;
use crate::protocol::{Reply, Request, RequestView, Step, StepView};
use crate::writing;
use crate::writing::{BatchWrite, BatchWriteView, CreateResult};

verus! {

/// How far a job that creates an archive has come.
#[derive(Debug)]
pub enum CreateStage {
    /// Nothing was asked yet.
    Ready { entries: Vec<EntryInput>, bases: Vec<String> },
    /// The paths of the entries are being looked at.
    Probing { entries: Vec<EntryInput>, bases: Vec<String> },
    /// The files among the planned entries are being measured.
    Measuring { planned: Vec<PlannedEntry> },
    /// The directory of the archive is being created.
    MakingDir { planned: Vec<PlannedEntry>, total: u64 },
    /// The number of threads is being set.
    SettingThreads { planned: Vec<PlannedEntry>, total: u64 },
    /// The archive is being created.
    Creating { planned: Vec<PlannedEntry>, total: u64 },
    /// The entries are being written.
    Writing(BatchWrite),
}

/// The mathematical view of a [`CreateStage`].
pub enum CreateStageView {
    Ready { entries: Seq<EntryInput>, bases: Seq<Seq<char>> },
    Probing { entries: Seq<EntryInput>, bases: Seq<Seq<char>> },
    Measuring { planned: Seq<PlannedView> },
    MakingDir { planned: Seq<PlannedView>, total: u64 },
    SettingThreads { planned: Seq<PlannedView>, total: u64 },
    Creating { planned: Seq<PlannedView>, total: u64 },
    Writing(BatchWriteView),
}

impl DeepView for CreateStage {
    type V = CreateStageView;

    open spec fn deep_view(&self) -> CreateStageView {
        match *self {
            CreateStage::Ready { entries, bases } => CreateStageView::Ready {
                entries: entries@,
                bases: bases.deep_view(),
            },
            CreateStage::Probing { entries, bases } => CreateStageView::Probing {
                entries: entries@,
                bases: bases.deep_view(),
            },
            CreateStage::Measuring { planned } => CreateStageView::Measuring {
                planned: planned.deep_view(),
            },
            CreateStage::MakingDir { planned, total } => CreateStageView::MakingDir {
                planned: planned.deep_view(),
                total,
            },
            CreateStage::SettingThreads { planned, total } => CreateStageView::SettingThreads {
                planned: planned.deep_view(),
                total,
            },
            CreateStage::Creating { planned, total } => CreateStageView::Creating {
                planned: planned.deep_view(),
                total,
            },
            CreateStage::Writing(write) => CreateStageView::Writing(write.deep_view()),
        }
    }
}

/// A job that creates an archive.
#[derive(Debug)]
pub struct CreateArchiveTask {
    pub settings: CreateSettings,
    /// The directory that the archive is to lie in, if its path names one.
    pub parent: Option<String>,
    /// Whether anybody listens to progress reports.
    pub progress: bool,
    pub stage: CreateStage,
}

/// The mathematical view of a [`CreateArchiveTask`].
pub struct CreateTaskView {
    pub settings: CreateSettingsView,
    pub parent: Option<Seq<char>>,
    pub progress: bool,
    pub stage: CreateStageView,
}

impl DeepView for CreateArchiveTask {
    type V = CreateTaskView;

    open spec fn deep_view(&self) -> CreateTaskView {
        CreateTaskView {
            settings: self.settings.deep_view(),
            parent: self.parent.deep_view(),
            progress: self.progress,
            stage: self.stage.deep_view(),
        }
    }
}

/// What a step of such a job looks like.
pub type CreateStepView = StepView<CreateTaskView, Seq<Seq<char>>>;

/// The job asks for something, and is at a later stage.
pub open spec fn create_asks(
    job: CreateTaskView,
    stage: CreateStageView,
    request: RequestView,
) -> CreateStepView {
    StepView::Ask { job: CreateTaskView { stage, ..job }, request }
}

/// The job creates the archive, unless the options are wrong.
pub open spec fn create_from_archive(
    job: CreateTaskView,
    planned: Seq<PlannedView>,
    total: u64,
) -> CreateStepView {
    match job.settings.options {
        Err(e) => StepView::Done(Err(e)),
        Ok(options) => create_asks(
            job,
            CreateStageView::Creating { planned, total },
            RequestView::Create { path: job.settings.out_path, options },
        ),
    }
}

/// The job sets the number of threads, if it is to, and goes on.
pub open spec fn create_from_threads(
    job: CreateTaskView,
    planned: Seq<PlannedView>,
    total: u64,
) -> CreateStepView {
    match job.settings.threads {
        Some(n) => create_asks(
            job,
            CreateStageView::SettingThreads { planned, total },
            RequestView::SetThreads(n),
        ),
        None => create_from_archive(job, planned, total),
    }
}

/// The job creates the directory of the archive, if its path names one, and
/// goes on.
pub open spec fn create_from_dir(
    job: CreateTaskView,
    planned: Seq<PlannedView>,
    total: u64,
) -> CreateStepView {
    match job.parent {
        Some(dir) => create_asks(
            job,
            CreateStageView::MakingDir { planned, total },
            RequestView::CreateDirAll(dir),
        ),
        None => create_from_threads(job, planned, total),
    }
}

/// What the job does next.
pub open spec fn create_next(job: CreateTaskView, reply: Reply) -> CreateStepView {
    match (job.stage, reply) {
        (CreateStageView::Ready { entries, bases }, Reply::Begin) => create_asks(
            job,
            CreateStageView::Probing { entries, bases },
            RequestView::Inspect(entry::asked_paths(entries)),
        ),
        (CreateStageView::Probing { entries, bases }, Reply::Inspected(seen)) => if seen@.len()
            != entries.len() || bases.len() != entries.len() {
            StepView::Done(Err(protocol::unexpected_reply()))
        } else {
            match entry::plan(entries, bases, seen@) {
                Err(e) => StepView::Done(Err(e)),
                Ok(planned) => create_asks(
                    job,
                    CreateStageView::Measuring { planned },
                    RequestView::Inspect(budget::measured_paths(planned)),
                ),
            }
        },
        (CreateStageView::Measuring { planned }, Reply::Inspected(seen)) => if seen@.len()
            != planned.len() {
            StepView::Done(Err(protocol::unexpected_reply()))
        } else {
            match budget::total(planned, seen@) {
                Err(e) => StepView::Done(Err(e)),
                Ok(total) => match budget::over_limit(total, job.settings.limit) {
                    Some(e) => StepView::Done(Err(e)),
                    None => create_from_dir(job, planned, total),
                },
            }
        },
        (CreateStageView::MakingDir { planned, total }, Reply::Finished(Err(why))) =>
            StepView::Done(Err(error::failure("mkdir: "@ + why@))),
        (CreateStageView::MakingDir { planned, total }, Reply::Finished(Ok(()))) =>
            create_from_threads(job, planned, total),
        (CreateStageView::SettingThreads { planned, total }, Reply::Acknowledged) =>
            create_from_archive(job, planned, total),
        (CreateStageView::Creating { planned, total }, Reply::Finished(Err(said))) =>
            StepView::Done(Err(error::library_failure(said@))),
        (CreateStageView::Creating { planned, total }, Reply::Finished(Ok(()))) => {
            let (write, request) = writing::write_start(
                job.settings.out_path,
                planned,
                job.settings.level,
                total,
                job.progress,
            );
            create_asks(job, CreateStageView::Writing(write), request)
        },
        (CreateStageView::Writing(write), reply) => match writing::write_next(write, reply) {
            StepView::Ask { job: write, request } => create_asks(
                job,
                CreateStageView::Writing(write),
                request,
            ),
            StepView::Done(r) => StepView::Done(r),
        },
        _ => StepView::Done(Err(protocol::unexpected_reply())),
    }
}

/// A job that creates an archive from the given entries; `progress` says
/// whether anybody listens to progress reports.
pub fn create_archive(opts: CreateArchiveOptions, progress: bool) -> (r: CreateArchiveTask)
    ensures
        r.settings.deep_view() == options::create_settings_of(opts),
        path::is_parent(opts.out_path@, r.parent.deep_view()),
        path::is_portable(opts.out_path@) ==> r.parent.deep_view() == path::slash_parent(
            opts.out_path@,
        ),
        r.settings.out_path@ == opts.out_path@,
        r.settings.limit == opts.max_total_bytes,
        r.settings.options matches Ok(told) ==> {
            &&& opts.password matches Some(p) ==> p@.len() > 0 ==> told.password is Some
                && told.password->0@ == p@
            &&& opts.password is None || opts.password->0@.len() == 0 ==> told.password is None
        },
        r.progress == progress,
        r.stage matches CreateStage::Ready { entries, bases } && entries == opts.entries
            && entry::are_base_names(opts.entries@, bases.deep_view()),
{
    let (entries, settings) = options::settle_create(opts);
    let bases = entry::base_names(&entries);
    let parent = path::parent_dir(settings.out_path.as_str());
    proof {
        if path::is_portable(opts.out_path@) {
            path::law_portable_paths_have_one_reading(
                opts.out_path@,
                Seq::empty(),
                parent.deep_view(),
            );
        }
    }
    CreateArchiveTask { settings, parent, progress, stage: CreateStage::Ready { entries, bases } }
}

impl CreateArchiveTask {
    /// Creates the archive, unless the options are wrong.
    fn go_on_to_archive(self, planned: Vec<PlannedEntry>, total: u64) -> (r: Step<
        CreateArchiveTask,
        CreateResult,
    >)
        ensures
            r.deep_view() == create_from_archive(self.deep_view(), planned.deep_view(), total),
    {
        let CreateArchiveTask { settings, parent, progress, stage: _ } = self;
        let CreateSettings { out_path, limit, level, threads, options } = settings;
        match options {
            Err(e) => Step::Done(Err(e)),
            Ok(options) => {
                let request = Request::Create {
                    path: out_path.clone(),
                    options: options.duplicate(),
                };
                let settings = CreateSettings {
                    out_path,
                    limit,
                    level,
                    threads,
                    options: Ok(options),
                };
                let stage = CreateStage::Creating { planned, total };
                Step::Ask { job: CreateArchiveTask { settings, parent, progress, stage }, request }
            },
        }
    }

    /// Sets the number of threads, if it is to, and goes on.
    fn go_on_to_threads(self, planned: Vec<PlannedEntry>, total: u64) -> (r: Step<
        CreateArchiveTask,
        CreateResult,
    >)
        ensures
            r.deep_view() == create_from_threads(self.deep_view(), planned.deep_view(), total),
    {
        match self.settings.threads {
            Some(n) => Step::Ask {
                job: CreateArchiveTask {
                    stage: CreateStage::SettingThreads { planned, total },
                    ..self
                },
                request: Request::SetThreads(n),
            },
            None => self.go_on_to_archive(planned, total),
        }
    }

    /// Creates the directory of the archive, if its path names one, and goes
    /// on.
    fn go_on_to_dir(self, planned: Vec<PlannedEntry>, total: u64) -> (r: Step<
        CreateArchiveTask,
        CreateResult,
    >)
        ensures
            r.deep_view() == create_from_dir(self.deep_view(), planned.deep_view(), total),
    {
        match &self.parent {
            Some(dir) => {
                let request = Request::CreateDirAll(dir.clone());
                Step::Ask {
                    job: CreateArchiveTask {
                        stage: CreateStage::MakingDir { planned, total },
                        ..self
                    },
                    request,
                }
            },
            None => self.go_on_to_threads(planned, total),
        }
    }

    /// Takes in a reply, and goes on.
    pub fn compute(self, reply: Reply) -> (r: Step<CreateArchiveTask, CreateResult>)
        ensures
            r.deep_view() == create_next(self.deep_view(), reply),
    {
        let CreateArchiveTask { settings, parent, progress, stage } = self;
        // What is left of the job while its stage is taken apart.
        let idle = CreateStage::Ready { entries: Vec::new(), bases: Vec::new() };
        let job = CreateArchiveTask { settings, parent, progress, stage: idle };
        match (stage, reply) {
            (CreateStage::Ready { entries, bases }, Reply::Begin) => {
                let request = Request::Inspect(entry::paths_to_inspect(&entries));
                Step::Ask {
                    job: CreateArchiveTask {
                        stage: CreateStage::Probing { entries, bases },
                        ..job
                    },
                    request,
                }
            },
            (CreateStage::Probing { entries, bases }, Reply::Inspected(seen)) => {
                if seen.len() != entries.len() || bases.len() != entries.len() {
                    return protocol::refuse_reply();
                }
                match entry::plan_entries(entries, &bases, &seen) {
                    Err(e) => Step::Done(Err(e)),
                    Ok(planned) => {
                        let request = Request::Inspect(budget::paths_to_measure(&planned));
                        Step::Ask {
                            job: CreateArchiveTask {
                                stage: CreateStage::Measuring { planned },
                                ..job
                            },
                            request,
                        }
                    },
                }
            },
            (CreateStage::Measuring { planned }, Reply::Inspected(seen)) => {
                if seen.len() != planned.len() {
                    return protocol::refuse_reply();
                }
                match budget::total_size(&planned, &seen) {
                    Err(e) => Step::Done(Err(e)),
                    Ok(total) => match budget::check_limit(total, job.settings.limit) {
                        Err(e) => Step::Done(Err(e)),
                        Ok(()) => job.go_on_to_dir(planned, total),
                    },
                }
            },
            (CreateStage::MakingDir { planned, total }, Reply::Finished(outcome)) => match outcome {
                Err(why) => Step::Done(
                    Err(Error::failure("mkdir: ".to_owned().concat(why.as_str()))),
                ),
                Ok(()) => job.go_on_to_threads(planned, total),
            },
            (CreateStage::SettingThreads { planned, total }, Reply::Acknowledged) => {
                job.go_on_to_archive(planned, total)
            },
            (CreateStage::Creating { planned, total }, Reply::Finished(outcome)) => match outcome {
                Err(said) => protocol::library_failed(said.as_str()),
                Ok(()) => {
                    let (write, request) = writing::write_batch(
                        job.settings.out_path.clone(),
                        planned,
                        job.settings.level,
                        total,
                        job.progress,
                    );
                    Step::Ask {
                        job: CreateArchiveTask { stage: CreateStage::Writing(write), ..job },
                        request,
                    }
                },
            },
            (CreateStage::Writing(write), reply) => match write.resume(reply) {
                Step::Ask { job: write, request } => Step::Ask {
                    job: CreateArchiveTask { stage: CreateStage::Writing(write), ..job },
                    request,
                },
                Step::Done(r) => Step::Done(r),
            },
            _ => protocol::refuse_reply(),
        }
    }
}

} // verus!
