//! Appending to an archive.

use vstd::prelude::*;

use crate::budget;
use crate::entry;
use crate::entry::{EntryInput, PlannedEntry, PlannedView};
use crate::error;
use crate::error::{Error, ErrorView};
use crate::options;
use crate::options::AppendArchiveOptions;
use crate::protocol;
use crate::protocol::{Reply, Request, RequestView, Step, StepView};
use crate::writing;
use crate::writing::{BatchWrite, BatchWriteView, CreateResult};

verus! {

/// How far a job that appends to an archive has come.
#[derive(Debug)]
pub enum AppendStage {
    /// Nothing was asked yet.
    Ready { entries: Vec<EntryInput>, bases: Vec<String> },
    /// The paths of the entries are being looked at.
    Probing { entries: Vec<EntryInput>, bases: Vec<String> },
    /// The files among the planned entries are being measured.
    Measuring { planned: Vec<PlannedEntry> },
    /// The archive is being opened.
    Opening { planned: Vec<PlannedEntry>, total: u64 },
    /// The dictionary is being set.
    SettingDictionary { planned: Vec<PlannedEntry>, total: u64 },
    /// The entries are being written.
    Writing(BatchWrite),
}

/// The mathematical view of an [`AppendStage`].
pub enum AppendStageView {
    Ready { entries: Seq<EntryInput>, bases: Seq<Seq<char>> },
    Probing { entries: Seq<EntryInput>, bases: Seq<Seq<char>> },
    Measuring { planned: Seq<PlannedView> },
    Opening { planned: Seq<PlannedView>, total: u64 },
    SettingDictionary { planned: Seq<PlannedView>, total: u64 },
    Writing(BatchWriteView),
}

impl DeepView for AppendStage {
    type V = AppendStageView;

    open spec fn deep_view(&self) -> AppendStageView {
        match *self {
            AppendStage::Ready { entries, bases } => AppendStageView::Ready {
                entries: entries@,
                bases: bases.deep_view(),
            },
            AppendStage::Probing { entries, bases } => AppendStageView::Probing {
                entries: entries@,
                bases: bases.deep_view(),
            },
            AppendStage::Measuring { planned } => AppendStageView::Measuring {
                planned: planned.deep_view(),
            },
            AppendStage::Opening { planned, total } => AppendStageView::Opening {
                planned: planned.deep_view(),
                total,
            },
            AppendStage::SettingDictionary { planned, total } =>
                AppendStageView::SettingDictionary { planned: planned.deep_view(), total },
            AppendStage::Writing(write) => AppendStageView::Writing(write.deep_view()),
        }
    }
}

/// A job that appends entries to an archive.
#[derive(Debug)]
pub struct AppendArchiveTask {
    pub archive_path: String,
    pub level: u8,
    pub password: Option<String>,
    pub dictionary: Result<(Option<u8>, Option<u64>), Error>,
    /// Whether anybody listens to progress reports.
    pub progress: bool,
    pub stage: AppendStage,
}

/// The mathematical view of an [`AppendArchiveTask`].
pub struct AppendTaskView {
    pub archive_path: Seq<char>,
    pub level: u8,
    pub password: Option<Seq<char>>,
    pub dictionary: Result<(Option<u8>, Option<u64>), ErrorView>,
    pub progress: bool,
    pub stage: AppendStageView,
}

impl DeepView for AppendArchiveTask {
    type V = AppendTaskView;

    open spec fn deep_view(&self) -> AppendTaskView {
        AppendTaskView {
            archive_path: self.archive_path@,
            level: self.level,
            password: self.password.deep_view(),
            dictionary: error::outcome_view(self.dictionary),
            progress: self.progress,
            stage: self.stage.deep_view(),
        }
    }
}

/// What a step of such a job looks like.
pub type AppendStepView = StepView<AppendTaskView, Seq<Seq<char>>>;

/// The job asks for something, and is at a later stage.
pub open spec fn append_asks(
    job: AppendTaskView,
    stage: AppendStageView,
    request: RequestView,
) -> AppendStepView {
    StepView::Ask { job: AppendTaskView { stage, ..job }, request }
}

/// What the job does next.
pub open spec fn append_next(job: AppendTaskView, reply: Reply) -> AppendStepView {
    match (job.stage, reply) {
        (AppendStageView::Ready { entries, bases }, Reply::Begin) => append_asks(
            job,
            AppendStageView::Probing { entries, bases },
            RequestView::Inspect(entry::asked_paths(entries)),
        ),
        (AppendStageView::Probing { entries, bases }, Reply::Inspected(seen)) => if seen@.len()
            != entries.len() || bases.len() != entries.len() {
            StepView::Done(Err(protocol::unexpected_reply()))
        } else {
            match entry::plan(entries, bases, seen@) {
                Err(e) => StepView::Done(Err(e)),
                Ok(planned) => append_asks(
                    job,
                    AppendStageView::Measuring { planned },
                    RequestView::Inspect(budget::measured_paths(planned)),
                ),
            }
        },
        (AppendStageView::Measuring { planned }, Reply::Inspected(seen)) => if seen@.len()
            != planned.len() {
            StepView::Done(Err(protocol::unexpected_reply()))
        } else {
            match (budget::total(planned, seen@), job.dictionary) {
                (Err(e), _) => StepView::Done(Err(e)),
                (Ok(_), Err(e)) => StepView::Done(Err(e)),
                (Ok(total), Ok(_)) => append_asks(
                    job,
                    AppendStageView::Opening { planned, total },
                    RequestView::OpenAppend { path: job.archive_path, password: job.password },
                ),
            }
        },
        (AppendStageView::Opening { planned, total }, Reply::Finished(Err(said))) =>
            StepView::Done(Err(error::library_failure(said@))),
        (AppendStageView::Opening { planned, total }, Reply::Finished(Ok(()))) =>
            match job.dictionary {
            Err(e) => StepView::Done(Err(e)),
            Ok((size_log, size_bytes)) => append_asks(
                job,
                AppendStageView::SettingDictionary { planned, total },
                RequestView::SetDictionary { size_log, size_bytes },
            ),
        },
        (AppendStageView::SettingDictionary { planned, total }, Reply::Acknowledged) => {
            let (write, request) = writing::write_start(
                job.archive_path,
                planned,
                job.level,
                total,
                job.progress,
            );
            append_asks(job, AppendStageView::Writing(write), request)
        },
        (AppendStageView::Writing(write), reply) => match writing::write_next(write, reply) {
            StepView::Ask { job: write, request } => append_asks(
                job,
                AppendStageView::Writing(write),
                request,
            ),
            StepView::Done(r) => StepView::Done(r),
        },
        _ => StepView::Done(Err(protocol::unexpected_reply())),
    }
}

/// A job that appends entries to an existing archive without rebuilding it;
/// `progress` says whether anybody listens to progress reports.
///
/// Existing members are preserved as they are; only what trails them is
/// rewritten. Multi-volume archives are not supported.
pub fn append_entries(opts: AppendArchiveOptions, progress: bool) -> (r: AppendArchiveTask)
    ensures
        r.archive_path == opts.archive_path,
        r.level == options::level_of(opts.level),
        r.password.deep_view() == options::password_of(opts.password),
        error::outcome_view(r.dictionary) == options::dict_of(opts.dict_size),
        opts.password matches Some(p) ==> p@.len() > 0 ==> r.password is Some && r.password->0@ == p@,
        opts.password is None || opts.password->0@.len() == 0 ==> r.password is None,
        opts.level matches Some(l) ==> l <= 5 ==> r.level == l,
        opts.level matches Some(l) ==> l > 5 ==> r.level == 5,
        opts.level is None ==> r.level == 3,
        opts.dict_size is None ==> r.dictionary matches Ok((None, None)),
        r.progress == progress,
        r.stage matches AppendStage::Ready { entries, bases } && entries == opts.entries
            && entry::are_base_names(opts.entries@, bases.deep_view()),
{
    let bases = entry::base_names(&opts.entries);
    AppendArchiveTask {
        archive_path: opts.archive_path,
        level: options::pick_level(opts.level),
        password: options::pick_password(opts.password),
        dictionary: options::pick_dict(opts.dict_size),
        progress,
        stage: AppendStage::Ready { entries: opts.entries, bases },
    }
}

impl AppendArchiveTask {
    /// Opens the archive, unless the dictionary size is wrong.
    fn go_on_to_archive(self, planned: Vec<PlannedEntry>, total: u64) -> (r: Step<
        AppendArchiveTask,
        CreateResult,
    >)
        ensures
            r.deep_view() == match self.deep_view().dictionary {
                Err(e) => AppendStepView::Done(Err(e)),
                Ok(_) => append_asks(
                    self.deep_view(),
                    AppendStageView::Opening { planned: planned.deep_view(), total },
                    RequestView::OpenAppend {
                        path: self.archive_path@,
                        password: self.password.deep_view(),
                    },
                ),
            },
    {
        match self.dictionary {
            Err(e) => Step::Done(Err(e)),
            Ok(_) => {
                let request = Request::OpenAppend {
                    path: self.archive_path.clone(),
                    password: options::same_password(&self.password),
                };
                Step::Ask {
                    job: AppendArchiveTask {
                        stage: AppendStage::Opening { planned, total },
                        ..self
                    },
                    request,
                }
            },
        }
    }

    /// Takes in a reply, and goes on.
    pub fn compute(self, reply: Reply) -> (r: Step<AppendArchiveTask, CreateResult>)
        ensures
            r.deep_view() == append_next(self.deep_view(), reply),
    {
        let AppendArchiveTask { archive_path, level, password, dictionary, progress, stage } = self;
        // What is left of the job while its stage is taken apart.
        let idle = AppendStage::Ready { entries: Vec::new(), bases: Vec::new() };
        let job = AppendArchiveTask {
            archive_path,
            level,
            password,
            dictionary,
            progress,
            stage: idle,
        };
        match (stage, reply) {
            (AppendStage::Ready { entries, bases }, Reply::Begin) => {
                let request = Request::Inspect(entry::paths_to_inspect(&entries));
                Step::Ask {
                    job: AppendArchiveTask {
                        stage: AppendStage::Probing { entries, bases },
                        ..job
                    },
                    request,
                }
            },
            (AppendStage::Probing { entries, bases }, Reply::Inspected(seen)) => {
                if seen.len() != entries.len() || bases.len() != entries.len() {
                    return protocol::refuse_reply();
                }
                match entry::plan_entries(entries, &bases, &seen) {
                    Err(e) => Step::Done(Err(e)),
                    Ok(planned) => {
                        let request = Request::Inspect(budget::paths_to_measure(&planned));
                        Step::Ask {
                            job: AppendArchiveTask {
                                stage: AppendStage::Measuring { planned },
                                ..job
                            },
                            request,
                        }
                    },
                }
            },
            (AppendStage::Measuring { planned }, Reply::Inspected(seen)) => {
                if seen.len() != planned.len() {
                    return protocol::refuse_reply();
                }
                match budget::total_size(&planned, &seen) {
                    Err(e) => Step::Done(Err(e)),
                    Ok(total) => job.go_on_to_archive(planned, total),
                }
            },
            (AppendStage::Opening { planned, total }, Reply::Finished(outcome)) => match outcome {
                Err(said) => protocol::library_failed(said.as_str()),
                Ok(()) => match job.dictionary {
                    Err(e) => Step::Done(Err(e)),
                    Ok((size_log, size_bytes)) => Step::Ask {
                        job: AppendArchiveTask {
                            dictionary: Ok((size_log, size_bytes)),
                            stage: AppendStage::SettingDictionary { planned, total },
                            ..job
                        },
                        request: Request::SetDictionary { size_log, size_bytes },
                    },
                },
            },
            (AppendStage::SettingDictionary { planned, total }, Reply::Acknowledged) => {
                let (write, request) = writing::write_batch(
                    job.archive_path.clone(),
                    planned,
                    job.level,
                    total,
                    job.progress,
                );
                Step::Ask {
                    job: AppendArchiveTask { stage: AppendStage::Writing(write), ..job },
                    request,
                }
            },
            (AppendStage::Writing(write), reply) => match write.resume(reply) {
                Step::Ask { job: write, request } => Step::Ask {
                    job: AppendArchiveTask { stage: AppendStage::Writing(write), ..job },
                    request,
                },
                Step::Done(r) => Step::Done(r),
            },
            _ => protocol::refuse_reply(),
        }
    }
}

} // verus!
