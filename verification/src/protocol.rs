//! The conversation between a job and whoever performs its I/O.
//!
//! A job never touches a file. It asks for one thing at a time with a
//! [`Request`], is answered with a [`Reply`], and in the end is done.

use vstd::prelude::*;

use crate::batch::{BatchEntry, BatchView};
use crate::entry::Inspection;
use crate::error;
use crate::error::{Error, ErrorView, Status};
use crate::options::{CreateOptions, CreateOptionsView, ExtractOptions};
use crate::progress::ProgressData;

verus! {

/// One member of an archive.
#[derive(Debug)]
pub struct EntryInfo {
    pub name: String,
    /// Uncompressed size in bytes.
    pub size: u64,
    /// On-disk (packed) size in bytes.
    pub packed_size: u64,
    /// Compression method: 0 = store, 1..=5 (level).
    pub method: u8,
    pub is_dir: bool,
    /// Modification time as Unix seconds (0 when unknown).
    pub mtime: i64,
}

/// The mathematical view of an [`EntryInfo`].
pub struct EntryInfoView {
    pub name: Seq<char>,
    pub size: u64,
    pub packed_size: u64,
    pub method: u8,
    pub is_dir: bool,
    pub mtime: i64,
}

impl DeepView for EntryInfo {
    type V = EntryInfoView;

    open spec fn deep_view(&self) -> EntryInfoView {
        EntryInfoView {
            name: self.name@,
            size: self.size,
            packed_size: self.packed_size,
            method: self.method,
            is_dir: self.is_dir,
            mtime: self.mtime,
        }
    }
}

/// What a job asks for.
#[derive(Debug)]
#[allow(inconsistent_fields)]
pub enum Request {
    /// Look at each path, following links, where one is given.
    Inspect(Vec<Option<String>>),
    /// Create a directory and all that it lies in.
    CreateDirAll(String),
    /// Let the archive library use this many threads.
    SetThreads(usize),
    /// Create an archive.
    Create { path: String, options: CreateOptions },
    /// Open an archive to append to it.
    OpenAppend { path: String, password: Option<String> },
    /// Set the dictionary of the open archive's new members.
    SetDictionary { size_log: Option<u8>, size_bytes: Option<u64> },
    /// Add these entries, `total_bytes` in all, to the open archive; report
    /// progress meanwhile if `progress` is set.
    AddBatch { entries: Vec<BatchEntry>, total_bytes: u64, progress: bool },
    /// Finish the open archive.
    Close,
    /// Pass a progress report on to the caller.
    Notify(ProgressData),
    /// Find the volumes of an archive.
    DiscoverVolumes(String),
    /// Open an archive to read or change it.
    Open { path: String, password: Option<String> },
    /// Extract all members of the open archive.
    ExtractAll { dest: String, options: ExtractOptions },
    /// Delete members of the open archive.
    Delete(Vec<String>),
    /// Name the members of the open archive.
    ListNames,
    /// Describe the members of the open archive.
    ListMembers,
    /// Read a file.
    ReadFile(String),
    /// Repair a damaged archive by its recovery record.
    Repair(Vec<u8>),
    /// Write a file.
    WriteFile { path: String, data: Vec<u8> },
    /// Rebuild the missing volumes of a set.
    RebuildVolumes(String),
}

/// The mathematical view of a [`Request`].
#[allow(inconsistent_fields)]
pub enum RequestView {
    Inspect(Seq<Option<Seq<char>>>),
    CreateDirAll(Seq<char>),
    SetThreads(usize),
    Create { path: Seq<char>, options: CreateOptionsView },
    OpenAppend { path: Seq<char>, password: Option<Seq<char>> },
    SetDictionary { size_log: Option<u8>, size_bytes: Option<u64> },
    AddBatch { entries: Seq<BatchView>, total_bytes: u64, progress: bool },
    Close,
    Notify(ProgressData),
    DiscoverVolumes(Seq<char>),
    Open { path: Seq<char>, password: Option<Seq<char>> },
    ExtractAll { dest: Seq<char>, options: ExtractOptions },
    Delete(Seq<Seq<char>>),
    ListNames,
    ListMembers,
    ReadFile(Seq<char>),
    Repair(Seq<u8>),
    WriteFile { path: Seq<char>, data: Seq<u8> },
    RebuildVolumes(Seq<char>),
}

impl DeepView for Request {
    type V = RequestView;

    open spec fn deep_view(&self) -> RequestView {
        match *self {
            Request::Inspect(paths) => RequestView::Inspect(paths.deep_view()),
            Request::CreateDirAll(path) => RequestView::CreateDirAll(path@),
            Request::SetThreads(n) => RequestView::SetThreads(n),
            Request::Create { path, options } => RequestView::Create {
                path: path@,
                options: options.deep_view(),
            },
            Request::OpenAppend { path, password } => RequestView::OpenAppend {
                path: path@,
                password: password.deep_view(),
            },
            Request::SetDictionary { size_log, size_bytes } => RequestView::SetDictionary {
                size_log,
                size_bytes,
            },
            Request::AddBatch { entries, total_bytes, progress } => RequestView::AddBatch {
                entries: entries.deep_view(),
                total_bytes,
                progress,
            },
            Request::Close => RequestView::Close,
            Request::Notify(report) => RequestView::Notify(report),
            Request::DiscoverVolumes(path) => RequestView::DiscoverVolumes(path@),
            Request::Open { path, password } => RequestView::Open {
                path: path@,
                password: password.deep_view(),
            },
            Request::ExtractAll { dest, options } => RequestView::ExtractAll {
                dest: dest@,
                options,
            },
            Request::Delete(names) => RequestView::Delete(names.deep_view()),
            Request::ListNames => RequestView::ListNames,
            Request::ListMembers => RequestView::ListMembers,
            Request::ReadFile(path) => RequestView::ReadFile(path@),
            Request::Repair(data) => RequestView::Repair(data@),
            Request::WriteFile { path, data } => RequestView::WriteFile {
                path: path@,
                data: data@,
            },
            Request::RebuildVolumes(path) => RequestView::RebuildVolumes(path@),
        }
    }
}

/// What a job is answered. Where something failed, the answer says why in
/// words.
#[derive(Debug)]
pub enum Reply {
    /// Nothing was asked yet: start.
    Begin,
    /// What the file system says of each path; where none was given, anything.
    Inspected(Vec<Inspection>),
    /// Done, or not.
    Finished(Result<(), String>),
    /// Done; it cannot fail.
    Acknowledged,
    /// The texts that were asked for.
    Texts(Vec<String>),
    /// The members that were asked for.
    Members(Vec<EntryInfo>),
    /// The bytes that were asked for.
    Bytes(Result<Vec<u8>, String>),
    /// How many members were deleted.
    Deleted(Result<usize, String>),
    /// The paths of the volumes that were rebuilt.
    Rebuilt(Result<Vec<String>, String>),
}

/// Whether a reply answers a request.
pub open spec fn answers(request: RequestView, reply: Reply) -> bool {
    match request {
        RequestView::Inspect(paths) => reply is Inspected && reply->Inspected_0@.len()
            == paths.len(),
        RequestView::CreateDirAll(_) => reply is Finished,
        RequestView::SetThreads(_) => reply is Acknowledged,
        RequestView::Create { path: _, options: _ } => reply is Finished,
        RequestView::OpenAppend { path: _, password: _ } => reply is Finished,
        RequestView::SetDictionary { size_log: _, size_bytes: _ } => reply is Acknowledged,
        RequestView::AddBatch { entries: _, total_bytes: _, progress: _ } => reply is Finished,
        RequestView::Close => reply is Finished,
        RequestView::Notify(_) => reply is Acknowledged,
        RequestView::DiscoverVolumes(_) => reply is Texts,
        RequestView::Open { path: _, password: _ } => reply is Finished,
        RequestView::ExtractAll { dest: _, options: _ } => reply is Finished,
        RequestView::Delete(_) => reply is Deleted,
        RequestView::ListNames => reply is Texts,
        RequestView::ListMembers => reply is Members,
        RequestView::ReadFile(_) => reply is Bytes,
        RequestView::Repair(_) => reply is Bytes,
        RequestView::WriteFile { path: _, data: _ } => reply is Finished,
        RequestView::RebuildVolumes(_) => reply is Rebuilt,
    }
}

/// The error of a job that got a reply to something that it did not ask.
pub open spec fn unexpected_reply() -> ErrorView {
    error::failure("unexpected reply"@)
}

/// Ends a job that got a reply to something that it did not ask.
pub(crate) fn refuse_reply<S: DeepView, T: DeepView>() -> (r: Step<S, T>)
    ensures
        r.deep_view() == StepView::<S::V, T::V>::Done(Err(unexpected_reply())),
{
    Step::Done(Err(Error::failure("unexpected reply".to_owned())))
}

/// Ends a job on what the archive library said.
pub(crate) fn library_failed<S: DeepView, T: DeepView>(said: &str) -> (r: Step<S, T>)
    ensures
        r.deep_view() == StepView::<S::V, T::V>::Done(Err(error::library_failure(said@))),
{
    Step::Done(Err(Error::library(said)))
}

/// Whether a request, once granted, may change what is on disk.
pub open spec fn touches_disk(request: RequestView) -> bool {
    match request {
        RequestView::CreateDirAll(_) => true,
        RequestView::Create { path: _, options: _ } => true,
        RequestView::OpenAppend { path: _, password: _ } => true,
        RequestView::AddBatch { entries: _, total_bytes: _, progress: _ } => true,
        RequestView::Close => true,
        RequestView::ExtractAll { dest: _, options: _ } => true,
        RequestView::Delete(_) => true,
        RequestView::WriteFile { path: _, data: _ } => true,
        RequestView::RebuildVolumes(_) => true,
        _ => false,
    }
}

/// Where a job stands: it asks for something, or is done.
#[derive(Debug)]
pub enum Step<S, T> {
    Ask { job: S, request: Request },
    Done(Result<T, Error>),
}

/// The mathematical view of a [`Step`].
pub enum StepView<S, T> {
    Ask { job: S, request: RequestView },
    Done(Result<T, ErrorView>),
}

impl<S: DeepView, T: DeepView> DeepView for Step<S, T> {
    type V = StepView<S::V, T::V>;

    open spec fn deep_view(&self) -> StepView<S::V, T::V> {
        match *self {
            Step::Ask { job, request } => StepView::Ask {
                job: job.deep_view(),
                request: request.deep_view(),
            },
            Step::Done(r) => StepView::Done(error::outcome_view(r)),
        }
    }
}

/// Where a job that goes on by `next` stands after a row of replies, of which
/// there is one at least.
pub open spec fn run<S, T>(
    next: spec_fn(S, Reply) -> StepView<S, T>,
    job: S,
    replies: Seq<Reply>,
) -> StepView<S, T>
    decreases replies.len(),
{
    if replies.len() <= 1 {
        next(job, replies[0])
    } else {
        match run(next, job, replies.drop_last()) {
            StepView::Done(r) => StepView::Done(r),
            StepView::Ask { job: now, request: _ } => next(now, replies.last()),
        }
    }
}

/// A further reply takes a job one step further.
pub proof fn lemma_one_more<S, T>(
    next: spec_fn(S, Reply) -> StepView<S, T>,
    job: S,
    replies: Seq<Reply>,
    reply: Reply,
)
    requires
        replies.len() > 0,
    ensures
        run(next, job, replies.push(reply)) == match run(next, job, replies) {
            StepView::Done(r) => StepView::Done(r),
            StepView::Ask { job: now, request: _ } => next(now, reply),
        },
{
    assert(replies.push(reply).drop_last() == replies);
}

/// Whether a reply says that what was asked is done.
pub open spec fn says_done(reply: Reply) -> bool {
    reply is Finished && reply->Finished_0 is Ok
}

/// A reply that says that what was asked is done.
pub open spec fn went_well() -> Reply {
    Reply::Finished(Ok(()))
}

/// What a job that goes on by `next` asked for in answer to a row of replies, in
/// order.
pub open spec fn asked<S, T>(
    next: spec_fn(S, Reply) -> StepView<S, T>,
    job: S,
    replies: Seq<Reply>,
) -> Seq<RequestView>
    decreases replies.len(),
{
    if replies.len() == 0 {
        Seq::empty()
    } else {
        let before = asked(next, job, replies.drop_last());
        match run(next, job, replies) {
            StepView::Ask { job: _, request } => before.push(request),
            StepView::Done(_) => before,
        }
    }
}

/// Whether a job ends with an error of this status and this reason.
pub open spec fn fails<S, T>(step: StepView<S, T>, status: Status, reason: Seq<char>) -> bool {
    step matches StepView::Done(Err(e)) && e.status == status && e.reason == reason
}

/// A text, if there is one.
pub open spec fn text_of(text: Option<String>) -> Option<Seq<char>> {
    match text {
        Some(t) => Some(t@),
        None => None,
    }
}

/// A view of a request hides nothing of it.
pub proof fn law_view_tells_the_request(request: Request)
    ensures
        match (request, request.deep_view()) {
            (Request::Inspect(paths), RequestView::Inspect(ps)) => ps.len() == paths@.len()
                && forall|i: int| 0 <= i < ps.len() ==> #[trigger] ps[i] == text_of(paths@[i]),
            (Request::CreateDirAll(path), RequestView::CreateDirAll(p)) => p == path@,
            (Request::SetThreads(n), RequestView::SetThreads(m)) => m == n,
            (
                Request::Create { path, options },
                RequestView::Create { path: p, options: o },
            ) => p == path@ && o == options.deep_view(),
            (
                Request::OpenAppend { path, password },
                RequestView::OpenAppend { path: p, password: w },
            ) => p == path@ && w == text_of(password),
            (
                Request::SetDictionary { size_log, size_bytes },
                RequestView::SetDictionary { size_log: l, size_bytes: b },
            ) => l == size_log && b == size_bytes,
            (
                Request::AddBatch { entries, total_bytes, progress },
                RequestView::AddBatch { entries: es, total_bytes: t, progress: g },
            ) => {
                &&& t == total_bytes && g == progress && es.len() == entries@.len()
                &&& forall|i: int|
                    0 <= i < es.len() ==> #[trigger] es[i] == entries@[i].deep_view()
            },
            (Request::Close, RequestView::Close) => true,
            (Request::Notify(report), RequestView::Notify(r)) => r == report,
            (Request::DiscoverVolumes(path), RequestView::DiscoverVolumes(p)) => p == path@,
            (Request::Open { path, password }, RequestView::Open { path: p, password: w }) => p
                == path@ && w == text_of(password),
            (
                Request::ExtractAll { dest, options },
                RequestView::ExtractAll { dest: d, options: o },
            ) => d == dest@ && o == options,
            (Request::Delete(names), RequestView::Delete(ns)) => ns.len() == names@.len()
                && forall|i: int| 0 <= i < ns.len() ==> #[trigger] ns[i] == names@[i]@,
            (Request::ListNames, RequestView::ListNames) => true,
            (Request::ListMembers, RequestView::ListMembers) => true,
            (Request::ReadFile(path), RequestView::ReadFile(p)) => p == path@,
            (Request::Repair(data), RequestView::Repair(d)) => d == data@,
            (Request::WriteFile { path, data }, RequestView::WriteFile { path: p, data: d }) => p
                == path@ && d == data@,
            (Request::RebuildVolumes(path), RequestView::RebuildVolumes(p)) => p == path@,
            _ => false,
        },
{
}

/// A view of a member hides nothing of it.
pub proof fn law_view_tells_the_member(member: EntryInfo)
    ensures
        member.deep_view().name == member.name@,
        member.deep_view().size == member.size,
        member.deep_view().packed_size == member.packed_size,
        member.deep_view().method == member.method,
        member.deep_view().is_dir == member.is_dir,
        member.deep_view().mtime == member.mtime,
{
}

/// A view of a step tells what is asked, or how the job ended.
pub proof fn law_view_tells_the_step<S: DeepView, T: DeepView>(step: Step<S, T>)
    ensures
        match (step, step.deep_view()) {
            (Step::Ask { job, request }, StepView::Ask { job: j, request: r }) => j
                == job.deep_view() && r == request.deep_view(),
            (Step::Done(Ok(value)), StepView::Done(Ok(v))) => v == value.deep_view(),
            (Step::Done(Err(e)), StepView::Done(Err(v))) => v.status == e.status && v.reason
                == e.reason@,
            _ => false,
        },
{
}

} // verus!
