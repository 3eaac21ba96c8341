//! The members of an archive: naming, describing and deleting them.

use vstd::prelude::*;

use crate::error;
use crate::options;
use crate::protocol;
use crate::protocol::{EntryInfo, EntryInfoView, Reply, Request, RequestView, Step, StepView};

verus! {

/// An archive to open: where it lies, and its password, if it has one.
#[derive(Debug)]
pub struct Source {
    pub archive_path: String,
    pub password: Option<String>,
}

/// The mathematical view of a [`Source`].
pub struct SourceView {
    pub archive_path: Seq<char>,
    pub password: Option<Seq<char>>,
}

impl DeepView for Source {
    type V = SourceView;

    open spec fn deep_view(&self) -> SourceView {
        SourceView { archive_path: self.archive_path@, password: self.password.deep_view() }
    }
}

/// The archive that the caller names; an empty password is none.
pub open spec fn source_of(archive_path: Seq<char>, password: Option<String>) -> SourceView {
    SourceView { archive_path, password: options::password_of(password) }
}

/// How a source is opened.
pub open spec fn open_request(source: SourceView) -> RequestView {
    RequestView::Open { path: source.archive_path, password: source.password }
}

impl Source {
    /// The archive that the caller names; an empty password is none.
    fn new(archive_path: String, password: Option<String>) -> (r: Source)
        ensures
            r.deep_view() == source_of(archive_path@, password),
    {
        Source { archive_path, password: options::pick_password(password) }
    }

    /// Asks to open it.
    fn open(self) -> (r: Request)
        ensures
            r.deep_view() == open_request(self.deep_view()),
    {
        Request::Open { path: self.archive_path, password: self.password }
    }
}

/// A job that deletes members.
#[derive(Debug)]
pub enum DeleteEntriesTask {
    /// Nothing was asked yet.
    Ready { source: Source, names: Vec<String> },
    /// The archive is being opened.
    Opening { names: Vec<String> },
    /// The members are being deleted.
    Deleting,
}

/// The mathematical view of a [`DeleteEntriesTask`].
pub enum DeleteTaskView {
    Ready { source: SourceView, names: Seq<Seq<char>> },
    Opening { names: Seq<Seq<char>> },
    Deleting,
}

impl DeepView for DeleteEntriesTask {
    type V = DeleteTaskView;

    open spec fn deep_view(&self) -> DeleteTaskView {
        match *self {
            DeleteEntriesTask::Ready { source, names } => DeleteTaskView::Ready {
                source: source.deep_view(),
                names: names.deep_view(),
            },
            DeleteEntriesTask::Opening { names } => DeleteTaskView::Opening {
                names: names.deep_view(),
            },
            DeleteEntriesTask::Deleting => DeleteTaskView::Deleting,
        }
    }
}

/// The low 32 bits of a count.
pub open spec fn low_32_bits(count: usize) -> u32 {
    (count as int % 0x1_0000_0000) as u32
}

/// What the job does next: open, then delete.
pub open spec fn delete_next(job: DeleteTaskView, reply: Reply) -> StepView<DeleteTaskView, u32> {
    match (job, reply) {
        (DeleteTaskView::Ready { source, names }, Reply::Begin) => StepView::Ask {
            job: DeleteTaskView::Opening { names },
            request: open_request(source),
        },
        (DeleteTaskView::Opening { names }, Reply::Finished(Err(said))) => StepView::Done(
            Err(error::library_failure(said@)),
        ),
        (DeleteTaskView::Opening { names }, Reply::Finished(Ok(()))) => StepView::Ask {
            job: DeleteTaskView::Deleting,
            request: RequestView::Delete(names),
        },
        (DeleteTaskView::Deleting, Reply::Deleted(Err(said))) => StepView::Done(
            Err(error::library_failure(said@)),
        ),
        (DeleteTaskView::Deleting, Reply::Deleted(Ok(count))) => StepView::Done(
            Ok(low_32_bits(count)),
        ),
        _ => StepView::Done(Err(protocol::unexpected_reply())),
    }
}

/// A job that deletes members from an archive without rebuilding it, and
/// counts them. It fails when a name is not there, or the archive is locked.
pub fn delete_entries(
    archive_path: String,
    names: Vec<String>,
    password: Option<String>,
) -> (r: DeleteEntriesTask)
    ensures
        r.deep_view() == (DeleteTaskView::Ready {
            source: source_of(archive_path@, password),
            names: names.deep_view(),
        }),
        r matches DeleteEntriesTask::Ready { source, names: named } && named == names
            && source.archive_path@ == archive_path@
            && (password is Some && password->0@.len() > 0 ==> source.password is Some
            && source.password->0@ == password->0@) && (password is None || password->0@.len() == 0
            ==> source.password is None),
{
    DeleteEntriesTask::Ready { source: Source::new(archive_path, password), names }
}

impl DeleteEntriesTask {
    /// Takes in a reply, and goes on.
    pub fn compute(self, reply: Reply) -> (r: Step<DeleteEntriesTask, u32>)
        ensures
            r.deep_view() == delete_next(self.deep_view(), reply),
    {
        match (self, reply) {
            (DeleteEntriesTask::Ready { source, names }, Reply::Begin) => Step::Ask {
                job: DeleteEntriesTask::Opening { names },
                request: source.open(),
            },
            (DeleteEntriesTask::Opening { names }, Reply::Finished(outcome)) => match outcome {
                Err(said) => protocol::library_failed(said.as_str()),
                Ok(()) => Step::Ask {
                    job: DeleteEntriesTask::Deleting,
                    request: Request::Delete(names),
                },
            },
            (DeleteEntriesTask::Deleting, Reply::Deleted(outcome)) => match outcome {
                Err(said) => protocol::library_failed(said.as_str()),
                Ok(count) => Step::Done(Ok((count as u64 % 0x1_0000_0000) as u32)),
            },
            _ => protocol::refuse_reply(),
        }
    }
}

/// A job that names the members.
#[derive(Debug)]
pub enum ListEntriesTask {
    /// Nothing was asked yet.
    Ready { source: Source },
    /// The archive is being opened.
    Opening,
    /// The members are being named.
    Listing,
}

/// The mathematical view of a [`ListEntriesTask`].
pub enum ListTaskView {
    Ready { source: SourceView },
    Opening,
    Listing,
}

impl DeepView for ListEntriesTask {
    type V = ListTaskView;

    open spec fn deep_view(&self) -> ListTaskView {
        match *self {
            ListEntriesTask::Ready { source } => ListTaskView::Ready {
                source: source.deep_view(),
            },
            ListEntriesTask::Opening => ListTaskView::Opening,
            ListEntriesTask::Listing => ListTaskView::Listing,
        }
    }
}

/// What the job does next: open, then list.
pub open spec fn list_next(job: ListTaskView, reply: Reply) -> StepView<
    ListTaskView,
    Seq<Seq<char>>,
> {
    match (job, reply) {
        (ListTaskView::Ready { source }, Reply::Begin) => StepView::Ask {
            job: ListTaskView::Opening,
            request: open_request(source),
        },
        (ListTaskView::Opening, Reply::Finished(Err(said))) => StepView::Done(
            Err(error::library_failure(said@)),
        ),
        (ListTaskView::Opening, Reply::Finished(Ok(()))) => StepView::Ask {
            job: ListTaskView::Listing,
            request: RequestView::ListNames,
        },
        (ListTaskView::Listing, Reply::Texts(names)) => StepView::Done(Ok(names.deep_view())),
        _ => StepView::Done(Err(protocol::unexpected_reply())),
    }
}

/// A job that names the members of an archive.
pub fn list_entries(archive_path: String, password: Option<String>) -> (r: ListEntriesTask)
    ensures
        r.deep_view() == (ListTaskView::Ready { source: source_of(archive_path@, password) }),
        r matches ListEntriesTask::Ready { source } && source.archive_path@ == archive_path@
            && (password is Some && password->0@.len() > 0 ==> source.password is Some
            && source.password->0@ == password->0@) && (password is None || password->0@.len() == 0
            ==> source.password is None),
{
    ListEntriesTask::Ready { source: Source::new(archive_path, password) }
}

impl ListEntriesTask {
    /// Takes in a reply, and goes on.
    pub fn compute(self, reply: Reply) -> (r: Step<ListEntriesTask, Vec<String>>)
        ensures
            r.deep_view() == list_next(self.deep_view(), reply),
    {
        match (self, reply) {
            (ListEntriesTask::Ready { source }, Reply::Begin) => Step::Ask {
                job: ListEntriesTask::Opening,
                request: source.open(),
            },
            (ListEntriesTask::Opening, Reply::Finished(outcome)) => match outcome {
                Err(said) => protocol::library_failed(said.as_str()),
                Ok(()) => Step::Ask { job: ListEntriesTask::Listing, request: Request::ListNames },
            },
            (ListEntriesTask::Listing, Reply::Texts(names)) => Step::Done(Ok(names)),
            _ => protocol::refuse_reply(),
        }
    }
}

/// A job that describes the members.
#[derive(Debug)]
pub enum ListDetailedTask {
    /// Nothing was asked yet.
    Ready { source: Source },
    /// The archive is being opened.
    Opening,
    /// The members are being described.
    Listing,
}

impl DeepView for ListDetailedTask {
    type V = ListTaskView;

    open spec fn deep_view(&self) -> ListTaskView {
        match *self {
            ListDetailedTask::Ready { source } => ListTaskView::Ready {
                source: source.deep_view(),
            },
            ListDetailedTask::Opening => ListTaskView::Opening,
            ListDetailedTask::Listing => ListTaskView::Listing,
        }
    }
}

/// What the job does next: open, then describe.
pub open spec fn list_detailed_next(job: ListTaskView, reply: Reply) -> StepView<
    ListTaskView,
    Seq<EntryInfoView>,
> {
    match (job, reply) {
        (ListTaskView::Ready { source }, Reply::Begin) => StepView::Ask {
            job: ListTaskView::Opening,
            request: open_request(source),
        },
        (ListTaskView::Opening, Reply::Finished(Err(said))) => StepView::Done(
            Err(error::library_failure(said@)),
        ),
        (ListTaskView::Opening, Reply::Finished(Ok(()))) => StepView::Ask {
            job: ListTaskView::Listing,
            request: RequestView::ListMembers,
        },
        (ListTaskView::Listing, Reply::Members(members)) => StepView::Done(
            Ok(members.deep_view()),
        ),
        _ => StepView::Done(Err(protocol::unexpected_reply())),
    }
}

/// A job that describes the members of an archive with sizes and methods.
pub fn list_entries_detailed(archive_path: String, password: Option<String>) -> (r:
    ListDetailedTask)
    ensures
        r.deep_view() == (ListTaskView::Ready { source: source_of(archive_path@, password) }),
        r matches ListDetailedTask::Ready { source } && source.archive_path@ == archive_path@
            && (password is Some && password->0@.len() > 0 ==> source.password is Some
            && source.password->0@ == password->0@) && (password is None || password->0@.len() == 0
            ==> source.password is None),
{
    ListDetailedTask::Ready { source: Source::new(archive_path, password) }
}

impl ListDetailedTask {
    /// Takes in a reply, and goes on.
    pub fn compute(self, reply: Reply) -> (r: Step<ListDetailedTask, Vec<EntryInfo>>)
        ensures
            r.deep_view() == list_detailed_next(self.deep_view(), reply),
    {
        match (self, reply) {
            (ListDetailedTask::Ready { source }, Reply::Begin) => Step::Ask {
                job: ListDetailedTask::Opening,
                request: source.open(),
            },
            (ListDetailedTask::Opening, Reply::Finished(outcome)) => match outcome {
                Err(said) => protocol::library_failed(said.as_str()),
                Ok(()) => Step::Ask {
                    job: ListDetailedTask::Listing,
                    request: Request::ListMembers,
                },
            },
            (ListDetailedTask::Listing, Reply::Members(members)) => Step::Done(Ok(members)),
            _ => protocol::refuse_reply(),
        }
    }
}

/// Whether a job that deletes members waits for such a reply.
pub open spec fn delete_awaits(job: DeleteTaskView, reply: Reply) -> bool {
    match job {
        DeleteTaskView::Ready { source: _, names: _ } => reply is Begin,
        DeleteTaskView::Opening { names: _ } => reply is Finished,
        DeleteTaskView::Deleting => reply is Deleted,
    }
}

/// Whether a job that names members waits for such a reply.
pub open spec fn list_awaits(job: ListTaskView, reply: Reply) -> bool {
    match job {
        ListTaskView::Ready { source: _ } => reply is Begin,
        ListTaskView::Opening => reply is Finished,
        ListTaskView::Listing => reply is Texts,
    }
}

/// Whether a job that describes members waits for such a reply.
pub open spec fn list_detailed_awaits(job: ListTaskView, reply: Reply) -> bool {
    match job {
        ListTaskView::Ready { source: _ } => reply is Begin,
        ListTaskView::Opening => reply is Finished,
        ListTaskView::Listing => reply is Members,
    }
}

/// A job that deletes members waits for just the replies that answer what it
/// asked.
pub proof fn law_delete_awaits_answers(job: DeleteTaskView, reply: Reply, later: Reply)
    ensures
        delete_next(job, reply) matches StepView::Ask { job: next, request } ==> (delete_awaits(
            next,
            later,
        ) <==> protocol::answers(request, later)),
{
}

/// A job that names or describes members waits for just the replies that
/// answer what it asked, and never touches the disk.
pub proof fn law_list_awaits_answers(job: ListTaskView, reply: Reply, later: Reply)
    ensures
        list_next(job, reply) matches StepView::Ask { job: next, request } ==> (list_awaits(
            next,
            later,
        ) <==> protocol::answers(request, later)) && !protocol::touches_disk(request),
        list_detailed_next(job, reply) matches StepView::Ask { job: next, request } ==> (
        list_detailed_awaits(next, later) <==> protocol::answers(request, later))
            && !protocol::touches_disk(request),
{
}

/// Where a job that deletes members stands after a row of replies.
pub open spec fn delete_run(job: DeleteTaskView, replies: Seq<Reply>) -> StepView<
    DeleteTaskView,
    u32,
> {
    protocol::run(|now: DeleteTaskView, reply: Reply| delete_next(now, reply), job, replies)
}

/// A job opens the archive, then deletes the members that the caller named and
/// no others, and results in their number; what the archive library says
/// against it is its error.
pub proof fn law_delete_deletes_the_named(
    source: SourceView,
    names: Seq<Seq<char>>,
    opened: Reply,
    deleted: Reply,
)
    ensures
        ({
            let job = DeleteTaskView::Ready { source, names };
            let begun = delete_run(job, seq![Reply::Begin]);
            let open = delete_run(job, seq![Reply::Begin, opened]);
            let end = delete_run(job, seq![Reply::Begin, opened, deleted]);
            &&& begun is Ask && begun->request == open_request(source)
            &&& protocol::says_done(opened) ==> open is Ask && open->request
                == RequestView::Delete(names)
            &&& opened matches Reply::Finished(Err(said)) ==> open == StepView::<
                DeleteTaskView,
                u32,
            >::Done(Err(error::library_failure(said@)))
            &&& protocol::says_done(opened) ==> {
                &&& deleted matches Reply::Deleted(Ok(count)) ==> end == StepView::<
                    DeleteTaskView,
                    u32,
                >::Done(Ok(low_32_bits(count))) && (count <= u32::MAX ==> low_32_bits(count)
                    == count)
                &&& deleted matches Reply::Deleted(Err(said)) ==> end == StepView::<
                    DeleteTaskView,
                    u32,
                >::Done(Err(error::library_failure(said@)))
            }
        }),
{
    let begin = seq![Reply::Begin];
    let second = begin.push(opened);
    let third = second.push(deleted);
    reveal_with_fuel(protocol::run, 3);
    assert(seq![Reply::Begin, opened] == second);
    assert(seq![Reply::Begin, opened, deleted] == third);
    assert(second.drop_last() == begin);
    assert(third.drop_last() == second);
}

/// Where a job that names members stands after a row of replies.
pub open spec fn list_run(job: ListTaskView, replies: Seq<Reply>) -> StepView<
    ListTaskView,
    Seq<Seq<char>>,
> {
    protocol::run(|now: ListTaskView, reply: Reply| list_next(now, reply), job, replies)
}

/// Where a job that describes members stands after a row of replies.
pub open spec fn list_detailed_run(job: ListTaskView, replies: Seq<Reply>) -> StepView<
    ListTaskView,
    Seq<EntryInfoView>,
> {
    protocol::run(|now: ListTaskView, reply: Reply| list_detailed_next(now, reply), job, replies)
}

/// A job that names or describes members opens the archive and gives back what
/// it is told, all of it and in order.
pub proof fn law_list_gives_back_what_is_there(
    source: SourceView,
    opened: Reply,
    names: Vec<String>,
    members: Vec<EntryInfo>,
)
    requires
        protocol::says_done(opened),
    ensures
        list_run(
            ListTaskView::Ready { source },
            seq![Reply::Begin, opened, Reply::Texts(names)],
        ) == StepView::<ListTaskView, Seq<Seq<char>>>::Done(Ok(names.deep_view())),
        list_detailed_run(
            ListTaskView::Ready { source },
            seq![Reply::Begin, opened, Reply::Members(members)],
        ) == StepView::<ListTaskView, Seq<EntryInfoView>>::Done(Ok(members.deep_view())),
{
    let begin = seq![Reply::Begin];
    let second = begin.push(opened);
    let named = second.push(Reply::Texts(names));
    let described = second.push(Reply::Members(members));
    reveal_with_fuel(protocol::run, 3);
    assert(seq![Reply::Begin, opened, Reply::Texts(names)] == named);
    assert(seq![Reply::Begin, opened, Reply::Members(members)] == described);
    assert(second.drop_last() == begin);
    assert(named.drop_last() == second);
    assert(described.drop_last() == second);
}

/// The names of members, in order.
pub open spec fn names_of(members: Seq<EntryInfoView>) -> Seq<Seq<char>> {
    members.map_values(|member: EntryInfoView| member.name)
}

/// The two listings of one archive agree: both open it in the same way, both
/// fail with the same error where it cannot be opened, and else both succeed,
/// with the same names in the same order where the archive library names and
/// describes the same members.
pub proof fn law_listings_agree(
    source: SourceView,
    opened: Reply,
    names: Vec<String>,
    members: Vec<EntryInfo>,
)
    ensures
        ({
            let job = ListTaskView::Ready { source };
            let begun = list_run(job, seq![Reply::Begin]);
            let begun_detailed = list_detailed_run(job, seq![Reply::Begin]);
            let open = list_run(job, seq![Reply::Begin, opened]);
            let open_detailed = list_detailed_run(job, seq![Reply::Begin, opened]);
            let end = list_run(job, seq![Reply::Begin, opened, Reply::Texts(names)]);
            let end_detailed = list_detailed_run(
                job,
                seq![Reply::Begin, opened, Reply::Members(members)],
            );
            &&& begun is Ask && begun_detailed is Ask
            &&& begun->request == open_request(source)
            &&& begun_detailed->request == open_request(source)
            &&& opened matches Reply::Finished(Err(said)) ==> {
                &&& open == StepView::<ListTaskView, Seq<Seq<char>>>::Done(
                    Err(error::library_failure(said@)),
                )
                &&& open_detailed == StepView::<ListTaskView, Seq<EntryInfoView>>::Done(
                    Err(error::library_failure(said@)),
                )
            }
            &&& open is Done <==> open_detailed is Done
            &&& open matches StepView::Done(Err(e)) ==> open_detailed == StepView::<
                ListTaskView,
                Seq<EntryInfoView>,
            >::Done(Err(e))
            &&& protocol::says_done(opened) ==> {
                &&& end matches StepView::Done(Ok(listed))
                &&& end_detailed matches StepView::Done(Ok(described))
                &&& names.deep_view() == names_of(members.deep_view()) ==> listed == names_of(
                    described,
                )
            }
        }),
{
    let begin = seq![Reply::Begin];
    let second = begin.push(opened);
    reveal_with_fuel(protocol::run, 2);
    assert(seq![Reply::Begin, opened] == second);
    assert(second.drop_last() == begin);
    if protocol::says_done(opened) {
        law_list_gives_back_what_is_there(source, opened, names, members);
    }
}

/// Whether a job first asks to open this archive, with the password that the
/// caller gave: just that, however long it is, unless it is empty or missing.
pub open spec fn first_opens<S, T>(
    first: StepView<S, T>,
    archive_path: Seq<char>,
    password: Option<String>,
) -> bool {
    &&& first is Ask
    &&& first->request matches RequestView::Open { path, password: told } && path == archive_path
        && (password is Some && password->0@.len() > 0 ==> told == Some(password->0@)) && (
    password is None || password->0@.len() == 0 ==> told is None)
}

/// Whatever archive and password the caller names, a job that deletes, names or
/// describes members first asks to open that archive with that password.
pub proof fn law_archives_are_opened_as_the_caller_says(
    archive_path: Seq<char>,
    names: Seq<Seq<char>>,
    password: Option<String>,
)
    ensures
        first_opens(
            delete_run(
                DeleteTaskView::Ready { source: source_of(archive_path, password), names },
                seq![Reply::Begin],
            ),
            archive_path,
            password,
        ),
        first_opens(
            list_run(
                ListTaskView::Ready { source: source_of(archive_path, password) },
                seq![Reply::Begin],
            ),
            archive_path,
            password,
        ),
        first_opens(
            list_detailed_run(
                ListTaskView::Ready { source: source_of(archive_path, password) },
                seq![Reply::Begin],
            ),
            archive_path,
            password,
        ),
{
}

/// Once the archive is open, a job asks for just the members that the caller
/// named to be deleted, or for all members to be named or described. Where the
/// archive cannot be opened, or the members not be deleted, it ends with what
/// the archive library said.
pub proof fn law_open_archives_are_asked_for_members(
    source: SourceView,
    names: Seq<Seq<char>>,
    opened: Reply,
    said: String,
)
    requires
        protocol::says_done(opened),
    ensures
        ({
            let delete = DeleteTaskView::Ready { source, names };
            let list = ListTaskView::Ready { source };
            let open = seq![Reply::Begin, opened];
            let shut = seq![Reply::Begin, Reply::Finished(Err(said))];
            let kept = seq![Reply::Begin, opened, Reply::Deleted(Err(said))];
            let status = error::Status::GenericFailure;
            &&& delete_run(delete, open) is Ask && delete_run(delete, open)->request
                == RequestView::Delete(names)
            &&& list_run(list, open) is Ask && list_run(list, open)->request
                == RequestView::ListNames
            &&& list_detailed_run(list, open) is Ask && list_detailed_run(list, open)->request
                == RequestView::ListMembers
            &&& protocol::fails(delete_run(delete, shut), status, "rar5: "@ + said@)
            &&& protocol::fails(list_run(list, shut), status, "rar5: "@ + said@)
            &&& protocol::fails(list_detailed_run(list, shut), status, "rar5: "@ + said@)
            &&& protocol::fails(delete_run(delete, kept), status, "rar5: "@ + said@)
        }),
{
    let begin = seq![Reply::Begin];
    let open = begin.push(opened);
    let shut = begin.push(Reply::Finished(Err(said)));
    let kept = open.push(Reply::Deleted(Err(said)));
    reveal_with_fuel(protocol::run, 3);
    assert(seq![Reply::Begin, opened] == open);
    assert(seq![Reply::Begin, Reply::Finished(Err(said))] == shut);
    assert(seq![Reply::Begin, opened, Reply::Deleted(Err(said))] == kept);
    assert(open.drop_last() == begin);
    assert(shut.drop_last() == begin);
    assert(kept.drop_last() == open);
}

/// A job that deletes members results in the number that the archive library
/// counted, or its low 32 bits where it has more.
pub proof fn law_deleted_members_are_counted(
    source: SourceView,
    names: Seq<Seq<char>>,
    opened: Reply,
    count: usize,
)
    requires
        protocol::says_done(opened),
    ensures
        delete_run(
            DeleteTaskView::Ready { source, names },
            seq![Reply::Begin, opened, Reply::Deleted(Ok(count))],
        ) matches StepView::Done(Ok(n)) && (count <= u32::MAX ==> n == count) && n == count as int
            % 0x1_0000_0000,
{
    law_delete_deletes_the_named(source, names, opened, Reply::Deleted(Ok(count)));
}

/// A job ends on a reply that it does not wait for, with an error that says so.
pub proof fn law_members_end_on_other_replies(
    delete: DeleteTaskView,
    list: ListTaskView,
    reply: Reply,
)
    ensures
        !delete_awaits(delete, reply) ==> protocol::fails(
            delete_next(delete, reply),
            error::Status::GenericFailure,
            "unexpected reply"@,
        ),
        !list_awaits(list, reply) ==> protocol::fails(
            list_next(list, reply),
            error::Status::GenericFailure,
            "unexpected reply"@,
        ),
        !list_detailed_awaits(list, reply) ==> protocol::fails(
            list_detailed_next(list, reply),
            error::Status::GenericFailure,
            "unexpected reply"@,
        ),
{
}

/// A view of a job, or of the archive that it opens, hides nothing of it.
pub proof fn law_view_tells_the_members_job(
    source: Source,
    delete: DeleteEntriesTask,
    list: ListEntriesTask,
    detailed: ListDetailedTask,
)
    ensures
        source.deep_view().archive_path == source.archive_path@,
        source.deep_view().password == protocol::text_of(source.password),
        match (delete, delete.deep_view()) {
            (
                DeleteEntriesTask::Ready { source: s, names },
                DeleteTaskView::Ready { source: v, names: ns },
            ) => v == s.deep_view() && ns.len() == names@.len() && forall|i: int|
                0 <= i < ns.len() ==> #[trigger] ns[i] == names@[i]@,
            (DeleteEntriesTask::Opening { names }, DeleteTaskView::Opening { names: ns }) =>
                ns.len() == names@.len() && forall|i: int|
                0 <= i < ns.len() ==> #[trigger] ns[i] == names@[i]@,
            (DeleteEntriesTask::Deleting, DeleteTaskView::Deleting) => true,
            _ => false,
        },
        match (list, list.deep_view()) {
            (ListEntriesTask::Ready { source: s }, ListTaskView::Ready { source: v }) => v
                == s.deep_view(),
            (ListEntriesTask::Opening, ListTaskView::Opening) => true,
            (ListEntriesTask::Listing, ListTaskView::Listing) => true,
            _ => false,
        },
        match (detailed, detailed.deep_view()) {
            (ListDetailedTask::Ready { source: s }, ListTaskView::Ready { source: v }) => v
                == s.deep_view(),
            (ListDetailedTask::Opening, ListTaskView::Opening) => true,
            (ListDetailedTask::Listing, ListTaskView::Listing) => true,
            _ => false,
        },
{
}

} // verus!
