//! The errors that a job answers with.

use vstd::prelude::*;

verus! {

/// What kind of failure an [`Error`] reports.
#[derive(Debug, Clone, Copy, PartialEq, Eq, Structural)]
pub enum Status {
    /// The caller asked for something that cannot be done.
    InvalidArg,
    /// The file system or the archive library failed.
    GenericFailure,
}

/// A failed job: its status, and a reason in words.
#[derive(Debug)]
pub struct Error {
    pub status: Status,
    pub reason: String,
}

/// The mathematical view of an [`Error`].
pub struct ErrorView {
    pub status: Status,
    pub reason: Seq<char>,
}

impl DeepView for Error {
    type V = ErrorView;

    open spec fn deep_view(&self) -> ErrorView {
        ErrorView { status: self.status, reason: self.reason@ }
    }
}

/// The view of a result: the view of its value, or of its error.
pub open spec fn outcome_view<T: DeepView>(r: Result<T, Error>) -> Result<T::V, ErrorView> {
    match r {
        Ok(t) => Ok(t.deep_view()),
        Err(e) => Err(e.deep_view()),
    }
}

/// The error that blames the caller, with the given reason.
pub open spec fn invalid(reason: Seq<char>) -> ErrorView {
    ErrorView { status: Status::InvalidArg, reason }
}

/// The error that blames the outside world, with the given reason.
pub open spec fn failure(reason: Seq<char>) -> ErrorView {
    ErrorView { status: Status::GenericFailure, reason }
}

/// The error that passes on what the archive library said.
pub open spec fn library_failure(said: Seq<char>) -> ErrorView {
    failure("rar5: "@ + said)
}

impl Error {
    /// Blames the caller.
    pub fn invalid(reason: String) -> (r: Error)
        ensures
            r.deep_view() == invalid(reason@),
    {
        Error { status: Status::InvalidArg, reason }
    }

    /// Blames the outside world.
    pub fn failure(reason: String) -> (r: Error)
        ensures
            r.deep_view() == failure(reason@),
    {
        Error { status: Status::GenericFailure, reason }
    }

    /// Passes on what the archive library said.
    pub fn library(said: &str) -> (r: Error)
        ensures
            r.deep_view() == library_failure(said@),
    {
        Error::failure("rar5: ".to_owned().concat(said))
    }
}

/// An error blames the caller or the outside world, and says why in just the
/// words that it was given; what the archive library said stands behind its
/// name. A view of an error or of an outcome hides nothing of that.
pub proof fn law_errors_say_what_they_were_given(
    reason: Seq<char>,
    e: Error,
    fine: Result<Vec<String>, Error>,
)
    ensures
        invalid(reason).status == Status::InvalidArg && invalid(reason).reason == reason,
        failure(reason).status == Status::GenericFailure && failure(reason).reason == reason,
        library_failure(reason).status == Status::GenericFailure,
        library_failure(reason).reason == "rar5: "@ + reason,
        e.deep_view().status == e.status && e.deep_view().reason == e.reason@,
        fine matches Ok(texts) ==> outcome_view(fine) == Ok::<_, ErrorView>(texts.deep_view()),
        fine matches Err(why) ==> outcome_view(fine) == Err::<Seq<Seq<char>>, _>(
            (ErrorView { status: why.status, reason: why.reason@ }),
        ),
{
}

} // verus!
