//! What the planned entries hold together, and whether that is too much.

use vstd::prelude::*;

use crate::entry::{Inspection, PlannedEntry, PlannedView, MAX_TOTAL_BYTES};
use crate::error;
use crate::error::{Error, ErrorView};
use crate::size;

verus! {

/// The size of an entry: the bytes that it brings, or what the file system
/// says of its file. A directory entry is a header only, as its children are
/// entries of their own.
pub open spec fn measured(entry: PlannedView, seen: Inspection) -> Result<u64, ErrorView> {
    match entry {
        PlannedView::Bytes { name: _, data } => Ok(data.len() as u64),
        PlannedView::Dir { path: _, name: _ } => Ok(0),
        PlannedView::File { path, name: _ } => match seen {
            Ok(meta) => Ok(meta.len),
            Err(why) => Err(error::failure("stat "@ + path + ": "@ + why@)),
        },
    }
}

/// Measures an entry.
pub fn entry_size(entry: &PlannedEntry, seen: &Inspection) -> (r: Result<u64, Error>)
    ensures
        error::outcome_view(r) == measured(entry.deep_view(), *seen),
{
    match entry {
        PlannedEntry::Bytes { name: _, data } => Ok(data.len() as u64),
        PlannedEntry::Dir { path: _, name: _ } => Ok(0),
        PlannedEntry::File { path, name: _ } => match seen {
            Ok(meta) => Ok(meta.len),
            Err(why) => Err(
                Error::failure(
                    "stat ".to_owned().concat(path.as_str()).concat(": ").concat(why.as_str()),
                ),
            ),
        },
    }
}

/// The error of a job that is over the budget.
pub open spec fn over_budget() -> ErrorView {
    error::invalid("total input size exceeds 32 GiB limit"@)
}

/// What the first `n` entries hold together: the first error among them, where
/// one cannot be measured or takes the sum over the budget, or else the sum.
pub open spec fn total_first(entries: Seq<PlannedView>, seen: Seq<Inspection>, n: int) -> Result<
    u64,
    ErrorView,
>
    decreases n,
{
    if n <= 0 {
        Ok(0)
    } else {
        match total_first(entries, seen, n - 1) {
            Err(e) => Err(e),
            Ok(before) => match measured(entries[n - 1], seen[n - 1]) {
                Err(e) => Err(e),
                Ok(bytes) => if before + bytes > MAX_TOTAL_BYTES {
                    Err(over_budget())
                } else {
                    Ok((before + bytes) as u64)
                },
            },
        }
    }
}

/// What the entries of a job hold together.
#[verifier::opaque]
pub open spec fn total(entries: Seq<PlannedView>, seen: Seq<Inspection>) -> Result<
    u64,
    ErrorView,
> {
    total_first(entries, seen, entries.len() as int)
}

/// Where an early entry breaks the sum, no longer row of entries has one.
proof fn lemma_first_error_stays(
    entries: Seq<PlannedView>,
    seen: Seq<Inspection>,
    m: int,
    n: int,
)
    requires
        0 <= m <= n,
        total_first(entries, seen, m) is Err,
    ensures
        total_first(entries, seen, n) == total_first(entries, seen, m),
    decreases n,
{
    if m < n {
        lemma_first_error_stays(entries, seen, m, n - 1);
    }
}

/// Adds up the sizes of the entries, and holds the sum to the budget.
pub fn total_size(entries: &Vec<PlannedEntry>, seen: &Vec<Inspection>) -> (r: Result<u64, Error>)
    requires
        seen@.len() == entries@.len(),
    ensures
        error::outcome_view(r) == total(entries.deep_view(), seen@),
{
    reveal(total);
    let ghost all = entries.deep_view();
    let mut sum: u64 = 0;
    for at in 0..entries.len()
        invariant
            all == entries.deep_view(),
            seen@.len() == entries@.len(),
            total_first(all, seen@, at as int) == Ok::<u64, ErrorView>(sum),
    {
        assert(all[at as int] == entries@[at as int].deep_view());
        let ghost end = all.len() as int;
        match entry_size(&entries[at], &seen[at]) {
            Err(e) => {
                proof {
                    reveal(total);
                    lemma_first_error_stays(all, seen@, at + 1, end);
                }
                return Err(e);
            },
            Ok(bytes) => {
                let next = sum.saturating_add(bytes);
                if next > MAX_TOTAL_BYTES {
                    proof {
                        reveal(total);
                        lemma_first_error_stays(all, seen@, at + 1, end);
                    }
                    return Err(Error::invalid("total input size exceeds 32 GiB limit".to_owned()));
                }
                sum = next;
            },
        }
    }
    Ok(sum)
}

/// The path that the file system is asked about to measure an entry.
pub open spec fn measured_path(entry: PlannedView) -> Option<Seq<char>> {
    match entry {
        PlannedView::File { path, name: _ } => Some(path),
        _ => None,
    }
}

/// The paths that the file system is asked about to measure entries.
pub open spec fn measured_paths(entries: Seq<PlannedView>) -> Seq<Option<Seq<char>>> {
    entries.map_values(|entry: PlannedView| measured_path(entry))
}

/// Lists, for each entry, the path to ask the file system about, if any.
pub fn paths_to_measure(entries: &Vec<PlannedEntry>) -> (r: Vec<Option<String>>)
    ensures
        r.deep_view() == measured_paths(entries.deep_view()),
{
    let mut r: Vec<Option<String>> = Vec::new();
    for at in 0..entries.len()
        invariant
            r@.len() == at,
            forall|i: int|
                0 <= i < at ==> #[trigger] r@[i].deep_view() == measured_path(
                    entries@[i].deep_view(),
                ),
    {
        match &entries[at] {
            PlannedEntry::File { path, name: _ } => r.push(Some(path.clone())),
            _ => r.push(None),
        }
    }
    assert(r.deep_view() == measured_paths(entries.deep_view()));
    r
}

/// What the caller's own limit says of a sum: the error that it is over it, if
/// it is. Any sum is over a negative limit.
#[verifier::opaque]
pub open spec fn over_limit(sum: u64, limit: Option<i64>) -> Option<ErrorView> {
    if limit is Some && sum > limit->0 {
        Some(
            error::invalid(
                "total input size "@ + size::in_units(sum as nat, size::MIB as int)
                    + " MiB exceeds limit "@ + size::signed_in_units(
                    limit->0 as int,
                    size::MIB as int,
                ) + " MiB"@,
            ),
        )
    } else {
        None
    }
}

/// Holds a sum to the caller's own limit, if there is one.
pub fn check_limit(sum: u64, limit: Option<i64>) -> (r: Result<(), Error>)
    ensures
        match r {
            Ok(()) => over_limit(sum, limit) is None,
            Err(e) => over_limit(sum, limit) == Some(e.deep_view()),
        },
{
    reveal(over_limit);
    if let Some(most) = limit {
        if most < 0 || sum > most as u64 {
            return Err(
                Error::invalid(
                    "total input size ".to_owned().concat(
                        size::size_text(sum, size::MIB).as_str(),
                    ).concat(" MiB exceeds limit ").concat(
                        size::signed_size_text(most, size::MIB).as_str(),
                    ).concat(" MiB"),
                ),
            );
        }
    }
    Ok(())
}

/// The sizes of the first `n` entries added up, of those that can be measured.
pub open spec fn sum_first(entries: Seq<PlannedView>, seen: Seq<Inspection>, n: int) -> int
    decreases n,
{
    if n <= 0 {
        0
    } else {
        sum_first(entries, seen, n - 1) + match measured(entries[n - 1], seen[n - 1]) {
            Ok(bytes) => bytes as int,
            Err(_) => 0,
        }
    }
}

/// A job is within the budget exactly if each of its entries can be measured
/// and their sizes add up to no more than 32 GiB; the total is then that sum.
pub proof fn law_total_is_the_sum(entries: Seq<PlannedView>, seen: Seq<Inspection>)
    ensures
        total(entries, seen) is Ok <==> {
            &&& forall|i: int|
                0 <= i < entries.len() ==> measured(#[trigger] entries[i], seen[i]) is Ok
            &&& sum_first(entries, seen, entries.len() as int) <= MAX_TOTAL_BYTES
        },
        total(entries, seen) is Ok ==> total(entries, seen)->Ok_0 == sum_first(
            entries,
            seen,
            entries.len() as int,
        ) && total(entries, seen)->Ok_0 <= MAX_TOTAL_BYTES,
{
    reveal(total);
    lemma_total_first(entries, seen, entries.len() as int);
}

/// The sums of longer rows are no smaller; a total is the sum.
proof fn lemma_total_first(entries: Seq<PlannedView>, seen: Seq<Inspection>, n: int)
    requires
        0 <= n <= entries.len(),
    ensures
        total_first(entries, seen, n) is Ok <==> {
            &&& forall|i: int| 0 <= i < n ==> measured(#[trigger] entries[i], seen[i]) is Ok
            &&& sum_first(entries, seen, n) <= MAX_TOTAL_BYTES
        },
        total_first(entries, seen, n) is Ok ==> total_first(entries, seen, n)->Ok_0 == sum_first(
            entries,
            seen,
            n,
        ) && sum_first(entries, seen, n) <= MAX_TOTAL_BYTES,
    decreases n,
{
    if n > 0 {
        lemma_total_first(entries, seen, n - 1);
        assert(entries[n - 1] == entries[n - 1]);
    }
}

/// A directory entry weighs nothing: it leaves the total of a job as it is.
pub proof fn law_directories_weigh_nothing(
    entries: Seq<PlannedView>,
    seen: Seq<Inspection>,
    path: Seq<char>,
    name: Seq<char>,
    found: Inspection,
)
    requires
        seen.len() == entries.len(),
    ensures
        total(entries.push(PlannedView::Dir { path, name }), seen.push(found)) == total(
            entries,
            seen,
        ),
{
    reveal(total);
    let n = entries.len() as int;
    lemma_total_of_same_start(
        entries,
        seen,
        entries.push(PlannedView::Dir { path, name }),
        seen.push(found),
        n,
    );
    lemma_total_first(entries, seen, n);
}

/// A total depends on the entries that it adds up, and on no others.
proof fn lemma_total_of_same_start(
    entries: Seq<PlannedView>,
    seen: Seq<Inspection>,
    more: Seq<PlannedView>,
    more_seen: Seq<Inspection>,
    n: int,
)
    requires
        0 <= n <= entries.len(),
        forall|i: int| 0 <= i < n ==> #[trigger] more[i] == entries[i],
        forall|i: int| 0 <= i < n ==> #[trigger] more_seen[i] == seen[i],
    ensures
        total_first(more, more_seen, n) == total_first(entries, seen, n),
    decreases n,
{
    if n > 0 {
        lemma_total_of_same_start(entries, seen, more, more_seen, n - 1);
        assert(more[n - 1] == entries[n - 1]);
        assert(more_seen[n - 1] == seen[n - 1]);
    }
}

/// A sum is within the caller's limit exactly if it does not exceed it, and one
/// that does is answered by blaming the caller.
pub proof fn law_limit_is_kept(sum: u64, limit: i64)
    ensures
        over_limit(sum, Some(limit)) is None <==> sum as int <= limit as int,
        over_limit(sum, Some(limit)) matches Some(e) ==> e.status == error::Status::InvalidArg,
        over_limit(sum, None) is None,
{
    reveal(over_limit);
}

/// A negative limit refuses every job, whatever it holds.
pub proof fn law_negative_limit_refuses_every_job(sum: u64, limit: i64)
    requires
        limit < 0,
    ensures
        over_limit(sum, Some(limit)) matches Some(e) && e.status == error::Status::InvalidArg,
{
    law_limit_is_kept(sum, limit);
}

/// An entry weighs the bytes that it brings, or as much as its file is found to
/// hold; a directory weighs nothing. A file that is not found fails the job.
pub proof fn law_entries_weigh_what_they_hold(
    path: Seq<char>,
    name: Seq<char>,
    data: Seq<u8>,
    seen: Inspection,
)
    requires
        data.len() <= u64::MAX,
    ensures
        measured(PlannedView::Bytes { name, data }, seen) matches Ok(n) && n == data.len(),
        measured(PlannedView::Dir { path, name }, seen) matches Ok(n) && n == 0,
        seen matches Ok(meta) ==> (measured(PlannedView::File { path, name }, seen) matches Ok(n)
            && n == meta.len),
        seen matches Err(why) ==> (measured(PlannedView::File { path, name }, seen) matches Err(e)
            && e.status == error::Status::GenericFailure && e.reason == "stat "@ + path + ": "@
            + why@),
{
}

/// A job fails on the first entry that cannot be measured, with its error, or
/// that takes the sum over 32 GiB.
pub proof fn law_total_fails_on_the_first_excess(
    entries: Seq<PlannedView>,
    seen: Seq<Inspection>,
    at: int,
)
    requires
        0 <= at < entries.len(),
        forall|i: int| 0 <= i < at ==> measured(#[trigger] entries[i], seen[i]) is Ok,
        sum_first(entries, seen, at) <= 0x8_0000_0000,
    ensures
        measured(entries[at], seen[at]) matches Err(e) ==> total(entries, seen) == Err::<u64, _>(e),
        measured(entries[at], seen[at]) is Ok && sum_first(entries, seen, at + 1) > 0x8_0000_0000
            ==> (total(entries, seen) matches Err(e) && e.status == error::Status::InvalidArg
            && e.reason == "total input size exceeds 32 GiB limit"@),
{
    reveal(total);
    lemma_total_first(entries, seen, at);
    if total_first(entries, seen, at + 1) is Err {
        lemma_first_error_stays(entries, seen, at + 1, entries.len() as int);
    }
}

/// A sum over the caller's limit is answered with both in MiB.
pub proof fn law_excess_is_told_in_mib(sum: u64, limit: i64)
    requires
        sum as int > limit as int,
    ensures
        over_limit(sum, Some(limit)) matches Some(e) && e.status == error::Status::InvalidArg
            && e.reason == "total input size "@ + size::in_units(sum as nat, 0x10_0000)
            + " MiB exceeds limit "@ + size::signed_in_units(limit as int, 0x10_0000) + " MiB"@,
{
    reveal(over_limit);
}

/// The path of each file is asked about to measure it, in its place, and no
/// other.
pub proof fn law_files_are_measured(entries: Seq<PlannedView>)
    ensures
        measured_paths(entries).len() == entries.len(),
        forall|i: int|
            0 <= i < entries.len() ==> match entries[i] {
                PlannedView::File { path, name: _ } => #[trigger] measured_paths(entries)[i]
                    == Some(path),
                _ => measured_paths(entries)[i] is None,
            },
{
}

} // verus!
