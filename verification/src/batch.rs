//! What the archive writer is handed.

use vstd::prelude::*;

use crate::entry::{PlannedEntry, PlannedView};

verus! {

/// An entry as the archive writer takes it.
#[derive(Debug)]
#[allow(inconsistent_fields)]
pub enum BatchEntry {
    File { path: String, name: Option<String>, level: u8 },
    Directory { path: String, name: Option<String> },
    Bytes { name: String, data: Vec<u8>, level: u8 },
}

/// The mathematical view of a [`BatchEntry`].
#[allow(inconsistent_fields)]
pub enum BatchView {
    File { path: Seq<char>, name: Option<Seq<char>>, level: u8 },
    Directory { path: Seq<char>, name: Option<Seq<char>> },
    Bytes { name: Seq<char>, data: Seq<u8>, level: u8 },
}

impl DeepView for BatchEntry {
    type V = BatchView;

    open spec fn deep_view(&self) -> BatchView {
        match *self {
            BatchEntry::File { path, name, level } => BatchView::File {
                path: path@,
                name: name.deep_view(),
                level,
            },
            BatchEntry::Directory { path, name } => BatchView::Directory {
                path: path@,
                name: name.deep_view(),
            },
            BatchEntry::Bytes { name, data, level } => BatchView::Bytes {
                name: name@,
                data: data@,
                level,
            },
        }
    }
}

/// What the archive writer is handed for an entry. A file without a name is
/// left for the writer to name.
pub open spec fn batch_entry(entry: PlannedView, level: u8) -> BatchView {
    match entry {
        PlannedView::File { path, name } => BatchView::File {
            path,
            name: if name.len() == 0 {
                None
            } else {
                Some(name)
            },
            level,
        },
        PlannedView::Dir { path, name } => BatchView::Directory { path, name: Some(name) },
        PlannedView::Bytes { name, data } => BatchView::Bytes { name, data, level },
    }
}

/// What the archive writer is handed for the entries of a job: each of them,
/// in order.
pub open spec fn batch(entries: Seq<PlannedView>, level: u8) -> Seq<BatchView> {
    entries.map_values(|entry: PlannedView| batch_entry(entry, level))
}

/// Hands over the entries of a job at a compression level.
pub fn build_batch(planned: Vec<PlannedEntry>, level: u8) -> (r: Vec<BatchEntry>)
    ensures
        r.deep_view() == batch(planned.deep_view(), level),
{
    let ghost all = planned@;
    let mut r: Vec<BatchEntry> = Vec::new();
    for entry in it: planned.into_iter()
        invariant
            it.seq() == all,
            r@.len() == it.index(),
            forall|i: int|
                0 <= i < it.index() ==> #[trigger] r@[i].deep_view() == batch_entry(
                    all[i].deep_view(),
                    level,
                ),
    {
        match entry {
            PlannedEntry::File { path, name } => {
                let name = if name.as_str().is_empty() {
                    None
                } else {
                    Some(name)
                };
                r.push(BatchEntry::File { path, name, level });
            },
            PlannedEntry::Dir { path, name } => {
                r.push(BatchEntry::Directory { path, name: Some(name) });
            },
            PlannedEntry::Bytes { name, data } => {
                r.push(BatchEntry::Bytes { name, data, level });
            },
        }
    }
    assert(r.deep_view() == batch(planned.deep_view(), level));
    r
}

/// No entry is dropped, and none is added: each is handed over in its place,
/// with its path, its data and its name, unless that is a file's and empty.
pub proof fn law_every_entry_is_handed_over(entries: Seq<PlannedView>, level: u8)
    ensures
        batch(entries, level).len() == entries.len(),
        forall|i: int|
            0 <= i < entries.len() ==> match (entries[i], #[trigger] batch(entries, level)[i]) {
                (
                    PlannedView::File { path, name },
                    BatchView::File { path: p, name: n, level: l },
                ) => p == path && l == level && n == (if name.len() == 0 {
                    None
                } else {
                    Some(name)
                }),
                (PlannedView::Dir { path, name }, BatchView::Directory { path: p, name: n }) => p
                    == path && n == Some(name),
                (
                    PlannedView::Bytes { name, data },
                    BatchView::Bytes { name: n, data: d, level: l },
                ) => n == name && d == data && l == level,
                _ => false,
            },
{
}

/// A view of an entry that is handed over hides nothing of it.
pub proof fn law_view_tells_the_batch_entry(entry: BatchEntry)
    ensures
        match (entry, entry.deep_view()) {
            (
                BatchEntry::File { path, name, level },
                BatchView::File { path: p, name: n, level: l },
            ) => p == path@ && l == level && n == (match name {
                Some(given) => Some(given@),
                None => None,
            }),
            (BatchEntry::Directory { path, name }, BatchView::Directory { path: p, name: n }) => p
                == path@ && n == (match name {
                Some(given) => Some(given@),
                None => None,
            }),
            (
                BatchEntry::Bytes { name, data, level },
                BatchView::Bytes { name: n, data: d, level: l },
            ) => n == name@ && d == data@ && l == level,
            _ => false,
        },
{
}

} // verus!
