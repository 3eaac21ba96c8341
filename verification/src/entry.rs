//! The entries of an archive: what the caller names, and what the plan makes
//! of it.

use vstd::prelude::*;

use crate::error;
use crate::error::{Error, ErrorView};
use crate::path;
use crate::size;
use crate::text;

verus! {

/// The largest file that an archive takes: 4 GiB.
pub const MAX_FILE_BYTES: u64 = 0x1_0000_0000;

/// The most that the entries of one job may hold together: 32 GiB.
pub const MAX_TOTAL_BYTES: u64 = 0x8_0000_0000;

/// An entry as the caller names it.
#[derive(Debug)]
pub struct EntryInput {
    /// `file`, `dir` or `bytes`.
    pub kind: String,
    /// Where a `file` or `dir` entry lies.
    pub path: Option<String>,
    /// The name in the archive. A `file` or `dir` entry has the last part of
    /// its path by default; a `bytes` entry must have one.
    pub name: Option<String>,
    /// What a `bytes` entry holds.
    pub data: Option<Vec<u8>>,
}

/// What the file system says of something that it found.
#[derive(Debug, Clone, Copy, PartialEq, Eq, Structural)]
pub struct FileMeta {
    pub is_file: bool,
    pub is_dir: bool,
    pub len: u64,
}

/// What the file system says of a path: what is there, or in words why that
/// cannot be told.
pub type Inspection = Result<FileMeta, String>;

/// An entry that can be archived.
#[derive(Debug)]
pub enum PlannedEntry {
    File { path: String, name: String },
    Dir { path: String, name: String },
    Bytes { name: String, data: Vec<u8> },
}

/// The mathematical view of a [`PlannedEntry`].
pub enum PlannedView {
    File { path: Seq<char>, name: Seq<char> },
    Dir { path: Seq<char>, name: Seq<char> },
    Bytes { name: Seq<char>, data: Seq<u8> },
}

impl DeepView for PlannedEntry {
    type V = PlannedView;

    open spec fn deep_view(&self) -> PlannedView {
        match *self {
            PlannedEntry::File { path, name } => PlannedView::File { path: path@, name: name@ },
            PlannedEntry::Dir { path, name } => PlannedView::Dir { path: path@, name: name@ },
            PlannedEntry::Bytes { name, data } => PlannedView::Bytes { name: name@, data: data@ },
        }
    }
}

/// The name that the caller gave, or else the base name.
pub open spec fn name_or(name: Option<String>, base: Seq<char>) -> Seq<char> {
    match name {
        Some(given) => given@,
        None => base,
    }
}

/// What the plan makes of a file at `path`.
pub open spec fn planned_file(path: Seq<char>, name: Seq<char>, seen: Inspection) -> Result<
    PlannedView,
    ErrorView,
> {
    match seen {
        Err(why) => Err(error::invalid("cannot stat "@ + path + ": "@ + why@)),
        Ok(meta) => if !meta.is_file {
            Err(error::invalid(path + " is not a file"@))
        } else if meta.len > MAX_FILE_BYTES {
            Err(
                error::invalid(
                    path + " is "@ + size::in_units(meta.len as nat, size::GIB as int)
                        + " GiB, rar5 supports files up to 4 GiB"@,
                ),
            )
        } else {
            Ok(PlannedView::File { path, name })
        },
    }
}

/// What the plan makes of a directory at `path`.
pub open spec fn planned_dir(path: Seq<char>, name: Seq<char>, seen: Inspection) -> Result<
    PlannedView,
    ErrorView,
> {
    if seen is Ok && seen->Ok_0.is_dir {
        Ok(PlannedView::Dir { path, name })
    } else {
        Err(error::invalid(path + " is not a directory"@))
    }
}

/// What the plan makes of an entry, given the base name of its path and what
/// the file system says of that path.
pub open spec fn planned(entry: EntryInput, base: Seq<char>, seen: Inspection) -> Result<
    PlannedView,
    ErrorView,
> {
    if entry.kind@ == "file"@ {
        match entry.path {
            None => Err(error::invalid("file entry missing `path`"@)),
            Some(path) => planned_file(path@, name_or(entry.name, base), seen),
        }
    } else if entry.kind@ == "dir"@ {
        match entry.path {
            None => Err(error::invalid("dir entry missing `path`"@)),
            Some(path) => planned_dir(path@, name_or(entry.name, base), seen),
        }
    } else if entry.kind@ == "bytes"@ {
        match (entry.data, entry.name) {
            (None, _) => Err(error::invalid("bytes entry missing `data`"@)),
            (Some(data), name) => if data@.len() > MAX_FILE_BYTES {
                Err(error::invalid("bytes entry exceeds 4 GiB"@))
            } else {
                match name {
                    None => Err(error::invalid("bytes entry missing `name`"@)),
                    Some(name) => Ok(PlannedView::Bytes { name: name@, data: data@ }),
                }
            },
        }
    } else {
        Err(error::invalid("unknown entry kind: "@ + entry.kind@))
    }
}

/// Plans a file.
fn plan_file(path: String, name: String, seen: &Inspection) -> (r: Result<PlannedEntry, Error>)
    ensures
        error::outcome_view(r) == planned_file(path@, name@, *seen),
{
    match seen {
        Err(why) => Err(
            Error::invalid(
                "cannot stat ".to_owned().concat(path.as_str()).concat(": ").concat(why.as_str()),
            ),
        ),
        Ok(meta) => {
            if !meta.is_file {
                Err(Error::invalid(path.concat(" is not a file")))
            } else if meta.len > MAX_FILE_BYTES {
                Err(
                    Error::invalid(
                        path.concat(" is ").concat(
                            size::size_text(meta.len, size::GIB).as_str(),
                        ).concat(" GiB, rar5 supports files up to 4 GiB"),
                    ),
                )
            } else {
                Ok(PlannedEntry::File { path, name })
            }
        },
    }
}

/// Plans a directory.
fn plan_dir(path: String, name: String, seen: &Inspection) -> (r: Result<PlannedEntry, Error>)
    ensures
        error::outcome_view(r) == planned_dir(path@, name@, *seen),
{
    let is_dir = match seen {
        Ok(meta) => meta.is_dir,
        Err(_) => false,
    };
    if is_dir {
        Ok(PlannedEntry::Dir { path, name })
    } else {
        Err(Error::invalid(path.concat(" is not a directory")))
    }
}

/// Plans an entry, given the base name of its path and what the file system
/// says of that path.
pub fn plan_entry(entry: EntryInput, base: &String, seen: &Inspection) -> (r: Result<
    PlannedEntry,
    Error,
>)
    ensures
        error::outcome_view(r) == planned(entry, base@, *seen),
{
    if text::is_text(&entry.kind, "file") {
        match entry.path {
            None => Err(Error::invalid("file entry missing `path`".to_owned())),
            Some(path) => plan_file(path, or_base(entry.name, base), seen),
        }
    } else if text::is_text(&entry.kind, "dir") {
        match entry.path {
            None => Err(Error::invalid("dir entry missing `path`".to_owned())),
            Some(path) => plan_dir(path, or_base(entry.name, base), seen),
        }
    } else if text::is_text(&entry.kind, "bytes") {
        match entry.data {
            None => Err(Error::invalid("bytes entry missing `data`".to_owned())),
            Some(data) => {
                if data.len() as u64 > MAX_FILE_BYTES {
                    return Err(Error::invalid("bytes entry exceeds 4 GiB".to_owned()));
                }
                match entry.name {
                    None => Err(Error::invalid("bytes entry missing `name`".to_owned())),
                    Some(name) => Ok(PlannedEntry::Bytes { name, data }),
                }
            },
        }
    } else {
        Err(Error::invalid("unknown entry kind: ".to_owned().concat(entry.kind.as_str())))
    }
}

/// The name that the caller gave, or else the base name.
fn or_base(name: Option<String>, base: &String) -> (r: String)
    ensures
        r@ == name_or(name, base@),
{
    match name {
        Some(given) => given,
        None => base.clone(),
    }
}

/// What the plan makes of the first `n` entries: the first error among them,
/// or all of them planned, in order.
pub open spec fn planned_first(
    entries: Seq<EntryInput>,
    bases: Seq<Seq<char>>,
    seen: Seq<Inspection>,
    n: int,
) -> Result<Seq<PlannedView>, ErrorView>
    decreases n,
{
    if n <= 0 {
        Ok(Seq::empty())
    } else {
        match planned_first(entries, bases, seen, n - 1) {
            Err(e) => Err(e),
            Ok(before) => match planned(entries[n - 1], bases[n - 1], seen[n - 1]) {
                Err(e) => Err(e),
                Ok(entry) => Ok(before.push(entry)),
            },
        }
    }
}

/// What the plan makes of the entries of a job: the first error among them, or
/// all of them planned; there must be one at least.
#[verifier::opaque]
pub open spec fn plan(
    entries: Seq<EntryInput>,
    bases: Seq<Seq<char>>,
    seen: Seq<Inspection>,
) -> Result<Seq<PlannedView>, ErrorView> {
    match planned_first(entries, bases, seen, entries.len() as int) {
        Err(e) => Err(e),
        Ok(all) => if all.len() == 0 {
            Err(error::invalid("no entries to archive"@))
        } else {
            Ok(all)
        },
    }
}

/// Where an early entry cannot be planned, no longer row of entries can.
proof fn lemma_first_error_stays(
    entries: Seq<EntryInput>,
    bases: Seq<Seq<char>>,
    seen: Seq<Inspection>,
    m: int,
    n: int,
)
    requires
        0 <= m <= n,
        planned_first(entries, bases, seen, m) is Err,
    ensures
        planned_first(entries, bases, seen, n) == planned_first(entries, bases, seen, m),
    decreases n,
{
    if m < n {
        lemma_first_error_stays(entries, bases, seen, m, n - 1);
    }
}

/// Plans the entries of a job, given the base names of their paths and what
/// the file system says of them.
pub fn plan_entries(
    entries: Vec<EntryInput>,
    bases: &Vec<String>,
    seen: &Vec<Inspection>,
) -> (r: Result<Vec<PlannedEntry>, Error>)
    requires
        bases@.len() == entries@.len(),
        seen@.len() == entries@.len(),
    ensures
        error::outcome_view(r) == plan(entries@, bases.deep_view(), seen@),
{
    reveal(plan);
    let ghost all = entries@;
    let mut made: Vec<PlannedEntry> = Vec::new();
    let mut at: usize = 0;
    assert(made.deep_view() == Seq::<PlannedView>::empty());
    for entry in it: entries.into_iter()
        invariant
            it.seq() == all,
            at == it.index(),
            bases@.len() == all.len(),
            seen@.len() == all.len(),
            planned_first(all, bases.deep_view(), seen@, at as int) == Ok::<_, ErrorView>(
                made.deep_view(),
            ),
    {
        let ghost before = made.deep_view();
        assert(entry == all[at as int] && at < bases.len());
        assert(bases.deep_view()[at as int] == bases[at as int]@);
        match plan_entry(entry, &bases[at], &seen[at]) {
            Ok(planned) => {
                made.push(planned);
                assert(made.deep_view() == before.push(planned.deep_view()));
            },
            Err(e) => {
                proof {
                    reveal(plan);
                    lemma_first_error_stays(
                        all,
                        bases.deep_view(),
                        seen@,
                        at + 1,
                        all.len() as int,
                    );
                }
                return Err(e);
            },
        }
        at = at + 1;
    }
    if made.is_empty() {
        return Err(Error::invalid("no entries to archive".to_owned()));
    }
    Ok(made)
}

/// The path that the file system is asked about before an entry is planned.
pub open spec fn asked_path(entry: EntryInput) -> Option<Seq<char>> {
    if entry.kind@ == "file"@ || entry.kind@ == "dir"@ {
        entry.path.deep_view()
    } else {
        None
    }
}

/// The paths that the file system is asked about before entries are planned.
pub open spec fn asked_paths(entries: Seq<EntryInput>) -> Seq<Option<Seq<char>>> {
    entries.map_values(|entry: EntryInput| asked_path(entry))
}

/// Lists, for each entry, the path to ask the file system about, if any.
pub fn paths_to_inspect(entries: &Vec<EntryInput>) -> (r: Vec<Option<String>>)
    ensures
        r.deep_view() == asked_paths(entries@),
{
    let mut r: Vec<Option<String>> = Vec::new();
    for at in 0..entries.len()
        invariant
            r@.len() == at,
            forall|i: int| 0 <= i < at ==> #[trigger] r@[i].deep_view() == asked_path(entries@[i]),
    {
        let entry = &entries[at];
        if text::is_text(&entry.kind, "file") || text::is_text(&entry.kind, "dir") {
            match &entry.path {
                Some(path) => r.push(Some(path.clone())),
                None => r.push(None),
            }
        } else {
            r.push(None);
        }
    }
    assert(r.deep_view() == asked_paths(entries@));
    r
}

/// Whether `bases` holds, for each entry with a path, the base name of it.
pub open spec fn are_base_names(entries: Seq<EntryInput>, bases: Seq<Seq<char>>) -> bool {
    &&& bases.len() == entries.len()
    &&& forall|i: int|
        0 <= i < entries.len() ==> match #[trigger] entries[i].path {
            Some(path) => path::is_basename(path@, bases[i]) && (path::is_portable(path@)
                ==> bases[i] == path::slash_basename(path@)),
            None => bases[i].len() == 0,
        }
}

/// The base names of the entries' paths; an empty one where there is no path.
pub fn base_names(entries: &Vec<EntryInput>) -> (r: Vec<String>)
    ensures
        are_base_names(entries@, r.deep_view()),
{
    let mut r: Vec<String> = Vec::new();
    for at in 0..entries.len()
        invariant
            r@.len() == at,
            forall|i: int|
                0 <= i < at ==> match #[trigger] entries@[i].path {
                    Some(path) => path::is_basename(path@, r@[i]@) && (path::is_portable(path@)
                        ==> r@[i]@ == path::slash_basename(path@)),
                    None => r@[i]@.len() == 0,
                },
    {
        match &entries[at].path {
            Some(path) => r.push(path::basename(path.as_str())),
            None => r.push(String::new()),
        }
    }
    r
}

/// The entries of a job are planned exactly if there are any and each of them
/// can be; the plan then holds each of them, in order.
pub proof fn law_plan_is_entry_by_entry(
    entries: Seq<EntryInput>,
    bases: Seq<Seq<char>>,
    seen: Seq<Inspection>,
)
    ensures
        plan(entries, bases, seen) is Ok <==> {
            &&& entries.len() > 0
            &&& forall|i: int|
                0 <= i < entries.len() ==> planned(#[trigger] entries[i], bases[i], seen[i]) is Ok
        },
        plan(entries, bases, seen) matches Ok(all) ==> {
            &&& all.len() == entries.len()
            &&& forall|i: int|
                0 <= i < entries.len() ==> planned(
                    entries[i],
                    bases[i],
                    seen[i],
                ) == Ok::<_, ErrorView>(#[trigger] all[i])
        },
{
    reveal(plan);
    lemma_planned_first(entries, bases, seen, entries.len() as int);
}

/// The error of a job is that of its first entry that cannot be planned.
pub proof fn law_plan_fails_on_the_first_bad_entry(
    entries: Seq<EntryInput>,
    bases: Seq<Seq<char>>,
    seen: Seq<Inspection>,
    at: int,
)
    requires
        0 <= at < entries.len(),
        forall|i: int| 0 <= i < at ==> planned(#[trigger] entries[i], bases[i], seen[i]) is Ok,
        planned(entries[at], bases[at], seen[at]) is Err,
    ensures
        plan(entries, bases, seen) == Err::<Seq<PlannedView>, _>(
            planned(entries[at], bases[at], seen[at])->Err_0,
        ),
{
    reveal(plan);
    lemma_planned_first(entries, bases, seen, at);
    lemma_first_error_stays(entries, bases, seen, at + 1, entries.len() as int);
}

/// A row of entries is planned exactly if each of them can be.
proof fn lemma_planned_first(
    entries: Seq<EntryInput>,
    bases: Seq<Seq<char>>,
    seen: Seq<Inspection>,
    n: int,
)
    requires
        0 <= n <= entries.len(),
    ensures
        planned_first(entries, bases, seen, n) is Ok <==> forall|i: int|
            0 <= i < n ==> planned(#[trigger] entries[i], bases[i], seen[i]) is Ok,
        planned_first(entries, bases, seen, n) matches Ok(all) ==> {
            &&& all.len() == n
            &&& forall|i: int|
                0 <= i < n ==> planned(entries[i], bases[i], seen[i]) == Ok::<_, ErrorView>(
                    #[trigger] all[i],
                )
        },
    decreases n,
{
    if n > 0 {
        lemma_planned_first(entries, bases, seen, n - 1);
        assert(entries[n - 1] == entries[n - 1]);
        if planned_first(entries, bases, seen, n) is Ok {
            let before = planned_first(entries, bases, seen, n - 1)->Ok_0;
            let all = planned_first(entries, bases, seen, n)->Ok_0;
            assert forall|i: int| 0 <= i < n implies planned(
                entries[i],
                bases[i],
                seen[i],
            ) == Ok::<_, ErrorView>(#[trigger] all[i]) by {
                if i < n - 1 {
                    assert(all[i] == before[i]);
                }
            }
        }
    }
}

/// No planned entry is over the limit for one file: neither a file, as it was
/// found, nor the bytes that an entry brings.
pub proof fn law_planned_entries_are_within_4_gib(
    entry: EntryInput,
    base: Seq<char>,
    seen: Inspection,
)
    ensures
        planned(entry, base, seen) matches Ok(PlannedView::File { path: _, name: _ }) ==> seen is Ok
            && seen->Ok_0.is_file && seen->Ok_0.len <= MAX_FILE_BYTES,
        planned(entry, base, seen) matches Ok(PlannedView::Bytes { name: _, data }) ==> data.len()
            <= MAX_FILE_BYTES,
        planned(entry, base, seen) matches Ok(PlannedView::Dir { path: _, name: _ }) ==> seen is Ok
            && seen->Ok_0.is_dir,
{
}

/// Whether the plan refuses an entry, blaming the caller with this reason.
pub open spec fn refused(r: Result<PlannedView, ErrorView>, reason: Seq<char>) -> bool {
    r matches Err(e) && e.status == error::Status::InvalidArg && e.reason == reason
}

/// A file entry needs a path to a file of at most 4 GiB. It keeps its path, and
/// has the name that the caller gave, or else the base name. What bytes it
/// brings does not matter.
pub proof fn law_file_entries(entry: EntryInput, base: Seq<char>, seen: Inspection)
    requires
        entry.kind@ == "file"@,
    ensures
        entry.path is None ==> refused(planned(entry, base, seen), "file entry missing `path`"@),
        entry.path matches Some(path) ==> match seen {
            Err(why) => refused(
                planned(entry, base, seen),
                "cannot stat "@ + path@ + ": "@ + why@,
            ),
            Ok(meta) => {
                &&& !meta.is_file ==> refused(
                    planned(entry, base, seen),
                    path@ + " is not a file"@,
                )
                &&& meta.is_file && meta.len > 0x1_0000_0000 ==> refused(
                    planned(entry, base, seen),
                    path@ + " is "@ + size::in_units(meta.len as nat, 0x4000_0000)
                        + " GiB, rar5 supports files up to 4 GiB"@,
                )
                &&& meta.is_file && meta.len <= 0x1_0000_0000 ==> (planned(
                    entry,
                    base,
                    seen,
                ) matches Ok(PlannedView::File { path: p, name }) && p == path@ && (
                entry.name matches Some(given) ==> name == given@) && (entry.name is None ==> name
                    == base))
            },
        },
{
}

/// A directory entry needs a path to a directory. It keeps its path, and has the
/// name that the caller gave, or else the base name.
pub proof fn law_dir_entries(entry: EntryInput, base: Seq<char>, seen: Inspection)
    requires
        entry.kind@ == "dir"@,
    ensures
        entry.path is None ==> refused(planned(entry, base, seen), "dir entry missing `path`"@),
        entry.path matches Some(path) ==> {
            let there = seen is Ok && seen->Ok_0.is_dir;
            &&& !there ==> refused(planned(entry, base, seen), path@ + " is not a directory"@)
            &&& there ==> (planned(entry, base, seen) matches Ok(
                PlannedView::Dir { path: p, name },
            ) && p == path@ && (entry.name matches Some(given) ==> name == given@) && (entry.name
                is None ==> name == base))
        },
{
    reveal_strlit("file");
    reveal_strlit("dir");
    assert("file"@.len() != "dir"@.len());
}

/// A bytes entry needs its bytes, at most 4 GiB of them, and a name; it keeps
/// both as they are. What the file system says does not matter.
pub proof fn law_bytes_entries(entry: EntryInput, base: Seq<char>, seen: Inspection)
    requires
        entry.kind@ == "bytes"@,
    ensures
        entry.data is None ==> refused(planned(entry, base, seen), "bytes entry missing `data`"@),
        entry.data matches Some(data) ==> {
            &&& data@.len() > 0x1_0000_0000 ==> refused(
                planned(entry, base, seen),
                "bytes entry exceeds 4 GiB"@,
            )
            &&& data@.len() <= 0x1_0000_0000 ==> match entry.name {
                None => refused(planned(entry, base, seen), "bytes entry missing `name`"@),
                Some(given) => planned(entry, base, seen) matches Ok(
                    PlannedView::Bytes { name, data: d },
                ) && name == given@ && d == data@,
            }
        },
{
    reveal_strlit("file");
    reveal_strlit("dir");
    reveal_strlit("bytes");
    assert("file"@.len() == 4 && "dir"@.len() == 3 && "bytes"@.len() == 5);
}

/// An entry of any other kind is refused, and so is a job without entries.
pub proof fn law_other_entries(entry: EntryInput, base: Seq<char>, seen: Inspection)
    ensures
        entry.kind@ != "file"@ && entry.kind@ != "dir"@ && entry.kind@ != "bytes"@ ==> refused(
            planned(entry, base, seen),
            "unknown entry kind: "@ + entry.kind@,
        ),
        forall|bases: Seq<Seq<char>>, looked: Seq<Inspection>|
            (#[trigger] plan(Seq::empty(), bases, looked)) matches Err(e) && e.status
                == error::Status::InvalidArg && e.reason == "no entries to archive"@,
{
    reveal(plan);
}

/// The path of each file and directory entry is asked about, in its place, and
/// no other.
pub proof fn law_paths_are_asked_about(entries: Seq<EntryInput>)
    ensures
        asked_paths(entries).len() == entries.len(),
        forall|i: int|
            0 <= i < entries.len() ==> {
                let entry = entries[i];
                let asked = #[trigger] asked_paths(entries)[i];
                let on_disk = entry.kind@ == "file"@ || entry.kind@ == "dir"@;
                &&& on_disk ==> (entry.path matches Some(path) ==> asked == Some(path@)) && (
                entry.path is None ==> asked is None)
                &&& !on_disk ==> asked is None
            },
{
}

/// A view of a planned entry hides nothing of it.
pub proof fn law_view_tells_the_planned_entry(entry: PlannedEntry)
    ensures
        match (entry, entry.deep_view()) {
            (PlannedEntry::File { path, name }, PlannedView::File { path: p, name: n }) => p
                == path@ && n == name@,
            (PlannedEntry::Dir { path, name }, PlannedView::Dir { path: p, name: n }) => p == path@
                && n == name@,
            (PlannedEntry::Bytes { name, data }, PlannedView::Bytes { name: n, data: d }) => n
                == name@ && d == data@,
            _ => false,
        },
{
}

/// Each entry with a path has a base name of that path in its place: the one
/// that slashes give where platforms agree on the path, and else one that some
/// platform gives.
pub proof fn law_base_names_stand_in_place(
    entries: Seq<EntryInput>,
    bases: Seq<Seq<char>>,
    i: int,
)
    requires
        are_base_names(entries, bases),
        0 <= i < entries.len(),
    ensures
        bases.len() == entries.len(),
        entries[i].path matches Some(path) ==> {
            &&& path::is_basename(path@, bases[i])
            &&& !path@.contains('\\') && !path@.contains(':') && !(path@.len() >= 2 && path@[0]
                == '/' && path@[1] == '/') ==> bases[i] == path::slash_basename(path@)
        },
        entries[i].path is None ==> bases[i].len() == 0,
{
    assert(entries[i].path == entries[i].path);
}

} // verus!
