//! File names and parent directories of paths.
//!
//! How a path falls into parts is up to the platform. On Unix a slash parts
//! them. On Windows a backslash does too, and a drive letter with its colon, a
//! network share or a device may stand before them. Both readings are stated
//! here; on paths that are called portable they agree.

use vstd::prelude::*;

verus! {

/// `path` without the slashes, and the parts `.`, that it ends with; a lone
/// `/` or `.` stays.
pub open spec fn without_tail(path: Seq<char>) -> Seq<char>
    decreases path.len(),
{
    let n = path.len() as int;
    if n > 1 && (path[n - 1] == '/' || (path[n - 1] == '.' && path[n - 2] == '/')) {
        without_tail(path.drop_last())
    } else {
        path
    }
}

/// What follows the last slash of `path`.
pub open spec fn after_last_slash(path: Seq<char>) -> Seq<char>
    decreases path.len(),
{
    if path.len() == 0 || path.last() == '/' {
        Seq::empty()
    } else {
        after_last_slash(path.drop_last()).push(path.last())
    }
}

/// The file name of `path` where slashes part it: its last part, unless that is
/// missing, `.` or `..`.
pub open spec fn slash_name(path: Seq<char>) -> Option<Seq<char>> {
    let last = after_last_slash(without_tail(path));
    if last == Seq::<char>::empty() || last == seq!['.'] || last == seq!['.', '.'] {
        None
    } else {
        Some(last)
    }
}

/// The parent directory of `path` where slashes part it: the path without its
/// last part, unless nothing but a root, or nothing at all, is there.
pub open spec fn slash_parent(path: Seq<char>) -> Option<Seq<char>> {
    let whole = without_tail(path);
    let last = after_last_slash(whole);
    if last.len() == 0 {
        None
    } else {
        Some(without_tail(whole.take(whole.len() - last.len())))
    }
}

/// Whether `c` is one of the ASCII letters.
pub open spec fn is_letter(c: char) -> bool {
    'a' <= c <= 'z' || 'A' <= c <= 'Z'
}

/// The length of the drive that `path` starts with: a letter and a colon, or
/// nothing.
pub open spec fn drive_len(path: Seq<char>) -> int {
    if path.len() >= 2 && is_letter(path[0]) && path[1] == ':' {
        2
    } else {
        0
    }
}

/// `path` with a slash for each backslash.
pub open spec fn as_slashes(path: Seq<char>) -> Seq<char> {
    path.map_values(
        |c: char|
            if c == '\\' {
                '/'
            } else {
                c
            },
    )
}

/// The file name of `path` where slashes and backslashes part what follows its
/// drive.
pub open spec fn drive_name(path: Seq<char>) -> Option<Seq<char>> {
    slash_name(as_slashes(path.skip(drive_len(path))))
}

/// The parent directory of `path` where slashes and backslashes part what
/// follows its drive. The drive stays, and so do the backslashes. A drive with
/// nothing after it but a root, or parts `.`, has no parent.
pub open spec fn drive_parent(path: Seq<char>) -> Option<Seq<char>> {
    let rest = as_slashes(path.skip(drive_len(path)));
    if drive_len(path) > 0 && without_tail(rest) == seq!['.'] {
        None
    } else {
        match slash_parent(rest) {
            Some(parent) => Some(path.take(drive_len(path) + parent.len())),
            None => None,
        }
    }
}

/// Whether `c` is a slash or a backslash.
pub open spec fn is_separator(c: char) -> bool {
    c == '/' || c == '\\'
}

/// Whether `path` starts with two slashes or backslashes, as the paths of
/// network shares and devices do on Windows.
pub open spec fn starts_with_two_separators(path: Seq<char>) -> bool {
    path.len() >= 2 && is_separator(path[0]) && is_separator(path[1])
}

/// Whether Unix and Windows read `path` alike: it holds no backslash and no
/// colon, and does not start with two slashes.
pub open spec fn is_portable(path: Seq<char>) -> bool {
    &&& !path.contains('\\')
    &&& !path.contains(':')
    &&& !(path.len() >= 2 && path[0] == '/' && path[1] == '/')
}

/// Whether `path` starts with two separators, a question mark and a separator.
/// With backslashes, such a path is verbatim on Windows: slashes do not part it,
/// and a part `.` stays.
pub open spec fn is_verbatim(path: Seq<char>) -> bool {
    starts_with_two_separators(path) && path.len() >= 4 && path[2] == '?' && is_separator(path[3])
}

/// How many parts slashes part `path` into, empty ones aside.
pub open spec fn part_count(path: Seq<char>) -> nat
    decreases path.len(),
{
    let n = path.len() as int;
    if n == 0 {
        0
    } else if path[n - 1] != '/' && (n == 1 || path[n - 2] == '/') {
        part_count(path.drop_last()) + 1
    } else {
        part_count(path.drop_last())
    }
}

/// Whether `path`, less its tail, has two parts at most, so that on Windows it
/// may be nothing but a network share or a device.
pub open spec fn may_be_all_prefix(path: Seq<char>) -> bool {
    part_count(without_tail(as_slashes(path))) <= 2
}

/// `path` with slashes and backslashes in each other's place.
pub open spec fn turned(path: Seq<char>) -> Seq<char> {
    path.map_values(
        |c: char|
            if c == '\\' {
                '/'
            } else if c == '/' {
                '\\'
            } else {
                c
            },
    )
}

/// The file name of `path` where backslashes alone part it.
pub open spec fn backslash_name(path: Seq<char>) -> Option<Seq<char>> {
    match slash_name(turned(path)) {
        Some(name) => Some(turned(name)),
        None => None,
    }
}

/// Whether `part` is a stretch of `path`.
pub open spec fn is_stretch(part: Seq<char>, path: Seq<char>) -> bool {
    exists|i: int| 0 <= i <= path.len() - part.len() && part == #[trigger] path.subrange(
        i,
        i + part.len(),
    )
}

/// Whether `name` may be the file name of `path` on Windows. Where the path does
/// not start with two separators, it is. Where it does, a name is the last part
/// by slashes and backslashes; there is one, unless that part is missing, `.`
/// or `..`, or the path may be nothing but a share or a device. A verbatim path
/// may have no name, or one by backslashes alone.
pub open spec fn is_windows_name(path: Seq<char>, name: Option<Seq<char>>) -> bool {
    if is_verbatim(path) {
        name is None || name == slash_name(as_slashes(path)) || name == backslash_name(path)
    } else if starts_with_two_separators(path) {
        name == slash_name(as_slashes(path)) || (name is None && may_be_all_prefix(path))
    } else {
        name == drive_name(path)
    }
}

/// Whether `name` may be the file name of `path`: it is, as Unix or as Windows
/// reads the path.
pub open spec fn is_name(path: Seq<char>, name: Option<Seq<char>>) -> bool {
    name == slash_name(path) || is_windows_name(path, name)
}

/// Calls `std::path::Path::file_name`: the final component of `path`, if it is
/// an ordinary one.
///
/// Believed: on Unix it is read off the path with slashes as separators; on
/// Windows with slashes and backslashes, after a drive letter with its colon.
/// Where a path starts with two separators, Windows may take its first two parts
/// for a share or a device, which has no name; and after `\\?\` it may read
/// backslashes alone as separators, and find no name. Not said: which of the
/// readings it is, which the platform decides, and when such a path is nothing
/// but a share or a device.
#[verifier::external_body]
fn file_name(path: &str) -> (r: Option<String>)
    ensures
        is_name(path@, r.deep_view()),
{
    match std::path::Path::new(path).file_name() {
        Some(name) => Some(name.to_string_lossy().into_owned()),
        None => None,
    }
}

/// Whether `parent` may be the parent directory of `path` on Windows. Where the
/// path does not start with two separators, it is. Where it does, a parent is
/// what the path starts with, and less its tail the path without its last part;
/// there is one, unless that part is missing, or the path may be nothing but a
/// share or a device. Of a verbatim path a parent is what the path starts with,
/// and shorter.
pub open spec fn is_windows_parent(path: Seq<char>, parent: Option<Seq<char>>) -> bool {
    if starts_with_two_separators(path) {
        match parent {
            Some(p) => {
                &&& p.len() < path.len()
                &&& p.is_prefix_of(path)
                &&& is_verbatim(path) || slash_parent(as_slashes(path)) == Some(
                    without_tail(as_slashes(p)),
                )
            },
            None => is_verbatim(path) || may_be_all_prefix(path) || slash_parent(
                as_slashes(path),
            ) is None,
        }
    } else {
        parent == drive_parent(path)
    }
}

/// Whether `parent` may be the parent directory of `path`: it is, as Unix or as
/// Windows reads the path.
pub open spec fn is_parent(path: Seq<char>, parent: Option<Seq<char>>) -> bool {
    parent == slash_parent(path) || is_windows_parent(path, parent)
}

/// Calls `std::path::Path::parent`: `path` without its final component.
///
/// Believed: on Unix it is read off the path with slashes as separators; on
/// Windows with slashes and backslashes, after a drive letter with its colon,
/// which the parent keeps. A drive with nothing after it but a root, or parts
/// `.`, has none. Where a path starts with two separators, Windows may take its
/// first two parts for a share or a device, which has no parent and whose root
/// keeps its separator; and of a path after `\\?\` it is believed only that
/// the parent is what the path starts with, and shorter. Not said: which of the
/// readings it is, which the platform decides, when such a path is nothing but a
/// share or a device, and whether a parent there ends with a separator.
#[verifier::external_body]
pub(crate) fn parent_dir(path: &str) -> (r: Option<String>)
    ensures
        is_parent(path@, r.deep_view()),
{
    match std::path::Path::new(path).parent() {
        Some(parent) => Some(parent.to_string_lossy().into_owned()),
        None => None,
    }
}

/// The name that was found, or nothing.
pub open spec fn name_or_nothing(found: Option<Seq<char>>) -> Seq<char> {
    match found {
        Some(name) => name,
        None => Seq::empty(),
    }
}

/// The base name of `path` where slashes part it: its file name, or nothing.
pub open spec fn slash_basename(path: Seq<char>) -> Seq<char> {
    name_or_nothing(slash_name(path))
}

/// Whether `name` may be the base name of `path` on Windows: the file name that
/// the path may have there, or nothing.
pub open spec fn is_windows_basename(path: Seq<char>, name: Seq<char>) -> bool {
    if is_verbatim(path) {
        ||| name.len() == 0
        ||| name == slash_basename(as_slashes(path))
        ||| name == name_or_nothing(backslash_name(path))
    } else if starts_with_two_separators(path) {
        name == slash_basename(as_slashes(path)) || (name.len() == 0 && may_be_all_prefix(path))
    } else {
        name == name_or_nothing(drive_name(path))
    }
}

/// Whether `name` may be the base name of `path`: it is, as Unix or as Windows
/// reads the path.
pub open spec fn is_basename(path: Seq<char>, name: Seq<char>) -> bool {
    name == slash_basename(path) || is_windows_basename(path, name)
}

/// The file name that was found, or an empty one.
pub fn name_or_empty(found: Option<String>) -> (r: String)
    ensures
        r@ == name_or_nothing(found.deep_view()),
{
    match found {
        Some(name) => name,
        None => String::new(),
    }
}

/// The last part of `path`, or an empty text where it has none.
pub fn basename(path: &str) -> (r: String)
    ensures
        is_basename(path@, r@),
        is_portable(path@) ==> r@ == slash_basename(path@),
{
    let r = name_or_empty(file_name(path));
    proof {
        if is_portable(path@) {
            law_portable_paths_have_one_reading(path@, r@, None);
        }
    }
    r
}

/// What follows the last slash holds no slash, and the path ends with it.
proof fn lemma_after_last_slash(path: Seq<char>)
    ensures
        !after_last_slash(path).contains('/'),
        after_last_slash(path).len() <= path.len(),
        after_last_slash(path) == path.skip(path.len() - after_last_slash(path).len()),
    decreases path.len(),
{
    if path.len() > 0 && path.last() != '/' {
        lemma_after_last_slash(path.drop_last());
        let rest = after_last_slash(path.drop_last());
        assert forall|i: int| 0 <= i < rest.len() + 1 implies #[trigger] rest.push(
            path.last(),
        )[i] != '/' by {
            if i < rest.len() {
                assert(rest.contains(rest[i]));
            }
        }
    }
}

/// What follows the last slash of `dir/name` is `name`, where that holds none.
proof fn lemma_after_joining_slash(dir: Seq<char>, name: Seq<char>)
    requires
        !name.contains('/'),
    ensures
        after_last_slash(dir.push('/') + name) == name,
    decreases name.len(),
{
    let path = dir.push('/') + name;
    if name.len() == 0 {
        assert(path == dir.push('/'));
    } else {
        let body = name.drop_last();
        assert(path.drop_last() == dir.push('/') + body);
        assert(name.contains(name.last()));
        assert forall|i: int| 0 <= i < body.len() implies body[i] != '/' by {
            assert(name.contains(name[i]));
        }
        lemma_after_joining_slash(dir, body);
        assert(body.push(name.last()) == name);
    }
}

/// A file name: not empty, without a slash, and neither `.` nor `..`.
pub open spec fn is_plain_name(name: Seq<char>) -> bool {
    &&& name.len() > 0
    &&& !name.contains('/')
    &&& name != seq!['.']
    &&& name != seq!['.', '.']
}

/// Where slashes part a path, its base name is a plain file name, or empty just
/// where the path has no file name; it holds no slash, and is its own base
/// name. That holds of any path.
pub proof fn law_slash_basename_is_its_own(path: Seq<char>)
    ensures
        slash_basename(path).len() == 0 <==> slash_name(path) is None,
        slash_basename(path).len() > 0 ==> is_plain_name(slash_basename(path)),
        !slash_basename(path).contains('/'),
        slash_basename(slash_basename(path)) == slash_basename(path),
{
    let name = slash_basename(path);
    lemma_after_last_slash(without_tail(path));
    if name.len() > 0 {
        law_basename_of_plain(name);
    } else {
        assert(name == Seq::<char>::empty());
    }
}

/// A file name where slashes and backslashes part a path is plain, holds no
/// backslash, and is a stretch of the path.
proof fn lemma_name_by_both(path: Seq<char>)
    ensures
        slash_name(as_slashes(path)) matches Some(name) ==> {
            &&& is_plain_name(name)
            &&& !name.contains('\\')
            &&& is_stretch(name, path)
        },
{
    let read = as_slashes(path);
    law_slash_basename_is_its_own(read);
    if let Some(name) = slash_name(read) {
        assert(name == slash_basename(read));
        lemma_name_in_path(read);
        let at = choose|i: int| 0 <= i <= read.len() - name.len() && name == #[trigger]
            read.subrange(i, i + name.len());
        let there = path.subrange(at, at + name.len());
        assert forall|k: int| 0 <= k < name.len() implies name[k] == #[trigger] there[k] && name[k]
            != '\\' by {
            assert(name[k] == read[at + k]);
            assert(name.contains(name[k]));
        }
        assert(name == there);
    }
}

/// A file name where backslashes alone part a path is a stretch of it.
proof fn lemma_name_by_backslashes(path: Seq<char>)
    ensures
        backslash_name(path) matches Some(name) ==> name.len() > 0 && is_stretch(name, path),
{
    let read = turned(path);
    law_slash_basename_is_its_own(read);
    if let Some(found) = slash_name(read) {
        assert(found == slash_basename(read));
        lemma_name_in_path(read);
        let at = choose|i: int| 0 <= i <= read.len() - found.len() && found == #[trigger]
            read.subrange(i, i + found.len());
        let name = turned(found);
        let there = path.subrange(at, at + name.len());
        assert forall|k: int| 0 <= k < name.len() implies name[k] == #[trigger] there[k] by {
            assert(found[k] == read[at + k]);
        }
        assert(name == there);
    }
}

/// Where slashes and backslashes part what follows the drive of a path, its
/// file name, if it has one, is plain and holds no backslash.
pub proof fn law_drive_name_is_plain(path: Seq<char>)
    ensures
        drive_name(path) matches Some(name) ==> is_plain_name(name) && !name.contains('\\'),
{
    lemma_name_by_both(path.skip(drive_len(path)));
}

/// A file name where slashes part a path is a stretch of it.
proof fn lemma_name_in_path(path: Seq<char>)
    ensures
        slash_name(path) matches Some(name) ==> is_stretch(name, path),
{
    let whole = without_tail(path);
    let last = after_last_slash(whole);
    lemma_without_tail(path);
    lemma_after_last_slash(whole);
    let at = whole.len() - last.len();
    assert(last == path.subrange(at, at + last.len()));
}

/// What is left of a path without its tail is what the path starts with.
proof fn lemma_without_tail(path: Seq<char>)
    ensures
        without_tail(path).len() <= path.len(),
        without_tail(path) == path.take(without_tail(path).len() as int),
    decreases path.len(),
{
    let n = path.len() as int;
    if n > 1 && (path[n - 1] == '/' || (path[n - 1] == '.' && path[n - 2] == '/')) {
        lemma_without_tail(path.drop_last());
    } else {
        assert(path.take(n) == path);
    }
}

/// A parent where slashes part a path is what the path starts with, and
/// shorter.
proof fn lemma_parent_in_path(path: Seq<char>)
    ensures
        slash_parent(path) matches Some(parent) ==> parent.len() < path.len() && parent
            == path.take(parent.len() as int),
{
    let whole = without_tail(path);
    let last = after_last_slash(whole);
    let start = whole.take(whole.len() - last.len());
    lemma_without_tail(path);
    lemma_after_last_slash(whole);
    lemma_without_tail(start);
    let n = without_tail(start).len() as int;
    if last.len() > 0 {
        assert(start.take(n) == path.take(n));
    }
}

/// On any platform a base name is empty or a stretch of its path.
pub proof fn law_basename_is_a_stretch(path: Seq<char>, name: Seq<char>)
    requires
        is_basename(path, name),
    ensures
        name.len() > 0 ==> is_stretch(name, path),
{
    lemma_name_in_path(path);
    lemma_name_by_both(path);
    lemma_name_by_backslashes(path);
    let skipped = drive_len(path);
    let rest = path.skip(skipped);
    lemma_name_by_both(rest);
    if name.len() > 0 && Some(name) == drive_name(path) {
        let at = choose|i: int| 0 <= i <= rest.len() - name.len() && name == #[trigger]
            rest.subrange(i, i + name.len());
        assert(name == path.subrange(skipped + at, skipped + at + name.len()));
    }
}

/// On any platform a base name holds no slash, and is its own base name if it
/// holds no colon and no backslash either. Verbatim paths are left out: by
/// backslashes alone, a name may hold a slash.
pub proof fn law_basename_is_its_own(path: Seq<char>, name: Seq<char>, again: Seq<char>)
    requires
        !is_verbatim(path),
        is_basename(path, name),
    ensures
        !name.contains('/'),
        !name.contains(':') && !name.contains('\\') ==> (is_basename(name, again) <==> again
            == name),
{
    law_slash_basename_is_its_own(path);
    lemma_name_by_both(path);
    law_drive_name_is_plain(path);
    if !name.contains(':') && !name.contains('\\') {
        if name.len() > 0 {
            assert(is_plain_name(name));
            law_basename_of_plain(name);
            assert(name.contains(name[0]));
        } else {
            assert(name == Seq::<char>::empty());
        }
        law_portable_paths_have_one_reading(name, again, None);
    }
}

/// On any platform a parent directory is what its path starts with, and
/// shorter.
pub proof fn law_parent_starts_the_path(path: Seq<char>, parent: Option<Seq<char>>)
    requires
        is_parent(path, parent),
    ensures
        parent matches Some(p) ==> p.len() < path.len() && p.is_prefix_of(path),
{
    lemma_parent_in_path(path);
    lemma_parent_in_path(as_slashes(path.skip(drive_len(path))));
}

/// Unix and Windows read a portable path alike, so that it has one base name
/// and one parent.
pub proof fn law_portable_paths_have_one_reading(
    path: Seq<char>,
    name: Seq<char>,
    parent: Option<Seq<char>>,
)
    requires
        is_portable(path),
    ensures
        is_basename(path, name) <==> name == slash_basename(path),
        is_parent(path, parent) <==> parent == slash_parent(path),
{
    assert forall|i: int| 0 <= i < path.len() implies path[i] != '\\' && path[i] != ':' by {
        assert(path.contains(path[i]));
    }
    assert(drive_len(path) == 0);
    assert(path.skip(0) == path);
    assert(as_slashes(path) == path);
    assert(!starts_with_two_separators(path));
    lemma_parent_in_path(path);
    assert(drive_parent(path) == slash_parent(path));
}

/// A drive, a directory and a plain name in it, joined by backslashes, come
/// apart again on Windows.
pub proof fn law_drive_paths_come_apart(letter: char, dir: Seq<char>, name: Seq<char>)
    requires
        is_letter(letter),
        is_plain_name(name),
        !name.contains('\\'),
        dir.len() > 0,
        dir.last() != '/' && dir.last() != '\\' && dir.last() != '.',
    ensures
        drive_name(seq![letter, ':'] + dir.push('\\') + name) == Some(name),
        drive_parent(seq![letter, ':'] + dir.push('\\') + name) == Some(
            seq![letter, ':'] + dir,
        ),
{
    let path = seq![letter, ':'] + dir.push('\\') + name;
    let rest = path.skip(2);
    let read = as_slashes(dir);
    assert(rest == dir.push('\\') + name);
    assert forall|i: int| 0 <= i < name.len() implies name[i] != '\\' by {
        assert(name.contains(name[i]));
    }
    assert(as_slashes(rest) == read.push('/') + name);
    law_basename_of_joined(read, name);
    let n = read.len() as int;
    assert(read.last() == dir.last());
    assert(read.push('/').drop_last() == read);
    assert(without_tail(read.push('/')) == without_tail(read));
    assert(path.take(2 + n) == seq![letter, ':'] + dir);
}

/// A plain name in a directory is the base name of the path that joins them,
/// and the directory, less its tail, is the parent.
pub proof fn law_basename_of_joined(dir: Seq<char>, name: Seq<char>)
    requires
        is_plain_name(name),
    ensures
        slash_basename(dir.push('/') + name) == name,
        slash_parent(dir.push('/') + name) == Some(without_tail(dir.push('/'))),
{
    let path = dir.push('/') + name;
    let n = path.len() as int;
    assert(path[n - 1] == name.last());
    assert(name.contains(name.last()));
    if name.last() == '.' && name.len() == 1 {
        assert(name == seq!['.']);
    }
    if name.len() > 1 {
        assert(path[n - 2] == name[name.len() - 2]);
        assert(name.contains(name[name.len() - 2]));
    }
    assert(without_tail(path) == path);
    lemma_after_joining_slash(dir, name);
    assert(path.take(n - name.len()) == dir.push('/'));
}

/// A plain name without a directory is its own base name; its parent is the
/// empty path.
pub proof fn law_basename_of_plain(name: Seq<char>)
    requires
        is_plain_name(name),
    ensures
        slash_basename(name) == name,
        slash_parent(name) == Some(Seq::<char>::empty()),
{
    let n = name.len() as int;
    assert(name.contains(name[n - 1]));
    if n > 1 {
        assert(name.contains(name[n - 2]));
    }
    assert(without_tail(name) == name);
    lemma_after_last_slash(name);
    lemma_plain_after_last_slash(name);
    assert(name.take(0) == Seq::<char>::empty());
}

/// What follows the last slash of a text without one is all of it.
proof fn lemma_plain_after_last_slash(name: Seq<char>)
    requires
        !name.contains('/'),
    ensures
        after_last_slash(name) == name,
    decreases name.len(),
{
    if name.len() > 0 {
        assert(name.contains(name.last()));
        let body = name.drop_last();
        assert forall|i: int| 0 <= i < body.len() implies body[i] != '/' by {
            assert(name.contains(name[i]));
        }
        lemma_plain_after_last_slash(body);
        assert(body.push(name.last()) == name);
    }
}

/// Slashes and parts `.` at the end of a path do not matter, neither to its
/// base name nor to its parent.
pub proof fn law_tails_do_not_matter(path: Seq<char>)
    requires
        path.len() > 0,
    ensures
        slash_basename(path.push('/')) == slash_basename(path),
        slash_parent(path.push('/')) == slash_parent(path),
        slash_basename(path.push('/').push('.')) == slash_basename(path),
        slash_parent(path.push('/').push('.')) == slash_parent(path),
{
    assert(path.push('/').drop_last() == path);
    assert(path.push('/').push('.').drop_last() == path.push('/'));
    assert(without_tail(path.push('/')) == without_tail(path));
    assert(without_tail(path.push('/').push('.')) == without_tail(path.push('/')));
}

/// The empty path and the root have neither a base name nor a parent. The parts
/// `.` and `..` have no base name; the parent of `.`, and of `..` in a
/// directory, is what stands before it.
pub proof fn law_dots_have_no_name(dir: Seq<char>)
    ensures
        slash_name(Seq::empty()) is None && slash_parent(Seq::empty()) is None,
        slash_name(seq!['/']) is None && slash_parent(seq!['/']) is None,
        slash_name(seq!['.']) is None && slash_parent(seq!['.']) == Some(Seq::<char>::empty()),
        slash_name(seq!['.', '.']) is None && slash_parent(seq!['.', '.']) == Some(
            Seq::<char>::empty(),
        ),
        slash_name(dir + seq!['/', '.', '.']) is None,
        slash_parent(dir + seq!['/', '.', '.']) == Some(without_tail(dir.push('/'))),
{
    reveal_with_fuel(after_last_slash, 4);
    let dot = seq!['.'];
    let dots = seq!['.', '.'];
    assert(dot.drop_last() == Seq::<char>::empty());
    assert(after_last_slash(dot) == dot);
    assert(dot.take(0) == Seq::<char>::empty());
    assert(dots.drop_last() == dot);
    assert(after_last_slash(dots) == dots);
    assert(dots.take(0) == Seq::<char>::empty());
    let up = dir + seq!['/', '.', '.'];
    assert(up == dir.push('/') + dots);
    lemma_after_joining_slash(dir, dots);
    assert(without_tail(up) == up);
    assert(up.take(up.len() - 2) == dir.push('/'));
}

/// With the drive taken off, slashes and backslashes read alike on Windows, and
/// a path without a drive or a backslash reads as it does on Unix.
pub proof fn law_backslashes_read_as_slashes(letter: char, rest: Seq<char>)
    requires
        is_letter(letter),
    ensures
        drive_name(seq![letter, ':'] + rest) == drive_name(seq![letter, ':'] + as_slashes(rest)),
        !rest.contains('\\') ==> drive_name(seq![letter, ':'] + rest) == slash_name(rest),
        forall|i: int|
            0 <= i < rest.len() ==> #[trigger] as_slashes(rest)[i] == (if rest[i] == '\\' {
                '/'
            } else {
                rest[i]
            }),
        as_slashes(rest).len() == rest.len(),
{
    let drive = seq![letter, ':'];
    assert((drive + rest).skip(2) == rest);
    assert((drive + as_slashes(rest)).skip(2) == as_slashes(rest));
    assert(as_slashes(as_slashes(rest)) == as_slashes(rest));
    if !rest.contains('\\') {
        assert forall|i: int| 0 <= i < rest.len() implies rest[i] != '\\' by {
            assert(rest.contains(rest[i]));
        }
        assert(as_slashes(rest) == rest);
    }
}

/// A path that does not start with two separators has one of two base names and
/// one of two parents: those that slashes give, or those that slashes and
/// backslashes give after the drive. One that does has the last part by either
/// for a base name, unless it has two parts at most or is verbatim.
pub proof fn law_paths_have_two_readings(
    path: Seq<char>,
    name: Seq<char>,
    parent: Option<Seq<char>>,
)
    requires
        is_basename(path, name),
        is_parent(path, parent),
    ensures
        !starts_with_two_separators(path) ==> {
            &&& name == slash_basename(path) || Some(name) == drive_name(path) || (name.len() == 0
                && drive_name(path) is None)
            &&& parent == slash_parent(path) || parent == drive_parent(path)
        },
        starts_with_two_separators(path) && !is_verbatim(path) && part_count(
            without_tail(as_slashes(path)),
        ) > 2 ==> name == slash_basename(path) || name == slash_basename(as_slashes(path)),
{
}

/// A path without its tail is the path less the slashes, and the parts `.`
/// behind them, that it ends with; one that ends otherwise, or is a single
/// character, is left as it is.
pub proof fn law_tails_are_slashes_and_dots(path: Seq<char>)
    ensures
        path.len() > 0 ==> without_tail(path.push('/')) == without_tail(path),
        path.len() > 0 ==> without_tail(path.push('/').push('.')) == without_tail(path),
        path.len() <= 1 ==> without_tail(path) == path,
        path.len() > 1 && path.last() != '/' && !(path.last() == '.' && path[path.len() - 2]
            == '/') ==> without_tail(path) == path,
{
    assert(path.push('/').drop_last() == path);
    assert(path.push('/').push('.').drop_last() == path.push('/'));
    if path.len() > 0 {
        assert(without_tail(path.push('/')) == without_tail(path));
        assert(without_tail(path.push('/').push('.')) == without_tail(path.push('/')));
    }
}

} // verus!
