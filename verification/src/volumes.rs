//! The list of files that a job produced.

use vstd::prelude::*;

use crate::text;

verus! {

/// Whether texts stand in strictly ascending order.
pub open spec fn ascending(files: Seq<Seq<char>>) -> bool {
    forall|i: int, j: int| 0 <= i < j < files.len() ==> text::stands_before(files[i], files[j])
}

/// Whether `files` lists what is among `paths`: all of it, each once, in
/// ascending order.
pub open spec fn is_file_list(paths: Seq<Seq<char>>, files: Seq<Seq<char>>) -> bool {
    &&& ascending(files)
    &&& forall|p: Seq<char>| #[trigger] files.contains(p) <==> paths.contains(p)
}

/// What is among `paths`, each once, in ascending order.
pub open spec fn file_list(paths: Seq<Seq<char>>) -> Seq<Seq<char>> {
    choose|files: Seq<Seq<char>>| is_file_list(paths, files)
}

/// No text stands before itself.
proof fn lemma_not_before_itself(a: Seq<char>)
    ensures
        !text::stands_before(a, a),
    decreases a.len(),
{
    if a.len() > 0 {
        lemma_not_before_itself(a.drop_first());
    }
}

/// Of two different texts one stands before the other.
proof fn lemma_one_stands_before(a: Seq<char>, b: Seq<char>)
    ensures
        a == b || text::stands_before(a, b) || text::stands_before(b, a),
    decreases a.len(),
{
    if a.len() > 0 && b.len() > 0 && a.first() == b.first() {
        lemma_one_stands_before(a.drop_first(), b.drop_first());
        if a.drop_first() == b.drop_first() {
            assert(a == seq![a.first()] + a.drop_first());
            assert(b == seq![b.first()] + b.drop_first());
        }
    } else if a.len() == 0 && b.len() == 0 {
        assert(a == b);
    }
}

/// The order of texts is transitive.
proof fn lemma_before_is_transitive(a: Seq<char>, b: Seq<char>, c: Seq<char>)
    requires
        text::stands_before(a, b),
        text::stands_before(b, c),
    ensures
        text::stands_before(a, c),
    decreases a.len(),
{
    if a.len() > 0 && b.len() > 0 && c.len() > 0 && a.first() == b.first() && b.first()
        == c.first() {
        lemma_before_is_transitive(a.drop_first(), b.drop_first(), c.drop_first());
    }
}

/// No two texts each stand before the other.
proof fn lemma_not_both_before(a: Seq<char>, b: Seq<char>)
    requires
        text::stands_before(a, b),
    ensures
        !text::stands_before(b, a),
{
    if text::stands_before(b, a) {
        lemma_before_is_transitive(a, b, a);
        lemma_not_before_itself(a);
    }
}

/// The texts up to any place of an ascending row that lies in another one stand
/// at the same places there.
proof fn lemma_same_row(a: Seq<Seq<char>>, b: Seq<Seq<char>>, n: int)
    requires
        ascending(a),
        ascending(b),
        forall|p: Seq<char>| #[trigger] a.contains(p) <==> b.contains(p),
        0 <= n <= a.len(),
    ensures
        n <= b.len(),
        a.take(n) == b.take(n),
    decreases n,
{
    if n > 0 {
        lemma_same_row(a, b, n - 1);
        let at = n - 1;
        let p = a[at];
        assert(a.contains(p));
        assert(b.contains(p));
        let k = choose|k: int| 0 <= k < b.len() && b[k] == p;
        if k < at {
            assert(a.take(at)[k] == b.take(at)[k]);
            lemma_not_before_itself(p);
        }
        assert(at < b.len());
        let q = b[at];
        assert(b.contains(q));
        assert(a.contains(q));
        let m = choose|m: int| 0 <= m < a.len() && a[m] == q;
        if m < at {
            assert(a.take(at)[m] == b.take(at)[m]);
            lemma_not_before_itself(q);
        }
        if m > at && k > at {
            lemma_not_both_before(p, q);
        }
        assert(p == q);
        assert(a.take(n) == a.take(at).push(p));
        assert(b.take(n) == b.take(at).push(q));
    }
}

/// There is one list of given paths only.
pub proof fn law_one_file_list(paths: Seq<Seq<char>>, files: Seq<Seq<char>>)
    requires
        is_file_list(paths, files),
    ensures
        files == file_list(paths),
{
    let other = file_list(paths);
    assert forall|p: Seq<char>| #[trigger] files.contains(p) <==> other.contains(p) by {
        assert(files.contains(p) <==> paths.contains(p));
        assert(other.contains(p) <==> paths.contains(p));
    }
    assert forall|p: Seq<char>| #[trigger] other.contains(p) <==> files.contains(p) by {}
    lemma_same_row(files, other, files.len() as int);
    lemma_same_row(other, files, other.len() as int);
    assert(files.take(files.len() as int) == files);
    assert(other.take(other.len() as int) == other);
}

/// A text put into an ascending row, after what stands before it and before
/// the rest, leaves it ascending and adds nothing else.
proof fn lemma_put_in(files: Seq<Seq<char>>, at: int, p: Seq<char>)
    requires
        ascending(files),
        0 <= at <= files.len(),
        at > 0 ==> text::stands_before(files[at - 1], p),
        at < files.len() ==> text::stands_before(p, files[at]),
    ensures
        ascending(files.insert(at, p)),
        forall|q: Seq<char>| #[trigger]
            files.insert(at, p).contains(q) <==> files.contains(q) || q == p,
{
    let r = files.insert(at, p);
    assert forall|i: int, j: int| 0 <= i < j < r.len() implies text::stands_before(r[i], r[j]) by {
        if i < at && j == at && i < at - 1 {
            lemma_before_is_transitive(files[i], files[at - 1], p);
        } else if i == at && j > at + 1 {
            lemma_before_is_transitive(p, files[at], files[j - 1]);
        }
    }
    assert forall|q: Seq<char>| #[trigger] r.contains(q) <==> files.contains(q) || q == p by {
        if files.contains(q) {
            let k = choose|k: int| 0 <= k < files.len() && files[k] == q;
            assert(r[if k < at {
                k
            } else {
                k + 1
            }] == q);
        }
        if q == p {
            assert(r[at] == q);
        }
        if r.contains(q) {
            let k = choose|k: int| 0 <= k < r.len() && r[k] == q;
            if k < at {
                assert(files[k] == q);
            } else if k > at {
                assert(files[k - 1] == q);
            }
        }
    }
}

/// A text that is not in an ascending row has a place there: a text from
/// `end` on stands after it.
proof fn lemma_place(files: Seq<Seq<char>>, p: Seq<char>, end: int) -> (at: int)
    requires
        ascending(files),
        !files.contains(p),
        0 <= end <= files.len(),
        end < files.len() ==> text::stands_before(p, files[end]),
    ensures
        0 <= at <= files.len(),
        at > 0 ==> text::stands_before(files[at - 1], p),
        at < files.len() ==> text::stands_before(p, files[at]),
    decreases end,
{
    if end == 0 {
        0
    } else {
        assert(files.contains(files[end - 1]));
        lemma_one_stands_before(files[end - 1], p);
        if text::stands_before(files[end - 1], p) {
            end
        } else {
            lemma_place(files, p, end - 1)
        }
    }
}

/// Any paths can be listed: what is among them, each once, in ascending order.
pub proof fn law_paths_can_be_listed(paths: Seq<Seq<char>>)
    ensures
        is_file_list(paths, file_list(paths)),
    decreases paths.len(),
{
    if paths.len() == 0 {
        let none = Seq::<Seq<char>>::empty();
        assert(is_file_list(paths, none));
    } else {
        let before = paths.drop_last();
        let p = paths.last();
        law_paths_can_be_listed(before);
        let files = file_list(before);
        assert forall|q: Seq<char>| #[trigger] paths.contains(q) <==> before.contains(q) || q
            == p by {
            if paths.contains(q) && q != p {
                let k = choose|k: int| 0 <= k < paths.len() && paths[k] == q;
                assert(before[k] == q);
            }
            if before.contains(q) {
                let k = choose|k: int| 0 <= k < before.len() && before[k] == q;
                assert(paths[k] == q);
            }
            assert(paths[paths.len() - 1] == p);
        }
        if files.contains(p) {
            assert forall|q: Seq<char>| #[trigger] files.contains(q) <==> paths.contains(q) by {
                assert(files.contains(q) <==> before.contains(q));
            }
            assert(is_file_list(paths, files));
        } else {
            let at = lemma_place(files, p, files.len() as int);
            lemma_put_in(files, at, p);
            let more = files.insert(at, p);
            assert forall|q: Seq<char>| #[trigger] more.contains(q) <==> paths.contains(q) by {
                assert(files.contains(q) <==> before.contains(q));
            }
            assert(is_file_list(paths, more));
        }
    }
}

/// Puts a path into an ascending list, unless it is there.
fn put_in(files: &mut Vec<String>, path: String)
    requires
        ascending(old(files).deep_view()),
    ensures
        ascending(final(files).deep_view()),
        forall|q: Seq<char>| #[trigger]
            final(files).deep_view().contains(q) <==> old(files).deep_view().contains(q) || q
                == path@,
{
    let ghost before = files.deep_view();
    let mut at: usize = files.len();
    while at > 0 && text::is_before(path.as_str(), files[at - 1].as_str())
        invariant
            at <= files@.len(),
            before == files.deep_view(),
            at < files@.len() ==> text::stands_before(path@, before[at as int]),
        decreases at,
    {
        at = at - 1;
    }
    if at > 0 && files[at - 1] == path {
        assert(before[at - 1] == path@);
    } else {
        proof {
            if at > 0 {
                lemma_one_stands_before(before[at - 1], path@);
            }
            lemma_put_in(before, at as int, path@);
        }
        files.insert(at, path);
        assert(files.deep_view() == before.insert(at as int, path@));
    }
}

/// Lists what is among `paths`, each once, in ascending order.
pub fn list_files(paths: Vec<String>) -> (r: Vec<String>)
    ensures
        is_file_list(paths.deep_view(), r.deep_view()),
        r.deep_view() == file_list(paths.deep_view()),
{
    let ghost all = paths.deep_view();
    let mut r: Vec<String> = Vec::new();
    assert(r.deep_view() == Seq::<Seq<char>>::empty());
    for path in it: paths.into_iter()
        invariant
            it.seq() == paths@,
            all == paths.deep_view(),
            ascending(r.deep_view()),
            forall|p: Seq<char>| #[trigger]
                r.deep_view().contains(p) <==> all.take(it.index() as int).contains(p),
    {
        let ghost n = it.index() as int;
        let ghost before = r.deep_view();
        assert(path@ == all[n]);
        put_in(&mut r, path);
        assert forall|p: Seq<char>| #[trigger] r.deep_view().contains(p) <==> all.take(
            n + 1,
        ).contains(p) by {
            assert(all.take(n + 1) == all.take(n).push(all[n]));
            assert(before.contains(p) <==> all.take(n).contains(p));
            if all.take(n).contains(p) {
                let k = choose|k: int| 0 <= k < n && all.take(n)[k] == p;
                assert(all.take(n + 1)[k] == p);
            }
            if p == all[n] {
                assert(all.take(n + 1)[n] == p);
            }
        }
    }
    assert(all.take(all.len() as int) == all);
    proof {
        law_one_file_list(all, r.deep_view());
    }
    r
}

/// The list of files holds a path exactly if it is among those found, and each
/// path in it stands before any later one: at the first character in which they
/// differ it has the lesser one, or it ends there.
pub proof fn law_file_lists_are_sorted_and_whole(
    paths: Seq<Seq<char>>,
    p: Seq<char>,
    i: int,
    j: int,
)
    ensures
        file_list(paths).contains(p) <==> paths.contains(p),
        0 <= i < j < file_list(paths).len() ==> exists|k: int|
            {
                &&& 0 <= k <= file_list(paths)[i].len() && k < file_list(paths)[j].len()
                &&& #[trigger] file_list(paths)[i].take(k) == file_list(paths)[j].take(k)
                &&& k == file_list(paths)[i].len() || file_list(paths)[i][k]
                    < file_list(paths)[j][k]
            },
{
    law_paths_can_be_listed(paths);
    let files = file_list(paths);
    assert(files.contains(p) <==> paths.contains(p));
    if 0 <= i < j < files.len() {
        text::law_texts_stand_in_order(files[i], files[j]);
    }
}

} // verus!
