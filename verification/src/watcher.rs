//! The build watcher's bookkeeping: which project configurations have a
//! compiler running, and what a fresh scan of the directory changes.
//!
//! The caller walks the directory and owns the compiler processes. After
//! each scan it hands the configuration files it found to
//! [`WatchList::reconcile`], starts a compiler for every path in the plan's
//! `start`, and stops the one of every path in its `stop`.

use vstd::prelude::*;

verus! {

/// How long the watcher sleeps between two scans, in milliseconds.
pub const RESCAN_INTERVAL_MS: u64 = 30000;

/// The paths of a list of strings, as sequences of characters.
pub open spec fn paths_of(list: Seq<String>) -> Seq<Seq<char>> {
    Seq::new(list.len(), |i: int| list[i]@)
}

/// The found paths that are not watched yet, each once, in the order in
/// which the scan first met them.
pub open spec fn fresh(watched: Seq<Seq<char>>, found: Seq<Seq<char>>) -> Seq<Seq<char>>
    decreases found.len(),
{
    if found.len() == 0 {
        Seq::empty()
    } else {
        let before = fresh(watched, found.drop_last());
        let path = found.last();
        if watched.contains(path) || before.contains(path) {
            before
        } else {
            before.push(path)
        }
    }
}

/// The watched paths that the scan found again, in their order.
pub open spec fn kept(watched: Seq<Seq<char>>, found: Seq<Seq<char>>) -> Seq<Seq<char>> {
    watched.filter(|path: Seq<char>| found.contains(path))
}

/// The watched paths that the scan did not find, in their order.
pub open spec fn gone(watched: Seq<Seq<char>>, found: Seq<Seq<char>>) -> Seq<Seq<char>> {
    watched.filter(|path: Seq<char>| !found.contains(path))
}

/// The watched paths after a scan: those kept, then those newly found.
pub open spec fn reconciled(watched: Seq<Seq<char>>, found: Seq<Seq<char>>) -> Seq<Seq<char>> {
    kept(watched, found) + fresh(watched, found)
}

/// Looking at one more watched path extends `kept` and `gone` by that path
/// or leaves them as they are.
proof fn lemma_watched_step(watched: Seq<Seq<char>>, found: Seq<Seq<char>>, i: int)
    requires
        0 <= i < watched.len(),
    ensures
        kept(watched.take(i + 1), found) == if found.contains(watched[i]) {
            kept(watched.take(i), found).push(watched[i])
        } else {
            kept(watched.take(i), found)
        },
        gone(watched.take(i + 1), found) == if found.contains(watched[i]) {
            gone(watched.take(i), found)
        } else {
            gone(watched.take(i), found).push(watched[i])
        },
{
    reveal(Seq::filter);
    assert(watched.take(i + 1).drop_last() =~= watched.take(i));
}

/// Looking at one more found path extends `fresh` by that path if it is
/// neither watched nor met before.
proof fn lemma_found_step(watched: Seq<Seq<char>>, found: Seq<Seq<char>>, i: int)
    requires
        0 <= i < found.len(),
    ensures
        fresh(watched, found.take(i + 1)) == if watched.contains(found[i]) || fresh(
            watched,
            found.take(i),
        ).contains(found[i]) {
            fresh(watched, found.take(i))
        } else {
            fresh(watched, found.take(i)).push(found[i])
        },
{
    assert(found.take(i + 1).drop_last() =~= found.take(i));
}

/// What `kept` and `gone` hold: exactly the watched paths that were, and
/// were not, found; and neither repeats a path if the watched paths did
/// not.
pub proof fn lemma_kept_and_gone(watched: Seq<Seq<char>>, found: Seq<Seq<char>>)
    ensures
        forall|path: Seq<char>| #[trigger]
            kept(watched, found).contains(path) <==> watched.contains(path) && found.contains(
                path,
            ),
        forall|path: Seq<char>| #[trigger]
            gone(watched, found).contains(path) <==> watched.contains(path) && !found.contains(
                path,
            ),
        watched.no_duplicates() ==> kept(watched, found).no_duplicates() && gone(
            watched,
            found,
        ).no_duplicates(),
    decreases watched.len(),
{
    reveal(Seq::filter);
    if watched.len() > 0 {
        let rest = watched.drop_last();
        let last = watched.last();
        lemma_kept_and_gone(rest, found);
        assert(watched =~= rest.push(last));
        assert forall|path: Seq<char>| #[trigger]
            kept(watched, found).contains(path) <==> watched.contains(path) && found.contains(
                path,
            ) by {
            lemma_push_contains(rest, last, path);
            lemma_push_contains(kept(rest, found), last, path);
        }
        assert forall|path: Seq<char>| #[trigger]
            gone(watched, found).contains(path) <==> watched.contains(path) && !found.contains(
                path,
            ) by {
            lemma_push_contains(rest, last, path);
            lemma_push_contains(gone(rest, found), last, path);
        }
        if watched.no_duplicates() {
            assert(rest.no_duplicates());
            assert(!rest.contains(last)) by {
                if rest.contains(last) {
                    let k = choose|k: int| 0 <= k < rest.len() && rest[k] == last;
                    assert(watched[k] == watched[watched.len() - 1]);
                }
            }
            lemma_push_no_duplicates(kept(rest, found), last);
            lemma_push_no_duplicates(gone(rest, found), last);
        }
    }
}

/// An element is in `s.push(x)` exactly if it is in `s` or is `x`.
proof fn lemma_push_contains<A>(s: Seq<A>, x: A, e: A)
    ensures
        s.push(x).contains(e) <==> s.contains(e) || e == x,
{
    if s.push(x).contains(e) {
        let k = choose|k: int| 0 <= k < s.push(x).len() && s.push(x)[k] == e;
        if k < s.len() {
            assert(s[k] == e);
        }
    }
    if s.contains(e) {
        let k = choose|k: int| 0 <= k < s.len() && s[k] == e;
        assert(s.push(x)[k] == e);
    }
    if e == x {
        assert(s.push(x)[s.len() as int] == e);
    }
}

/// Pushing an element that a duplicate-free sequence lacks keeps it
/// duplicate-free.
proof fn lemma_push_no_duplicates<A>(s: Seq<A>, x: A)
    requires
        s.no_duplicates(),
        !s.contains(x),
    ensures
        s.push(x).no_duplicates(),
{
    assert forall|i: int, j: int|
        0 <= i < s.push(x).len() && 0 <= j < s.push(x).len() && i != j implies s.push(x)[i]
        != s.push(x)[j] by {
        if i < s.len() && j < s.len() {
        } else if i < s.len() {
            assert(s.contains(s[i]));
        } else {
            assert(s.contains(s[j]));
        }
    }
}

/// What `fresh` holds: exactly the found paths that are not watched, and
/// each of them once.
pub proof fn lemma_fresh(watched: Seq<Seq<char>>, found: Seq<Seq<char>>)
    ensures
        forall|path: Seq<char>| #[trigger]
            fresh(watched, found).contains(path) <==> found.contains(path) && !watched.contains(
                path,
            ),
        fresh(watched, found).no_duplicates(),
    decreases found.len(),
{
    if found.len() > 0 {
        let rest = found.drop_last();
        let last = found.last();
        lemma_fresh(watched, rest);
        assert(found =~= rest.push(last));
        let before = fresh(watched, rest);
        assert forall|path: Seq<char>| #[trigger]
            fresh(watched, found).contains(path) <==> found.contains(path) && !watched.contains(
                path,
            ) by {
            lemma_push_contains(rest, last, path);
            lemma_push_contains(before, last, path);
        }
        if !(watched.contains(last) || before.contains(last)) {
            lemma_push_no_duplicates(before, last);
        }
    }
}

/// After a scan the watch list holds exactly the paths that the scan
/// found, none of them twice.
pub proof fn law_reconciled_is_what_was_found(watched: Seq<Seq<char>>, found: Seq<Seq<char>>)
    requires
        watched.no_duplicates(),
    ensures
        forall|path: Seq<char>| #[trigger]
            reconciled(watched, found).contains(path) <==> found.contains(path),
        reconciled(watched, found).no_duplicates(),
{
    lemma_kept_and_gone(watched, found);
    lemma_fresh(watched, found);
    let k = kept(watched, found);
    let f = fresh(watched, found);
    assert forall|path: Seq<char>| #[trigger] (k + f).contains(path) <==> found.contains(
        path,
    ) by {
        lemma_add_contains(k, f, path);
    }
    assert forall|i: int, j: int| 0 <= i < k.len() && 0 <= j < f.len() implies k[i] != f[j] by {
        assert(k.contains(k[i]));
        assert(f.contains(f[j]));
    }
    vstd::seq_lib::lemma_no_dup_in_concat(k, f);
}

/// A scan settles the list: the same scan again starts nothing, stops
/// nothing and leaves the list as it is.
pub proof fn law_reconcile_settles(watched: Seq<Seq<char>>, found: Seq<Seq<char>>)
    requires
        watched.no_duplicates(),
    ensures
        fresh(reconciled(watched, found), found) == Seq::<Seq<char>>::empty(),
        gone(reconciled(watched, found), found) == Seq::<Seq<char>>::empty(),
        reconciled(reconciled(watched, found), found) == reconciled(watched, found),
{
    let settled = reconciled(watched, found);
    law_reconciled_is_what_was_found(watched, found);
    lemma_fresh(settled, found);
    lemma_kept_and_gone(settled, found);
    assert(fresh(settled, found) =~= Seq::<Seq<char>>::empty()) by {
        if fresh(settled, found).len() > 0 {
            assert(fresh(settled, found).contains(fresh(settled, found)[0]));
        }
    }
    assert(gone(settled, found) =~= Seq::<Seq<char>>::empty()) by {
        if gone(settled, found).len() > 0 {
            assert(gone(settled, found).contains(gone(settled, found)[0]));
        }
    }
    lemma_kept_all(settled, found);
    assert(kept(settled, found) + Seq::<Seq<char>>::empty() =~= settled);
}

/// Where the scan found every watched path, all of them are kept.
proof fn lemma_kept_all(watched: Seq<Seq<char>>, found: Seq<Seq<char>>)
    requires
        forall|path: Seq<char>| #[trigger] watched.contains(path) ==> found.contains(path),
    ensures
        kept(watched, found) == watched,
    decreases watched.len(),
{
    reveal(Seq::filter);
    if watched.len() > 0 {
        let rest = watched.drop_last();
        assert forall|path: Seq<char>| #[trigger] rest.contains(path) implies found.contains(
            path,
        ) by {
            let k = choose|k: int| 0 <= k < rest.len() && rest[k] == path;
            assert(watched[k] == path);
            assert(watched.contains(path));
        }
        lemma_kept_all(rest, found);
        assert(watched.contains(watched.last())) by {
            assert(watched[watched.len() - 1] == watched.last());
        }
        assert(watched =~= rest.push(watched.last()));
    }
}

/// An element is in `a + b` exactly if it is in `a` or in `b`.
proof fn lemma_add_contains<A>(a: Seq<A>, b: Seq<A>, e: A)
    ensures
        (a + b).contains(e) <==> a.contains(e) || b.contains(e),
{
    if (a + b).contains(e) {
        let k = choose|k: int| 0 <= k < (a + b).len() && (a + b)[k] == e;
        if k < a.len() {
            assert(a[k] == e);
        } else {
            assert(b[k - a.len()] == e);
        }
    }
    if a.contains(e) {
        let k = choose|k: int| 0 <= k < a.len() && a[k] == e;
        assert((a + b)[k] == e);
    }
    if b.contains(e) {
        let k = choose|k: int| 0 <= k < b.len() && b[k] == e;
        assert((a + b)[a.len() + k] == e);
    }
}

/// What a scan asks of the caller.
#[derive(Debug, PartialEq, Eq)]
pub struct Plan {
    /// The configurations to start a compiler for.
    pub start: Vec<String>,
    /// The configurations whose compiler is to be stopped.
    pub stop: Vec<String>,
}

/// The configurations that have a compiler running, in the order in which
/// the compilers were started.
pub struct WatchList {
    paths: Vec<String>,
}

impl View for WatchList {
    type V = Seq<Seq<char>>;

    closed spec fn view(&self) -> Seq<Seq<char>> {
        paths_of(self.paths@)
    }
}

/// Whether `path` occurs in `list`.
fn contains_path(list: &Vec<String>, path: &String) -> (b: bool)
    ensures
        b == paths_of(list@).contains(path@),
{
    let mut i: usize = 0;
    while i < list.len()
        invariant
            i <= list.len(),
            forall|j: int| 0 <= j < i ==> list@[j]@ != path@,
        decreases list.len() - i,
    {
        if list[i] == *path {
            assert(paths_of(list@)[i as int] == path@);
            return true;
        }
        i += 1;
    }
    false
}

/// Whether a file of this name is a project configuration.
pub fn is_project_config(file_name: &String) -> (b: bool)
    ensures
        b == (file_name@ == "tsconfig.json"@),
{
    let wanted = "tsconfig.json".to_string();
    *file_name == wanted
}

impl WatchList {
    /// No configuration is watched twice.
    pub closed spec fn wf(&self) -> bool {
        self@.no_duplicates()
    }

    /// A list that watches nothing.
    pub fn new() -> (list: Self)
        ensures
            list.wf(),
            list@ == Seq::<Seq<char>>::empty(),
    {
        let list = WatchList { paths: Vec::new() };
        assert(list@ =~= Seq::<Seq<char>>::empty());
        list
    }

    /// The watched configurations, in the order in which they were started.
    pub fn paths(&self) -> (paths: &Vec<String>)
        ensures
            paths_of(paths@) == self@,
    {
        &self.paths
    }

    /// Brings the list in line with what a scan found.
    ///
    /// The plan starts every found path that was not watched, once, in the
    /// order of the scan, and stops every watched path that was not found.
    /// The list then holds the paths it kept, followed by the new ones.
    pub fn reconcile(&mut self, found: &Vec<String>) -> (plan: Plan)
        requires
            old(self).wf(),
        ensures
            final(self).wf(),
            paths_of(plan.start@) == fresh(old(self)@, paths_of(found@)),
            paths_of(plan.stop@) == gone(old(self)@, paths_of(found@)),
            final(self)@ == reconciled(old(self)@, paths_of(found@)),
    {
        let ghost watched = self@;
        let ghost seen = paths_of(found@);
        let mut start: Vec<String> = Vec::new();
        let mut i: usize = 0;
        assert(paths_of(start@) =~= fresh(watched, seen.take(0)));
        while i < found.len()
            invariant
                i <= found.len(),
                watched == paths_of(self.paths@),
                seen == paths_of(found@),
                paths_of(start@) == fresh(watched, seen.take(i as int)),
            decreases found.len() - i,
        {
            proof {
                lemma_found_step(watched, seen, i as int);
            }
            if !contains_path(&self.paths, &found[i]) && !contains_path(&start, &found[i]) {
                let path = found[i].clone();
                assert(paths_of(start@.push(path)) =~= paths_of(start@).push(path@));
                start.push(path);
            }
            i += 1;
        }
        assert(seen.take(found.len() as int) =~= seen);

        let mut keep: Vec<String> = Vec::new();
        let mut stop: Vec<String> = Vec::new();
        let mut j: usize = 0;
        proof {
            reveal(Seq::filter);
            assert(paths_of(keep@) =~= kept(watched.take(0), seen));
            assert(paths_of(stop@) =~= gone(watched.take(0), seen));
        }
        while j < self.paths.len()
            invariant
                j <= self.paths.len(),
                watched == paths_of(self.paths@),
                seen == paths_of(found@),
                paths_of(keep@) == kept(watched.take(j as int), seen),
                paths_of(stop@) == gone(watched.take(j as int), seen),
            decreases self.paths.len() - j,
        {
            proof {
                lemma_watched_step(watched, seen, j as int);
            }
            let path = self.paths[j].clone();
            if contains_path(found, &path) {
                assert(paths_of(keep@.push(path)) =~= paths_of(keep@).push(path@));
                keep.push(path);
            } else {
                assert(paths_of(stop@.push(path)) =~= paths_of(stop@).push(path@));
                stop.push(path);
            }
            j += 1;
        }
        assert(watched.take(self.paths.len() as int) =~= watched);

        let mut k: usize = 0;
        assert(paths_of(keep@) =~= kept(watched, seen) + paths_of(start@).take(0));
        while k < start.len()
            invariant
                k <= start.len(),
                paths_of(keep@) == kept(watched, seen) + paths_of(start@).take(k as int),
            decreases start.len() - k,
        {
            let path = start[k].clone();
            proof {
                let news = paths_of(start@);
                assert(paths_of(keep@.push(path)) =~= paths_of(keep@).push(path@));
                assert(news.take(k as int + 1) =~= news.take(k as int).push(news[k as int]));
                assert(paths_of(keep@).push(path@) =~= kept(watched, seen) + news.take(
                    k as int + 1,
                ));
            }
            keep.push(path);
            k += 1;
        }
        assert(paths_of(start@).take(start.len() as int) =~= paths_of(start@));
        self.paths = keep;
        proof {
            law_reconciled_is_what_was_found(watched, seen);
        }
        Plan { start, stop }
    }
}

} // verus!
