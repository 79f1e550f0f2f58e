use vstd::prelude::*;
use vstd::string::StringExecFns;

use crate::action::tokens_of;
use crate::detect::is_git_repo;

verus! {

/// One filesystem object met by the directory walk.
#[derive(Debug)]
pub struct DirEntry {
    pub path: String,
    pub is_dir: bool,
}

/// The outcome of running the command in one repository.
#[derive(Debug)]
pub struct Outcome {
    pub path: String,
    pub result: Result<(), String>,
}

/// An entry is dispatched when it is a directory whose marker was found.
pub open spec fn selected(e: DirEntry, marker: bool) -> bool {
    e.is_dir && marker
}

/// The paths of the selected entries among the first `k`, in walk order.
pub open spec fn repos_prefix(entries: Seq<DirEntry>, markers: Seq<bool>, k: int) -> Seq<
    Seq<char>,
>
    decreases k,
{
    if k <= 0 {
        Seq::empty()
    } else {
        let rest = repos_prefix(entries, markers, k - 1);
        if selected(entries[k - 1], markers[k - 1]) {
            rest.push(entries[k - 1].path@)
        } else {
            rest
        }
    }
}

/// The number of selected entries among the first `k`.
pub open spec fn selected_count(entries: Seq<DirEntry>, markers: Seq<bool>, k: int) -> nat
    decreases k,
{
    if k <= 0 {
        0
    } else {
        selected_count(entries, markers, k - 1) + if selected(entries[k - 1], markers[k - 1]) {
            1nat
        } else {
            0nat
        }
    }
}

/// The repository paths of a walk, where `markers[i]` tells whether the marker
/// of `entries[i]` was found.
pub open spec fn repositories(entries: Seq<DirEntry>, markers: Seq<bool>) -> Seq<Seq<char>> {
    repos_prefix(entries, markers, entries.len() as int)
}

/// The paths of the walked entries that are directories with a marker, in walk order.
pub fn select_repositories(entries: &Vec<DirEntry>, markers: &Vec<bool>) -> (r: Vec<String>)
    requires
        markers@.len() == entries@.len(),
    ensures
        tokens_of(r@) == repositories(entries@, markers@),
{
    let mut r: Vec<String> = Vec::new();
    let mut i: usize = 0;
    while i < entries.len()
        invariant
            0 <= i <= entries@.len(),
            markers@.len() == entries@.len(),
            tokens_of(r@) == repos_prefix(entries@, markers@, i as int),
        decreases entries@.len() - i,
    {
        let ghost before = r@;
        if entries[i].is_dir && markers[i] {
            let p = entries[i].path.clone();
            r.push(p);
            proof {
                assert(tokens_of(r@) =~= tokens_of(before).push(entries@[i as int].path@));
            }
        }
        i += 1;
    }
    r
}

/// For each walked entry, whether it is a directory with a repository marker.
pub fn detect_markers(entries: &Vec<DirEntry>) -> (r: Vec<bool>)
    ensures
        r@.len() == entries@.len(),
        forall|j: int| 0 <= j < r@.len() && #[trigger] r@[j] ==> entries@[j].is_dir,
{
    let mut r: Vec<bool> = Vec::new();
    let mut i: usize = 0;
    while i < entries.len()
        invariant
            0 <= i <= entries@.len(),
            r@.len() == i,
            forall|j: int| 0 <= j < r@.len() && #[trigger] r@[j] ==> entries@[j].is_dir,
        decreases entries@.len() - i,
    {
        let found = entries[i].is_dir && is_git_repo(entries[i].path.as_str());
        r.push(found);
        i += 1;
    }
    r
}

/// The repositories among the walked entries: each directory is tested for its
/// marker once, and those that have one are kept in walk order.
pub fn repository_paths(entries: &Vec<DirEntry>) -> (r: Vec<String>)
    ensures
        exists|m: Seq<bool>|
            m.len() == entries@.len() && (forall|j: int| 0 <= j < m.len() && #[trigger] m[j]
                ==> entries@[j].is_dir) && tokens_of(r@) == #[trigger] repositories(entries@, m),
{
    let markers = detect_markers(entries);
    select_repositories(entries, &markers)
}

/// `outs` is what dispatching `action` over `repos` gives: one outcome per
/// repository, in order, each what `action` returned for that path.
pub open spec fn dispatched<F: Fn(&str) -> Result<(), String>>(
    action: F,
    repos: Seq<String>,
    outs: Seq<Outcome>,
) -> bool {
    &&& outs.len() == repos.len()
    &&& forall|i: int| 0 <= i < outs.len() ==> #[trigger] visited(action, repos[i]@, outs[i])
}

/// `o` is the outcome of applying `action` to the repository at `path`.
pub open spec fn visited<F: Fn(&str) -> Result<(), String>>(
    action: F,
    path: Seq<char>,
    o: Outcome,
) -> bool {
    &&& o.path@ == path
    &&& exists|p: &str| p@ == path && #[trigger] action.ensures((p,), o.result)
}

/// Applies `action` to the repository at `path` and keys its result by the path.
pub fn visit(path: &str, action: &impl Fn(&str) -> Result<(), String>) -> (o: Outcome)
    requires
        action.requires((path,)),
    ensures
        visited(*action, path@, o),
{
    let result = action(path);
    Outcome { path: String::from_str(path), result }
}

/// Applies `action` to every repository of `repos` in turn. A failure in one
/// repository is recorded and the others still run.
pub fn dispatch(repos: &Vec<String>, action: &impl Fn(&str) -> Result<(), String>) -> (r: Vec<
    Outcome,
>)
    requires
        forall|p: &str| #[trigger] action.requires((p,)),
    ensures
        dispatched(*action, repos@, r@),
{
    let mut r: Vec<Outcome> = Vec::new();
    let mut i: usize = 0;
    while i < repos.len()
        invariant
            0 <= i <= repos@.len(),
            r@.len() == i,
            forall|p: &str| #[trigger] action.requires((p,)),
            forall|j: int| 0 <= j < i ==> #[trigger] visited(*action, repos@[j]@, r@[j]),
        decreases repos@.len() - i,
    {
        let o = visit(repos[i].as_str(), action);
        r.push(o);
        i += 1;
    }
    r
}

/// The number of failed outcomes among the first `k` of `outs`.
pub open spec fn failures(outs: Seq<Outcome>, k: int) -> nat
    decreases k,
{
    if k <= 0 {
        0
    } else {
        failures(outs, k - 1) + if outs[k - 1].result is Err {
            1nat
        } else {
            0nat
        }
    }
}

/// How many repositories of a run failed; zero exactly when all succeeded.
pub fn failure_count(outs: &Vec<Outcome>) -> (r: usize)
    ensures
        r == failures(outs@, outs@.len() as int),
        r == 0 <==> forall|i: int| 0 <= i < outs@.len() ==> (#[trigger] outs@[i]).result is Ok,
{
    let mut n: usize = 0;
    let mut i: usize = 0;
    while i < outs.len()
        invariant
            0 <= i <= outs@.len(),
            n == failures(outs@, i as int),
            n <= i,
            n == 0 <==> forall|j: int| 0 <= j < i ==> (#[trigger] outs@[j]).result is Ok,
        decreases outs@.len() - i,
    {
        if outs[i].result.is_err() {
            n += 1;
        }
        i += 1;
    }
    n
}

/// The line that announces work on the repository at `path`.
pub fn announce_line(path: &str) -> (r: String)
    ensures
        r@ == "Processing Git repository: "@ + path@,
{
    let mut r = String::from_str("Processing Git repository: ");
    r.append(path);
    r
}

/// The line that reports the failure `err` of the repository at `path`.
pub fn error_line(path: &str, err: &str) -> (r: String)
    ensures
        r@ == "Error processing "@ + path@ + ": "@ + err@,
{
    let mut r = String::from_str("Error processing ");
    r.append(path);
    r.append(": ");
    r.append(err);
    r
}

/// `p` is the path of a selected entry among the first `k`.
pub open spec fn is_selected_path(entries: Seq<DirEntry>, markers: Seq<bool>, k: int, p: Seq<char>) -> bool {
    exists|i: int| 0 <= i < k && #[trigger] selected(entries[i], markers[i]) && entries[i].path@ == p
}

/// A walk yields exactly one repository path per directory with a marker, in
/// walk order: every path comes from such an entry, every such entry's path
/// is there, and entries without a marker or that are no directory add none.
pub proof fn lemma_repository_count(entries: Seq<DirEntry>, markers: Seq<bool>, k: int)
    requires
        0 <= k <= entries.len(),
        markers.len() == entries.len(),
    ensures
        repos_prefix(entries, markers, k).len() == selected_count(entries, markers, k),
        selected_count(entries, markers, k) <= k,
        forall|j: int|
            0 <= j < repos_prefix(entries, markers, k).len() ==> is_selected_path(
                entries,
                markers,
                k,
                #[trigger] repos_prefix(entries, markers, k)[j],
            ),
        forall|i: int|
            0 <= i < k && #[trigger] selected(entries[i], markers[i]) ==> repos_prefix(
                entries,
                markers,
                k,
            ).contains(entries[i].path@),
    decreases k,
{
    if k > 0 {
        lemma_repository_count(entries, markers, k - 1);
        let rest = repos_prefix(entries, markers, k - 1);
        let all = repos_prefix(entries, markers, k);
        assert forall|j: int| 0 <= j < all.len() implies is_selected_path(
            entries,
            markers,
            k,
            #[trigger] all[j],
        ) by {
            if j < rest.len() {
                assert(is_selected_path(entries, markers, k - 1, rest[j]));
                let i = choose|i: int|
                    0 <= i < k - 1 && #[trigger] selected(entries[i], markers[i])
                        && entries[i].path@ == rest[j];
                assert(all[j] == rest[j]);
                assert(selected(entries[i], markers[i]));
            } else {
                assert(all[j] == entries[k - 1].path@);
                assert(selected(entries[k - 1], markers[k - 1]));
            }
        }
        assert forall|i: int| 0 <= i < k && #[trigger] selected(entries[i], markers[i]) implies all.contains(
            entries[i].path@,
        ) by {
            if i < k - 1 {
                let w = choose|w: int| 0 <= w < rest.len() && rest[w] == entries[i].path@;
                assert(all[w] == rest[w]);
            } else {
                assert(all[all.len() - 1] == entries[i].path@);
            }
        }
    } else {
        assert(repos_prefix(entries, markers, k).len() == 0);
    }
}

/// The root of the walk, met first, is dispatched like any other directory when
/// it carries a marker: it heads the repository paths.
pub proof fn lemma_root_repository_first(entries: Seq<DirEntry>, markers: Seq<bool>)
    requires
        entries.len() > 0,
        markers.len() == entries.len(),
        selected(entries[0], markers[0]),
    ensures
        repositories(entries, markers).len() >= 1,
        repositories(entries, markers)[0] == entries[0].path@,
{
    lemma_root_prefix(entries, markers, entries.len() as int);
}

proof fn lemma_root_prefix(entries: Seq<DirEntry>, markers: Seq<bool>, k: int)
    requires
        1 <= k <= entries.len(),
        markers.len() == entries.len(),
        selected(entries[0], markers[0]),
    ensures
        repos_prefix(entries, markers, k).len() >= 1,
        repos_prefix(entries, markers, k)[0] == entries[0].path@,
    decreases k,
{
    if k > 1 {
        lemma_root_prefix(entries, markers, k - 1);
        let rest = repos_prefix(entries, markers, k - 1);
        if selected(entries[k - 1], markers[k - 1]) {
            assert(repos_prefix(entries, markers, k)[0] == rest[0]);
        }
    } else {
        assert(repos_prefix(entries, markers, 0).len() == 0);
    }
}

/// Failures are isolated: when `action` fails only in the repository at index
/// `bad`, every other repository of the run still succeeds, and the run still
/// yields one outcome per repository.
pub proof fn lemma_dispatch_isolation<F: Fn(&str) -> Result<(), String>>(
    action: F,
    repos: Seq<String>,
    outs: Seq<Outcome>,
    bad: int,
)
    requires
        dispatched(action, repos, outs),
        forall|p: &str, r: Result<(), String>|
            p@ != repos[bad]@ && #[trigger] action.ensures((p,), r) ==> r is Ok,
    ensures
        outs.len() == repos.len(),
        forall|i: int|
            0 <= i < outs.len() && repos[i]@ != repos[bad]@ ==> (#[trigger] outs[i]).result is Ok,
{
    assert forall|i: int|
        0 <= i < outs.len() && repos[i]@ != repos[bad]@ implies (#[trigger] outs[i]).result is Ok by {
        assert(visited(action, repos[i]@, outs[i]));
    }
}

/// Dispatching twice over the same walk with an action whose success depends on
/// the path alone gives the same number of outcomes and the same pattern of
/// successes and failures.
pub proof fn lemma_dispatch_repeatable<F: Fn(&str) -> Result<(), String>>(
    action: F,
    entries: Seq<DirEntry>,
    markers: Seq<bool>,
    repos1: Seq<String>,
    repos2: Seq<String>,
    outs1: Seq<Outcome>,
    outs2: Seq<Outcome>,
)
    requires
        tokens_of(repos1) == repositories(entries, markers),
        tokens_of(repos2) == repositories(entries, markers),
        dispatched(action, repos1, outs1),
        dispatched(action, repos2, outs2),
        forall|p: &str, q: &str, r: Result<(), String>, s: Result<(), String>|
            p@ == q@ && #[trigger] action.ensures((p,), r) && #[trigger] action.ensures((q,), s)
                ==> (r is Ok <==> s is Ok),
    ensures
        outs1.len() == outs2.len(),
        forall|i: int|
            0 <= i < outs1.len() ==> ((#[trigger] outs1[i]).result is Ok <==> outs2[i].result is Ok),
{
    assert(repos1.len() == tokens_of(repos1).len());
    assert(repos2.len() == tokens_of(repos2).len());
    assert forall|i: int| 0 <= i < outs1.len() implies ((#[trigger] outs1[i]).result is Ok
        <==> outs2[i].result is Ok) by {
        assert(tokens_of(repos1)[i] == repos1[i]@);
        assert(tokens_of(repos2)[i] == repos2[i]@);
        assert(visited(action, repos1[i]@, outs1[i]));
        assert(visited(action, repos2[i]@, outs2[i]));
    }
}

} // verus!
