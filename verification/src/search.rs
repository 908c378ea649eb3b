//! First-match search over the entries that directory walks report.
//!
//! A search goes through its scopes in order. In each scope the entries
//! whose name qualifies are picked out, in walk order; the disk is asked
//! about each of them; the first one that the disk confirms wins. Picking
//! out and choosing are pure and stated exactly; walking and asking are the
//! only steps that touch the disk.

use vstd::prelude::*;
use crate::disk::{
    all_under,
    list_directory,
    path_exists,
    path_is_dir,
    path_is_file,
    starts_at,
    walk_tree,
};
use crate::names::{file_name, has_file_name, icon_file_name, is_icon_file_name};

verus! {

/// What a search looks for.
#[derive(Clone, Copy, Debug, PartialEq, Eq, Structural)]
pub enum Target {
    /// A directory whose file name is the wanted name.
    Directory,
    /// A regular file named as an icon file for the wanted name.
    IconFile,
}

/// A question asked of the disk about a path.
#[derive(Clone, Copy, Debug, PartialEq, Eq, Structural)]
pub enum Probe {
    /// Does the path exist?
    Exists,
    /// Is it a directory?
    Directory,
    /// Is it a regular file?
    RegularFile,
}

/// How the entries of a scope are gathered.
#[derive(Clone, Copy, Debug, PartialEq, Eq, Structural)]
pub enum Walk {
    /// The whole tree under the directory, depth first, without descending
    /// through symbolic links.
    Tree,
    /// The whole tree under the directory, depth first, symbolic links
    /// followed.
    TreeThroughLinks,
    /// The entries of the directory itself, without descending.
    Entries,
}

/// A directory that a search looks through, and how.
#[derive(Clone, Debug)]
pub struct SearchScope {
    /// The directory.
    pub dir: String,
    /// How its entries are gathered.
    pub walk: Walk,
}

/// What one scope showed during a search: the directory and the walk of the
/// scope, the entries that the walk reported, and, for each of them that is
/// named for the target, whether the disk confirmed it.
pub struct Sight {
    pub scope: (Seq<char>, Walk),
    pub entries: Seq<Option<Seq<char>>>,
    pub confirmed: Seq<bool>,
}

/// The scopes as pairs of directory and walk.
pub open spec fn plan_of(scopes: Seq<SearchScope>) -> Seq<(Seq<char>, Walk)> {
    Seq::new(scopes.len(), |i: int| (scopes[i].dir@, scopes[i].walk))
}

/// Whether `path` is named as the target called `name` must be.
pub open spec fn named_for(target: Target, name: Seq<char>, path: Seq<char>) -> bool {
    match target {
        Target::Directory => file_name(path) == name,
        Target::IconFile => icon_file_name(path, name),
    }
}

/// The entries that were read and are named as the target called `name` must
/// be, in the order of `entries`.
pub open spec fn candidates(
    entries: Seq<Option<Seq<char>>>,
    target: Target,
    name: Seq<char>,
) -> Seq<Seq<char>>
    decreases entries.len(),
{
    if entries.len() == 0 {
        Seq::empty()
    } else {
        let init = candidates(entries.drop_last(), target, name);
        match entries.last() {
            Some(path) => if named_for(target, name, path) {
                init.push(path)
            } else {
                init
            },
            None => init,
        }
    }
}

/// The first of `paths` whose flag is set.
pub open spec fn first_flagged(paths: Seq<Seq<char>>, flags: Seq<bool>) -> Option<Seq<char>> {
    match flags.index_of_first(true) {
        Some(i) => if i < paths.len() {
            Some(paths[i])
        } else {
            None
        },
        None => None,
    }
}

/// The match that one scope yields: its first entry, in walk order, that is
/// named for the target and that the disk confirms.
pub open spec fn found_in(sight: Sight, target: Target, name: Seq<char>) -> Option<Seq<char>> {
    first_flagged(candidates(sight.entries, target, name), sight.confirmed)
}

/// The match that a sequence of scopes yields: that of the first scope that
/// yields one.
pub open spec fn found(sights: Seq<Sight>, target: Target, name: Seq<char>) -> Option<Seq<char>>
    decreases sights.len(),
{
    if sights.len() == 0 {
        None
    } else {
        match found(sights.drop_last(), target, name) {
            Some(p) => Some(p),
            None => found_in(sights.last(), target, name),
        }
    }
}

/// Whether `entries` may be what the walk `walk` of the directory `dir`
/// reports: entries that lie under `dir`, and, for the walk of a tree, one
/// for `dir` itself before all others.
pub open spec fn walked(entries: Seq<Option<Seq<char>>>, dir: Seq<char>, walk: Walk) -> bool {
    &&& all_under(entries, dir)
    &&& walk != Walk::Entries ==> starts_at(entries, dir)
}

/// Whether `sights` may be what a search through the scopes of `plan` sees:
/// one sight for each scope that the search gets to, in the order of the
/// plan, with entries that the walk of the scope may report.
pub open spec fn shows(sights: Seq<Sight>, plan: Seq<(Seq<char>, Walk)>) -> bool {
    &&& sights.len() <= plan.len()
    &&& forall|k: int|
        0 <= k < sights.len() ==> (#[trigger] sights[k]).scope == plan[k] && walked(
            sights[k].entries,
            plan[k].0,
            plan[k].1,
        )
}

/// Whether `sights` may be all that a search through the scopes of `plan`
/// sees: sights of the plan, each with one answer of the disk for each of
/// its candidates, in which no scope was looked at after one that yielded a
/// match, and which leave out no scope unless one yielded a match.
pub open spec fn searched(
    sights: Seq<Sight>,
    plan: Seq<(Seq<char>, Walk)>,
    target: Target,
    name: Seq<char>,
) -> bool {
    &&& shows(sights, plan)
    &&& forall|k: int|
        0 <= k < sights.len() ==> (#[trigger] sights[k]).confirmed.len() == candidates(
            sights[k].entries,
            target,
            name,
        ).len()
    &&& sights.len() > 0 ==> found(sights.drop_last(), target, name) is None
    &&& found(sights, target, name) is None ==> sights.len() == plan.len()
}

/// Whether `result` is what a search through the scopes of `plan` returns
/// under some state of the disk: the match that the scopes yield, for what
/// they show.
pub open spec fn may_be_found(
    plan: Seq<(Seq<char>, Walk)>,
    target: Target,
    name: Seq<char>,
    result: Option<Seq<char>>,
) -> bool {
    exists|sights: Seq<Sight>|
        searched(sights, plan, target, name) && result == #[trigger] found(sights, target, name)
}

/// Every candidate is one of the entries and is named for the target.
pub proof fn lemma_candidates_named(
    entries: Seq<Option<Seq<char>>>,
    target: Target,
    name: Seq<char>,
)
    ensures
        forall|i: int|
            0 <= i < candidates(entries, target, name).len() ==> named_for(
                target,
                name,
                #[trigger] candidates(entries, target, name)[i],
            ) && entries.contains(Some(candidates(entries, target, name)[i])),
    decreases entries.len(),
{
    if entries.len() > 0 {
        let init = candidates(entries.drop_last(), target, name);
        lemma_candidates_named(entries.drop_last(), target, name);
        assert forall|i: int| 0 <= i < candidates(entries, target, name).len() implies named_for(
            target,
            name,
            #[trigger] candidates(entries, target, name)[i],
        ) && entries.contains(Some(candidates(entries, target, name)[i])) by {
            if i < init.len() {
                let j = choose|j: int|
                    0 <= j < entries.drop_last().len() && entries.drop_last()[j] == Some(init[i]);
                assert(entries[j] == Some(init[i]));
            } else {
                assert(entries[entries.len() - 1] == entries.last());
            }
        }
    }
}

/// Where no entry is named for the target, there is no candidate.
pub proof fn lemma_no_candidates(entries: Seq<Option<Seq<char>>>, target: Target, name: Seq<char>)
    requires
        forall|i: int|
            0 <= i < entries.len() ==> match #[trigger] entries[i] {
                Some(path) => !named_for(target, name, path),
                None => true,
            },
    ensures
        candidates(entries, target, name).len() == 0,
    decreases entries.len(),
{
    if entries.len() > 0 {
        assert forall|i: int| 0 <= i < entries.drop_last().len() implies match #[trigger] entries.drop_last()[i] {
            Some(path) => !named_for(target, name, path),
            None => true,
        } by {
            assert(entries.drop_last()[i] == entries[i]);
        }
        lemma_no_candidates(entries.drop_last(), target, name);
        assert(entries.last() == entries[entries.len() - 1]);
    }
}

/// What `first_flagged` returns is one of the paths, and its flag is set.
pub proof fn lemma_first_flagged(paths: Seq<Seq<char>>, flags: Seq<bool>)
    ensures
        match first_flagged(paths, flags) {
            Some(p) => exists|i: int|
                0 <= i < paths.len() && i < flags.len() && flags[i] && #[trigger] paths[i] == p,
            None => forall|i: int| 0 <= i < paths.len() && i < flags.len() ==> !#[trigger] flags[i],
        },
{
    flags.index_of_first_ensures(true);
    match flags.index_of_first(true) {
        Some(i) => {
            if i < paths.len() {
                assert(paths[i] == first_flagged(paths, flags).unwrap());
            } else {
            }
        },
        None => {
            assert forall|i: int| 0 <= i < paths.len() && i < flags.len() implies !#[trigger] flags[i] by {
                if flags[i] {
                    assert(flags.contains(true));
                }
            }
        },
    }
}

/// Whether `path` is named as the target called `name` must be.
pub fn is_named_for(target: Target, name: &str, path: &str) -> (named: bool)
    ensures
        named == named_for(target, name@, path@),
{
    match target {
        Target::Directory => has_file_name(path, name),
        Target::IconFile => is_icon_file_name(path, name),
    }
}

/// Picks out of `entries`, in order, those that were read and are named as
/// the target called `name` must be.
pub fn candidates_among(entries: &Vec<Option<String>>, target: Target, name: &str) -> (found: Vec<
    String,
>)
    ensures
        found.deep_view() == candidates(entries.deep_view(), target, name@),
{
    let mut found: Vec<String> = Vec::new();
    let mut i: usize = 0;
    assert(entries.deep_view().take(0) =~= Seq::empty());
    assert(found.deep_view() =~= Seq::empty());
    while i < entries.len()
        invariant
            i <= entries.len(),
            found.deep_view() == candidates(entries.deep_view().take(i as int), target, name@),
        decreases entries.len() - i,
    {
        let ghost before = found.deep_view();
        let ghost prefix = entries.deep_view().take(i as int + 1);
        assert(prefix.drop_last() =~= entries.deep_view().take(i as int));
        assert(prefix.last() == entries[i as int].deep_view());
        match &entries[i] {
            Some(path) => {
                if is_named_for(target, name, path.as_str()) {
                    found.push(path.clone());
                    assert(found.deep_view() =~= before.push(path@));
                }
            },
            None => {},
        }
        i += 1;
    }
    assert(entries.deep_view().take(i as int) =~= entries.deep_view());
    found
}

/// The first of `paths` whose flag is set, if any flag is.
pub fn pick_first(paths: &Vec<String>, flags: &Vec<bool>) -> (picked: Option<String>)
    ensures
        picked.deep_view() == first_flagged(paths.deep_view(), flags@),
{
    let mut i: usize = 0;
    while i < flags.len()
        invariant
            i <= flags.len(),
            forall|j: int| 0 <= j < i ==> !flags@[j],
        decreases flags.len() - i,
    {
        if flags[i] {
            proof {
                flags@.index_of_first_ensures(true);
                assert(flags@.contains(true));
            }
            return if i < paths.len() {
                Some(paths[i].clone())
            } else {
                None
            };
        }
        i += 1;
    }
    proof {
        flags@.index_of_first_ensures(true);
    }
    None
}

/// The question that confirms a candidate for `target`: whether it is a
/// directory, for a directory; whether it is a regular file, for an icon
/// file.
pub fn probe_for(target: Target) -> (probe: Probe)
    ensures
        probe == (match target {
            Target::Directory => Probe::Directory,
            Target::IconFile => Probe::RegularFile,
        }),
{
    match target {
        Target::Directory => Probe::Directory,
        Target::IconFile => Probe::RegularFile,
    }
}

/// Whether `walk` goes below the directory of its scope.
pub fn descends(walk: Walk) -> (deep: bool)
    ensures
        deep == (walk != Walk::Entries),
{
    match walk {
        Walk::Tree => true,
        Walk::TreeThroughLinks => true,
        Walk::Entries => false,
    }
}

/// Whether `walk` goes through symbolic links.
pub fn follows_links(walk: Walk) -> (follows: bool)
    ensures
        follows == (walk == Walk::TreeThroughLinks),
{
    match walk {
        Walk::Tree => false,
        Walk::TreeThroughLinks => true,
        Walk::Entries => false,
    }
}

/// Asks the disk the question `probe` about each of `paths`, in order.
pub fn probe_each(paths: &Vec<String>, probe: Probe) -> (flags: Vec<bool>)
    ensures
        flags.len() == paths.len(),
{
    let mut flags: Vec<bool> = Vec::new();
    let mut i: usize = 0;
    while i < paths.len()
        invariant
            i <= paths.len(),
            flags.len() == i,
        decreases paths.len() - i,
    {
        let path = paths[i].as_str();
        let flag = match probe {
            Probe::Exists => path_exists(path),
            Probe::Directory => path_is_dir(path),
            Probe::RegularFile => path_is_file(path),
        };
        flags.push(flag);
        i += 1;
    }
    flags
}

/// Searches the walked `entries` for the target called `name`: the first
/// entry, in walk order, that is named for it and that the disk confirms.
///
/// Whatever the disk answers, the result is `first_flagged` of the
/// candidates under some flags, one for each candidate. In particular a
/// path that is returned is named for the target, and nothing is returned
/// where no entry is.
pub fn first_on_disk(entries: &Vec<Option<String>>, target: Target, name: &str) -> (found: Option<
    String,
>)
    ensures
        exists|flags: Seq<bool>|
            flags.len() == candidates(entries.deep_view(), target, name@).len()
                && found.deep_view() == #[trigger] first_flagged(
                candidates(entries.deep_view(), target, name@),
                flags,
            ),
        match found {
            Some(p) => named_for(target, name@, p@) && entries.deep_view().contains(Some(p@)),
            None => true,
        },
        candidates(entries.deep_view(), target, name@).len() == 0 ==> found is None,
{
    let paths = candidates_among(entries, target, name);
    let flags = probe_each(&paths, probe_for(target));
    let found = pick_first(&paths, &flags);
    proof {
        lemma_first_flagged(paths.deep_view(), flags@);
        lemma_candidates_named(entries.deep_view(), target, name@);
        if let Some(p) = &found {
            let i = choose|i: int|
                0 <= i < paths.len() && i < flags.len() && flags[i]
                    && #[trigger] paths.deep_view()[i] == p@;
            assert(named_for(target, name@, candidates(entries.deep_view(), target, name@)[i]));
        }
    }
    found
}

/// The entries that `scope` shows, in walk order. All of them lie under the
/// directory of the scope, and the walk of a tree starts with an entry for
/// that directory itself.
pub fn entries_of(scope: &SearchScope) -> (entries: Vec<Option<String>>)
    ensures
        walked(entries.deep_view(), scope.dir@, scope.walk),
{
    if descends(scope.walk) {
        walk_tree(scope.dir.as_str(), follows_links(scope.walk))
    } else {
        list_directory(scope.dir.as_str())
    }
}

/// Searches `scopes`, in order, for the target called `name`: the first
/// scope that yields a match decides, and the scopes after it are not
/// looked at.
///
/// Whatever the disk shows, the result is the match that the scopes yield
/// for it, and nothing is returned before every scope was looked at. In
/// particular a path that is returned is named for the target and lies
/// under the directory of one of the scopes, and nothing is returned where
/// there is no scope.
pub fn search(scopes: &Vec<SearchScope>, target: Target, name: &str) -> (hit: Option<String>)
    ensures
        may_be_found(plan_of(scopes@), target, name@, hit.deep_view()),
        match hit {
            Some(p) => named_for(target, name@, p@) && exists|k: int|
                0 <= k < scopes.len() && (#[trigger] scopes[k]).dir@.is_prefix_of(p@),
            None => true,
        },
        scopes.len() == 0 ==> hit is None,
{
    let ghost plan = plan_of(scopes@);
    let ghost mut sights: Seq<Sight> = Seq::empty();
    let mut i: usize = 0;
    while i < scopes.len()
        invariant
            i <= scopes.len(),
            plan == plan_of(scopes@),
            sights.len() == i,
            shows(sights, plan),
            forall|k: int|
                0 <= k < sights.len() ==> (#[trigger] sights[k]).confirmed.len() == candidates(
                    sights[k].entries,
                    target,
                    name@,
                ).len(),
            found(sights, target, name@) is None,
        decreases scopes.len() - i,
    {
        let entries = entries_of(&scopes[i]);
        let hit = first_on_disk(&entries, target, name);
        let ghost named = candidates(entries.deep_view(), target, name@);
        let ghost confirmed = choose|flags: Seq<bool>|
            flags.len() == named.len() && hit.deep_view() == #[trigger] first_flagged(
                named,
                flags,
            );
        let ghost sight = Sight { scope: plan[i as int], entries: entries.deep_view(), confirmed };
        let ghost seen = sights.push(sight);
        assert(seen.drop_last() =~= sights);
        assert(found(seen, target, name@) == hit.deep_view());
        assert(shows(seen, plan)) by {
            assert forall|k: int| 0 <= k < seen.len() implies (#[trigger] seen[k]).scope == plan[k]
                && walked(seen[k].entries, plan[k].0, plan[k].1) by {
                if k < sights.len() {
                    assert(seen[k] == sights[k]);
                }
            }
        }
        assert forall|k: int| 0 <= k < seen.len() implies (#[trigger] seen[k]).confirmed.len()
            == candidates(seen[k].entries, target, name@).len() by {
            if k < sights.len() {
                assert(seen[k] == sights[k]);
            }
        }
        proof {
            sights = seen;
        }
        match hit {
            Some(p) => {
                let ghost at = choose|at: int|
                    0 <= at < entries.len() && entries.deep_view()[at] == Some(p@);
                assert(scopes[i as int].dir@.is_prefix_of(p@));
                let hit = Some(p);
                assert(searched(sights, plan, target, name@) && hit.deep_view() == found(
                    sights,
                    target,
                    name@,
                ));
                return hit;
            },
            None => {},
        }
        i += 1;
    }
    let hit: Option<String> = None;
    assert(searched(sights, plan, target, name@) && hit.deep_view() == found(
        sights,
        target,
        name@,
    ));
    hit
}

/// No false positives: where no entry that any scope shows is named for the
/// target, nothing is found.
pub proof fn unnamed_is_not_found(sights: Seq<Sight>, target: Target, name: Seq<char>)
    requires
        forall|k: int, i: int|
            0 <= k < sights.len() && 0 <= i < sights[k].entries.len() ==> match #[trigger] sights[k].entries[i] {
                Some(path) => !named_for(target, name, path),
                None => true,
            },
    ensures
        found(sights, target, name) is None,
    decreases sights.len(),
{
    if sights.len() > 0 {
        let last = sights.last();
        assert forall|k: int, i: int|
            0 <= k < sights.drop_last().len() && 0 <= i < sights.drop_last()[k].entries.len() implies match #[trigger] sights.drop_last()[k].entries[i] {
            Some(path) => !named_for(target, name, path),
            None => true,
        } by {
            assert(sights.drop_last()[k] == sights[k]);
        }
        unnamed_is_not_found(sights.drop_last(), target, name);
        assert(last == sights[sights.len() - 1]);
        lemma_no_candidates(last.entries, target, name);
        lemma_first_flagged(candidates(last.entries, target, name), last.confirmed);
    }
}

/// Only what is named for the target is found: the match is an entry that
/// one of the scopes showed, and it is named for the target.
pub proof fn found_is_named(sights: Seq<Sight>, target: Target, name: Seq<char>)
    ensures
        match found(sights, target, name) {
            Some(p) => named_for(target, name, p) && exists|k: int|
                0 <= k < sights.len() && (#[trigger] sights[k]).entries.contains(Some(p)),
            None => true,
        },
    decreases sights.len(),
{
    if sights.len() > 0 {
        found_is_named(sights.drop_last(), target, name);
        match found(sights.drop_last(), target, name) {
            Some(p) => {
                let k = choose|k: int|
                    0 <= k < sights.drop_last().len() && (#[trigger] sights.drop_last()[k]).entries.contains(
                        Some(p),
                    );
                assert(sights[k].entries.contains(Some(p)));
            },
            None => {
                let last = sights.last();
                let named = candidates(last.entries, target, name);
                lemma_first_flagged(named, last.confirmed);
                lemma_candidates_named(last.entries, target, name);
                if let Some(p) = found_in(last, target, name) {
                    let i = choose|i: int|
                        0 <= i < named.len() && i < last.confirmed.len() && last.confirmed[i]
                            && #[trigger] named[i] == p;
                    assert(named_for(target, name, named[i]));
                    assert(sights[sights.len() - 1].entries.contains(Some(p)));
                }
            },
        }
    }
}

/// Where no scope yields a match, nothing is found.
pub proof fn empty_scopes_find_nothing(sights: Seq<Sight>, target: Target, name: Seq<char>)
    requires
        forall|j: int| 0 <= j < sights.len() ==> found_in(#[trigger] sights[j], target, name) is None,
    ensures
        found(sights, target, name) is None,
    decreases sights.len(),
{
    if sights.len() > 0 {
        assert forall|j: int| 0 <= j < sights.drop_last().len() implies found_in(
            #[trigger] sights.drop_last()[j],
            target,
            name,
        ) is None by {
            assert(sights.drop_last()[j] == sights[j]);
        }
        empty_scopes_find_nothing(sights.drop_last(), target, name);
        assert(sights.last() == sights[sights.len() - 1]);
    }
}

/// Earlier scopes win: the match found is that of the first scope that
/// yields one, whatever the scopes after it show.
pub proof fn first_yielding_scope_wins(sights: Seq<Sight>, target: Target, name: Seq<char>, k: int)
    requires
        0 <= k < sights.len(),
        forall|j: int| 0 <= j < k ==> found_in(#[trigger] sights[j], target, name) is None,
        found_in(sights[k], target, name) is Some,
    ensures
        found(sights, target, name) == found_in(sights[k], target, name),
    decreases sights.len(),
{
    if k == sights.len() - 1 {
        assert forall|j: int| 0 <= j < sights.drop_last().len() implies found_in(
            #[trigger] sights.drop_last()[j],
            target,
            name,
        ) is None by {
            assert(sights.drop_last()[j] == sights[j]);
        }
        empty_scopes_find_nothing(sights.drop_last(), target, name);
        assert(sights.last() == sights[k]);
    } else {
        assert(sights.drop_last()[k] == sights[k]);
        assert forall|j: int| 0 <= j < k implies found_in(
            #[trigger] sights.drop_last()[j],
            target,
            name,
        ) is None by {
            assert(sights.drop_last()[j] == sights[j]);
        }
        first_yielding_scope_wins(sights.drop_last(), target, name, k);
    }
}

/// What is found lies in a scope: where the sights are those of a plan, a
/// match lies under the directory of one of the scopes of the plan.
pub proof fn found_lies_in_a_scope(
    sights: Seq<Sight>,
    plan: Seq<(Seq<char>, Walk)>,
    target: Target,
    name: Seq<char>,
)
    requires
        shows(sights, plan),
    ensures
        match found(sights, target, name) {
            Some(p) => exists|k: int| 0 <= k < plan.len() && (#[trigger] plan[k]).0.is_prefix_of(p),
            None => true,
        },
{
    found_is_named(sights, target, name);
    if let Some(p) = found(sights, target, name) {
        let k = choose|k: int|
            0 <= k < sights.len() && (#[trigger] sights[k]).entries.contains(Some(p));
        let i = choose|i: int| 0 <= i < sights[k].entries.len() && sights[k].entries[i] == Some(p);
        assert(plan[k].0.is_prefix_of(p));
    }
}

/// Where nothing is found, no scope yields a match.
pub proof fn nothing_found_means_no_scope_yields(
    sights: Seq<Sight>,
    target: Target,
    name: Seq<char>,
)
    requires
        found(sights, target, name) is None,
    ensures
        forall|k: int| 0 <= k < sights.len() ==> found_in(#[trigger] sights[k], target, name) is None,
    decreases sights.len(),
{
    if sights.len() > 0 {
        nothing_found_means_no_scope_yields(sights.drop_last(), target, name);
        assert forall|k: int| 0 <= k < sights.len() implies found_in(
            #[trigger] sights[k],
            target,
            name,
        ) is None by {
            if k < sights.len() - 1 {
                assert(sights.drop_last()[k] == sights[k]);
            } else {
                assert(sights.last() == sights[k]);
            }
        }
    }
}

/// A search that sees as much as another does not stop before it: where
/// two searches of one plan agree on the scopes that both look at, the
/// second looks at no fewer scopes than the first.
proof fn lemma_not_shorter(
    plan: Seq<(Seq<char>, Walk)>,
    target: Target,
    name: Seq<char>,
    first: Seq<Sight>,
    second: Seq<Sight>,
)
    requires
        searched(first, plan, target, name),
        searched(second, plan, target, name),
        forall|k: int| 0 <= k < first.len() && k < second.len() ==> first[k] == second[k],
    ensures
        first.len() <= second.len(),
{
    if second.len() < first.len() {
        let n = second.len() as int;
        nothing_found_means_no_scope_yields(first.drop_last(), target, name);
        if found(second, target, name) is None {
            assert(second.len() == plan.len());
        } else {
            assert(n > 0);
            assert(found_in(second.last(), target, name) is Some);
            assert(second.last() == second[n - 1]);
            assert(first.drop_last()[n - 1] == first[n - 1]);
            assert(found_in(first.drop_last()[n - 1], target, name) is None);
        }
    }
}

/// Repeated searches agree: two searches of one plan for one name, to which
/// every scope that both look at shows the same entries and gives the same
/// answers, look at the same scopes and yield the same match.
pub proof fn search_is_repeatable(
    plan: Seq<(Seq<char>, Walk)>,
    target: Target,
    name: Seq<char>,
    first: Seq<Sight>,
    second: Seq<Sight>,
)
    requires
        searched(first, plan, target, name),
        searched(second, plan, target, name),
        forall|k: int| 0 <= k < first.len() && k < second.len() ==> first[k] == second[k],
    ensures
        first == second,
        found(first, target, name) == found(second, target, name),
{
    lemma_not_shorter(plan, target, name, first, second);
    lemma_not_shorter(plan, target, name, second, first);
    assert(first =~= second);
}

/// The first entry of a walk, where it was read and is named for the
/// target, is the first candidate.
proof fn lemma_first_candidate(entries: Seq<Option<Seq<char>>>, target: Target, name: Seq<char>)
    requires
        entries.len() > 0,
        entries[0] matches Some(path) && named_for(target, name, path),
    ensures
        candidates(entries, target, name).len() > 0,
        Some(candidates(entries, target, name)[0]) == entries[0],
    decreases entries.len(),
{
    if entries.len() > 1 {
        assert(entries.drop_last()[0] == entries[0]);
        lemma_first_candidate(entries.drop_last(), target, name);
    } else {
        assert(entries.drop_last().len() == 0);
        assert(candidates(entries.drop_last(), target, name).len() == 0);
        assert(entries.last() == entries[0]);
    }
}

/// The directory of a scope is itself searched: where the tree under a
/// directory that bears the wanted name is walked, the walk reads its first
/// entry, and the disk confirms it, the scope yields that directory.
pub proof fn walked_directory_is_found(sight: Sight, name: Seq<char>)
    requires
        sight.scope.1 != Walk::Entries,
        walked(sight.entries, sight.scope.0, sight.scope.1),
        sight.entries[0] is Some,
        file_name(sight.scope.0) == name,
        sight.confirmed.len() > 0,
        sight.confirmed[0],
    ensures
        found_in(sight, Target::Directory, name) == Some(sight.scope.0),
{
    lemma_first_candidate(sight.entries, Target::Directory, name);
    sight.confirmed.index_of_first_ensures(true);
    assert(sight.confirmed.contains(true));
}

} // verus!
