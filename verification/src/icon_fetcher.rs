//! The icon resolver: a resolution context built once from an icon pack
//! name, and the lookups that run against it.

use vstd::prelude::*;
use vstd::utf8::{decode_utf8, valid_utf8};
use crate::disk::{
    all_under,
    canonicalize,
    desktop_entry_icon,
    home_directory,
    path_is_file,
    path_is_symlink,
    read_link,
    text_of_bytes,
};
use crate::names::{
    absolute,
    file_name,
    file_stem,
    icon_file_name,
    image_extension,
    is_absolute,
    join,
    joined,
    parent,
    parent_of,
};
use crate::paths::{
    backup_dirs_in,
    backup_dirs_of,
    icon_pack_path_in,
    may_be_pack_path,
    require_home,
    ConfigError,
};
use crate::search::{
    candidates,
    found,
    found_in,
    found_is_named,
    found_lies_in_a_scope,
    first_yielding_scope_wins,
    lemma_candidates_named,
    lemma_first_flagged,
    nothing_found_means_no_scope_yields,
    plan_of,
    search,
    search_is_repeatable,
    searched,
    shows,
    unnamed_is_not_found,
    SearchScope,
    Sight,
    Target,
    Walk,
};
use crate::text::{strip_quotes, unquoted};

verus! {

/// The scopes of a lookup, in search order: the tree under the pack
/// directory, where one was resolved; the tree under each fallback
/// directory; then the entries of the shared icons directory and those of
/// the icons directory of the user. Trees are walked through symbolic links.
pub open spec fn search_plan(
    pack_dir: Option<Seq<char>>,
    fallback_dirs: Seq<Seq<char>>,
    home: Seq<char>,
) -> Seq<(Seq<char>, Walk)> {
    (match pack_dir {
        Some(p) => seq![(p, Walk::TreeThroughLinks)],
        None => Seq::empty(),
    }) + Seq::new(fallback_dirs.len(), |i: int| (fallback_dirs[i], Walk::TreeThroughLinks)) + seq![
        ("/usr/share/icons"@, Walk::Entries),
        (joined(home, ".local/share/icons"@), Walk::Entries),
    ]
}

/// The result of a lookup, given what the scopes showed and, for a lookup
/// that resolves symbolic links, what the resolution of the match gave.
pub open spec fn lookup(
    sights: Seq<Sight>,
    icon: Seq<char>,
    resolve: bool,
    target: Option<Seq<char>>,
) -> Option<Seq<char>> {
    match found(sights, Target::IconFile, icon) {
        Some(p) => if resolve {
            target
        } else {
            Some(p)
        },
        None => None,
    }
}

/// Whether `target` may be what stands behind `path`: `path` itself, for a
/// path that is no symbolic link; a canonical path, which is absolute, for
/// a link; or nothing, for a link that cannot be read or resolved.
pub open spec fn may_be_target(path: Seq<char>, target: Option<Seq<char>>) -> bool {
    match target {
        Some(p) => p == path || absolute(p),
        None => true,
    }
}

/// What stands behind `path`, given whether it is a symbolic link and what
/// following the link gave: `path` itself unless it is a link, else where
/// the link leads, which is nothing for a link that cannot be followed.
pub open spec fn target_of(
    path: Seq<char>,
    is_link: bool,
    followed: Option<Seq<char>>,
) -> Option<Seq<char>> {
    if is_link {
        followed
    } else {
        Some(path)
    }
}

/// The place that a symbolic link at `path` points to, where the link holds
/// `link`: a relative target is resolved against the directory of the link.
pub open spec fn link_place(path: Seq<char>, link: Seq<char>) -> Seq<char> {
    joined(parent(path), link)
}

/// The icon pack that the output of the theme query names: the output as
/// text, without quote characters and line feeds, and `hicolor` where the
/// output is not valid UTF-8.
pub open spec fn pack_named_by(output: Seq<u8>) -> Seq<char> {
    if valid_utf8(output) {
        unquoted(decode_utf8(output))
    } else {
        "hicolor"@
    }
}

/// No false positives: where no entry that any scope shows is named as an
/// icon file for `icon`, a lookup returns nothing.
pub proof fn absent_icon_is_not_found(
    sights: Seq<Sight>,
    icon: Seq<char>,
    resolve: bool,
    target: Option<Seq<char>>,
)
    requires
        forall|k: int, i: int|
            0 <= k < sights.len() && 0 <= i < sights[k].entries.len() ==> match #[trigger] sights[k].entries[i] {
                Some(path) => !icon_file_name(path, icon),
                None => true,
            },
    ensures
        lookup(sights, icon, resolve, target) is None,
{
    unnamed_is_not_found(sights, Target::IconFile, icon);
}

/// Only icon files are returned: what a lookup that leaves symbolic links
/// alone returns is an entry that one of the scopes showed, named as an icon
/// file for `icon`. A file whose extension is not a recognized image format
/// is therefore never returned, whatever its stem.
pub proof fn lookup_returns_icon_files(
    sights: Seq<Sight>,
    icon: Seq<char>,
    target: Option<Seq<char>>,
)
    ensures
        match lookup(sights, icon, false, target) {
            Some(p) => image_extension(p) && file_stem(p) == icon && exists|k: int|
                0 <= k < sights.len() && (#[trigger] sights[k]).entries.contains(Some(p)),
            None => true,
        },
{
    found_is_named(sights, Target::IconFile, icon);
}

/// A lookup stays within its scopes: what a lookup that leaves symbolic
/// links alone returns lies under the pack directory, under a fallback
/// directory, or under one of the two directories that are listed.
pub proof fn lookup_stays_in_scope(
    pack_dir: Option<Seq<char>>,
    fallback_dirs: Seq<Seq<char>>,
    home: Seq<char>,
    sights: Seq<Sight>,
    icon: Seq<char>,
    target: Option<Seq<char>>,
)
    requires
        shows(sights, search_plan(pack_dir, fallback_dirs, home)),
    ensures
        match lookup(sights, icon, false, target) {
            Some(p) => {
                ||| pack_dir matches Some(pack) && pack.is_prefix_of(p)
                ||| exists|i: int|
                    0 <= i < fallback_dirs.len() && (#[trigger] fallback_dirs[i]).is_prefix_of(p)
                ||| "/usr/share/icons"@.is_prefix_of(p)
                ||| joined(home, ".local/share/icons"@).is_prefix_of(p)
            },
            None => true,
        },
{
    let plan = search_plan(pack_dir, fallback_dirs, home);
    found_lies_in_a_scope(sights, plan, Target::IconFile, icon);
    if let Some(p) = found(sights, Target::IconFile, icon) {
        let k = choose|k: int| 0 <= k < plan.len() && (#[trigger] plan[k]).0.is_prefix_of(p);
        let head: int = if pack_dir is Some {
            1
        } else {
            0
        };
        if k < head {
        } else if k < head + fallback_dirs.len() {
            assert(plan[k].0 == fallback_dirs[k - head]);
        } else {
        }
    }
}

/// The pack comes first: for a resolver with a pack directory, the first
/// scope is the tree under that directory, and where it yields a match, a
/// lookup returns that match, which lies under the pack directory, whatever
/// the fallback directories hold.
pub proof fn pack_match_wins(
    pack: Seq<char>,
    fallback_dirs: Seq<Seq<char>>,
    home: Seq<char>,
    sights: Seq<Sight>,
    icon: Seq<char>,
    target: Option<Seq<char>>,
)
    requires
        shows(sights, search_plan(Some(pack), fallback_dirs, home)),
        sights.len() > 0,
        found_in(sights[0], Target::IconFile, icon) is Some,
    ensures
        sights[0].scope == (pack, Walk::TreeThroughLinks),
        lookup(sights, icon, false, target) == found_in(sights[0], Target::IconFile, icon),
        pack.is_prefix_of(lookup(sights, icon, false, target).unwrap()),
{
    let plan = search_plan(Some(pack), fallback_dirs, home);
    assert(plan[0] == (pack, Walk::TreeThroughLinks));
    first_yielding_scope_wins(sights, Target::IconFile, icon, 0);
    let first = sights[0];
    let named = candidates(first.entries, Target::IconFile, icon);
    lemma_first_flagged(named, first.confirmed);
    lemma_candidates_named(first.entries, Target::IconFile, icon);
    let p = found_in(first, Target::IconFile, icon).unwrap();
    let i = choose|i: int|
        0 <= i < named.len() && i < first.confirmed.len() && first.confirmed[i]
            && #[trigger] named[i] == p;
    assert(first.entries.contains(Some(named[i])));
    let at = choose|at: int| 0 <= at < first.entries.len() && first.entries[at] == Some(p);
    assert(all_under(first.entries, pack));
}

/// Repeated lookups agree: two lookups of one name by one resolver, to
/// which every scope that both look at shows the same entries and gives the
/// same answers, and which get the same resolution of the match, look at
/// the same scopes and return the same path.
pub proof fn lookup_is_repeatable(
    plan: Seq<(Seq<char>, Walk)>,
    icon: Seq<char>,
    resolve: bool,
    target: Option<Seq<char>>,
    first: Seq<Sight>,
    second: Seq<Sight>,
)
    requires
        searched(first, plan, Target::IconFile, icon),
        searched(second, plan, Target::IconFile, icon),
        forall|k: int| 0 <= k < first.len() && k < second.len() ==> first[k] == second[k],
    ensures
        first == second,
        lookup(first, icon, resolve, target) == lookup(second, icon, resolve, target),
{
    search_is_repeatable(plan, Target::IconFile, icon, first, second);
}

/// Resolving symbolic links changes how the match is reported, never which
/// entry is chosen: of two lookups of one name over one plan that are shown
/// the same, the one that resolves links returns what stands behind the
/// match that the other returns, and nothing where the other returns
/// nothing.
pub proof fn resolving_reports_the_same_match(
    plan: Seq<(Seq<char>, Walk)>,
    icon: Seq<char>,
    target: Option<Seq<char>>,
    plain: Seq<Sight>,
    resolving: Seq<Sight>,
)
    requires
        searched(plain, plan, Target::IconFile, icon),
        searched(resolving, plan, Target::IconFile, icon),
        forall|k: int| 0 <= k < plain.len() && k < resolving.len() ==> plain[k] == resolving[k],
    ensures
        lookup(plain, icon, false, target) == found(resolving, Target::IconFile, icon),
        lookup(resolving, icon, true, target) == (match lookup(plain, icon, false, target) {
            Some(p) => target,
            None => None,
        }),
{
    search_is_repeatable(plan, Target::IconFile, icon, plain, resolving);
}

/// A lookup gives up only at the end: where a lookup returns nothing
/// although it leaves symbolic links alone, it has looked at every scope of
/// its plan, and none of them yielded a match.
pub proof fn nothing_is_returned_only_at_the_end(
    plan: Seq<(Seq<char>, Walk)>,
    sights: Seq<Sight>,
    icon: Seq<char>,
    target: Option<Seq<char>>,
)
    requires
        searched(sights, plan, Target::IconFile, icon),
        lookup(sights, icon, false, target) is None,
    ensures
        sights.len() == plan.len(),
        forall|k: int|
            0 <= k < sights.len() ==> found_in(#[trigger] sights[k], Target::IconFile, icon) is None,
{
    nothing_found_means_no_scope_yields(sights, Target::IconFile, icon);
}

/// The icon file that a desktop entry names outright with the value `icon`
/// of its `Icon` key, given whether a regular file stands at `icon`: `icon`
/// itself where it is an absolute path and a regular file stands there, and
/// none otherwise.
pub open spec fn literal(icon: Seq<char>, regular: bool) -> Option<Seq<char>> {
    if absolute(icon) && regular {
        Some(icon)
    } else {
        None
    }
}

/// The icon file that a desktop entry names outright with the value `icon`
/// of its `Icon` key, given whether a regular file stands at `icon`.
pub fn literal_icon(icon: &str, regular: bool) -> (named: Option<String>)
    ensures
        named.deep_view() == literal(icon@, regular),
{
    if is_absolute(icon) && regular {
        Some(icon.to_owned())
    } else {
        None
    }
}

/// The icon pack that the output of the theme query names.
pub fn icon_pack_from_output(output: Vec<u8>) -> (name: String)
    ensures
        name@ == pack_named_by(output@),
{
    match text_of_bytes(output) {
        Some(text) => strip_quotes(text.as_str()),
        None => "hicolor".to_owned(),
    }
}

/// The place that the symbolic link at `path` points to, where the link
/// holds `link`.
pub fn link_location(path: &str, link: &str) -> (place: String)
    ensures
        place@ == link_place(path@, link@),
{
    let dir = parent_of(path);
    join(dir.as_str(), link)
}

/// What stands behind `path`, given whether it is a symbolic link and what
/// following the link gave.
pub fn target_from(path: &str, is_link: bool, followed: Option<String>) -> (target: Option<String>)
    ensures
        target.deep_view() == target_of(path@, is_link, followed.deep_view()),
{
    if is_link {
        followed
    } else {
        Some(path.to_owned())
    }
}

/// The path that stands behind `path`: `path` itself unless it is a symbolic
/// link, else the canonical form of the place the link points to. A link
/// that cannot be read, or whose target cannot be resolved, yields nothing.
pub fn get_target_path(path: &str) -> (target: Option<String>)
    ensures
        may_be_target(path@, target.deep_view()),
{
    let is_link = path_is_symlink(path);
    let followed = if is_link {
        match read_link(path) {
            Some(link) => {
                let place = link_location(path, link.as_str());
                canonicalize(place.as_str())
            },
            None => None,
        }
    } else {
        None
    };
    target_from(path, is_link, followed)
}

/// A copy of `paths`.
fn copy_paths(paths: &Vec<String>) -> (copy: Vec<String>)
    ensures
        copy.deep_view() == paths.deep_view(),
{
    let mut copy: Vec<String> = Vec::new();
    let mut i: usize = 0;
    while i < paths.len()
        invariant
            i <= paths.len(),
            copy.len() == i,
            forall|j: int| 0 <= j < i ==> copy[j]@ == paths[j]@,
        decreases paths.len() - i,
    {
        copy.push(paths[i].clone());
        i += 1;
    }
    assert(copy.deep_view() =~= paths.deep_view());
    copy
}

/// Resolves icon names and desktop entries to icon files.
#[derive(Debug, Clone)]
pub struct IconFetcher {
    /// Name of the icon pack.
    icon_pack: String,
    /// Directory of the icon pack, where one of that name was found.
    icon_pack_path: Option<String>,
    /// Directories searched when the icon pack does not hold an icon.
    backup_dirs: Vec<String>,
    /// Whether a match that is a symbolic link is reported as its target.
    return_target_path: bool,
    /// Home directory of the user.
    home: String,
    /// The colon-separated list of data directories.
    data_dirs: String,
}

impl IconFetcher {
    /// Name of the icon pack.
    pub closed spec fn pack_name(&self) -> Seq<char> {
        self.icon_pack@
    }

    /// Directory of the icon pack, where one was resolved.
    pub closed spec fn pack_dir(&self) -> Option<Seq<char>> {
        self.icon_pack_path.deep_view()
    }

    /// The fallback directories, in search order.
    pub closed spec fn fallback_dirs(&self) -> Seq<Seq<char>> {
        self.backup_dirs.deep_view()
    }

    /// Whether a match that is a symbolic link is reported as its target.
    pub closed spec fn returns_target(&self) -> bool {
        self.return_target_path
    }

    /// Home directory of the user.
    pub closed spec fn home_dir(&self) -> Seq<char> {
        self.home@
    }

    /// The colon-separated list of data directories.
    pub closed spec fn data_dirs_text(&self) -> Seq<char> {
        self.data_dirs@
    }

    /// What holds of every resolver: the pack directory is what the search
    /// for the pack gave, so that it bears the name of the pack where there
    /// is one, and the fallback directories are backup candidates of the
    /// home directory, in their order.
    pub open spec fn wf(&self) -> bool {
        &&& may_be_pack_path(
            self.pack_name(),
            self.data_dirs_text(),
            self.home_dir(),
            self.pack_dir(),
        )
        &&& match self.pack_dir() {
            Some(p) => file_name(p) == self.pack_name(),
            None => true,
        }
        &&& backup_dirs_of(self.fallback_dirs(), self.home_dir())
    }

    /// The scopes that a lookup of this resolver searches, in order.
    pub open spec fn plan(&self) -> Seq<(Seq<char>, Walk)> {
        search_plan(self.pack_dir(), self.fallback_dirs(), self.home_dir())
    }

    /// Whether `result` is what a lookup of `icon` returns under some state
    /// of the disk: the first match among what the scopes of the plan show,
    /// or, where symbolic links are resolved, what stands behind that match.
    pub open spec fn may_find(&self, icon: Seq<char>, result: Option<Seq<char>>) -> bool {
        exists|sights: Seq<Sight>, target: Option<Seq<char>>|
            searched(sights, self.plan(), Target::IconFile, icon) && (match found(
                sights,
                Target::IconFile,
                icon,
            ) {
                Some(p) => may_be_target(p, target),
                None => true,
            }) && result == #[trigger] lookup(sights, icon, self.returns_target(), target)
    }

    /// Whether `result` is what a desktop entry with the value `icon` of its
    /// `Icon` key resolves to, given whether a regular file stands at
    /// `icon`: the file that the entry names outright, where it names one,
    /// and else what a lookup of `icon` as a name may return.
    pub open spec fn resolves_to(
        &self,
        icon: Seq<char>,
        regular: bool,
        result: Option<Seq<char>>,
    ) -> bool {
        match literal(icon, regular) {
            Some(file) => result == Some(file),
            None => self.may_find(icon, result),
        }
    }

    /// Whether `result` is what a desktop entry with the value `icon` of its
    /// `Icon` key resolves to under some state of the disk.
    pub open spec fn may_resolve(&self, icon: Seq<char>, result: Option<Seq<char>>) -> bool {
        exists|regular: bool| #[trigger] self.resolves_to(icon, regular, result)
    }

    /// A resolver for the icon pack `icon_pack` and a user whose home
    /// directory is `home`, with `data_dirs` as the value of `XDG_DATA_DIRS`
    /// (the empty text where it is unset). A pack that is not found is no
    /// failure: lookups then start at the fallback directories.
    pub fn in_home(home: &str, icon_pack: &str, data_dirs: &str) -> (made: IconFetcher)
        ensures
            made.wf(),
            made.pack_name() == icon_pack@,
            made.home_dir() == home@,
            made.data_dirs_text() == data_dirs@,
            !made.returns_target(),
    {
        IconFetcher {
            icon_pack: icon_pack.to_owned(),
            icon_pack_path: icon_pack_path_in(icon_pack, data_dirs, home),
            backup_dirs: backup_dirs_in(home),
            return_target_path: false,
            home: home.to_owned(),
            data_dirs: data_dirs.to_owned(),
        }
    }

    /// A resolver for the icon pack `icon_pack`, given the home directory as
    /// far as it is known: the resolver for that home directory, or the
    /// fault that there is none.
    pub fn with_home(home: Option<String>, icon_pack: &str, data_dirs: &str) -> (made: Result<
        IconFetcher,
        ConfigError,
    >)
        ensures
            match home {
                Some(h) => made matches Ok(fetcher) && fetcher.wf() && fetcher.home_dir() == h@
                    && fetcher.pack_name() == icon_pack@ && fetcher.data_dirs_text()
                    == data_dirs@ && !fetcher.returns_target(),
                None => made matches Err(e) && e == ConfigError::HomeDirectoryUnknown,
            },
    {
        match require_home(home) {
            Ok(h) => Ok(IconFetcher::in_home(h.as_str(), icon_pack, data_dirs)),
            Err(e) => Err(e),
        }
    }

    /// A resolver for the icon pack `icon_pack` and the current user, with
    /// `data_dirs` as the value of `XDG_DATA_DIRS` (the empty text where it
    /// is unset).
    ///
    /// Fails only where the home directory is unknown.
    pub fn new(icon_pack: &str, data_dirs: &str) -> (made: Result<IconFetcher, ConfigError>)
        ensures
            made matches Ok(fetcher) ==> fetcher.wf() && fetcher.pack_name() == icon_pack@
                && fetcher.data_dirs_text() == data_dirs@ && !fetcher.returns_target(),
            made matches Err(e) ==> e == ConfigError::HomeDirectoryUnknown,
    {
        IconFetcher::with_home(home_directory(), icon_pack, data_dirs)
    }

    /// The same resolver for another icon pack: the directory of the pack
    /// is resolved anew, the rest is kept.
    pub fn set_icon_pack(self, name: &str) -> (changed: IconFetcher)
        ensures
            changed.pack_name() == name@,
            may_be_pack_path(name@, self.data_dirs_text(), self.home_dir(), changed.pack_dir()),
            match changed.pack_dir() {
                Some(p) => file_name(p) == name@,
                None => true,
            },
            changed.fallback_dirs() == self.fallback_dirs(),
            changed.returns_target() == self.returns_target(),
            changed.home_dir() == self.home_dir(),
            changed.data_dirs_text() == self.data_dirs_text(),
            self.wf() ==> changed.wf(),
    {
        let path = icon_pack_path_in(name, self.data_dirs.as_str(), self.home.as_str());
        IconFetcher {
            icon_pack: name.to_owned(),
            icon_pack_path: path,
            backup_dirs: self.backup_dirs,
            return_target_path: self.return_target_path,
            home: self.home,
            data_dirs: self.data_dirs,
        }
    }

    /// The same resolver, reporting a match that is a symbolic link as its
    /// target where `return_target_path` is set, and as the link itself
    /// where it is not.
    pub fn set_return_target_path(self, return_target_path: bool) -> (changed: IconFetcher)
        ensures
            changed.returns_target() == return_target_path,
            changed.pack_name() == self.pack_name(),
            changed.pack_dir() == self.pack_dir(),
            changed.fallback_dirs() == self.fallback_dirs(),
            changed.home_dir() == self.home_dir(),
            changed.data_dirs_text() == self.data_dirs_text(),
            self.wf() ==> changed.wf(),
    {
        IconFetcher {
            icon_pack: self.icon_pack,
            icon_pack_path: self.icon_pack_path,
            backup_dirs: self.backup_dirs,
            return_target_path,
            home: self.home,
            data_dirs: self.data_dirs,
        }
    }

    /// The scopes that a lookup searches, in order.
    pub fn search_scopes(&self) -> (scopes: Vec<SearchScope>)
        ensures
            plan_of(scopes@) == self.plan(),
    {
        let mut scopes: Vec<SearchScope> = Vec::new();
        match &self.icon_pack_path {
            Some(p) => {
                scopes.push(SearchScope { dir: p.clone(), walk: Walk::TreeThroughLinks });
            },
            None => {},
        }
        let ghost head = plan_of(scopes@);
        let mut i: usize = 0;
        while i < self.backup_dirs.len()
            invariant
                i <= self.backup_dirs.len(),
                plan_of(scopes@) == head + Seq::new(
                    i as nat,
                    |k: int| (self.backup_dirs.deep_view()[k], Walk::TreeThroughLinks),
                ),
            decreases self.backup_dirs.len() - i,
        {
            let ghost before = plan_of(scopes@);
            scopes.push(
                SearchScope { dir: self.backup_dirs[i].clone(), walk: Walk::TreeThroughLinks },
            );
            assert(plan_of(scopes@) =~= before.push(
                (self.backup_dirs[i as int]@, Walk::TreeThroughLinks),
            ));
            i += 1;
            assert(plan_of(scopes@) =~= head + Seq::new(
                i as nat,
                |k: int| (self.backup_dirs.deep_view()[k], Walk::TreeThroughLinks),
            ));
        }
        let ghost before = plan_of(scopes@);
        scopes.push(SearchScope { dir: "/usr/share/icons".to_owned(), walk: Walk::Entries });
        scopes.push(
            SearchScope {
                dir: join(self.home.as_str(), ".local/share/icons"),
                walk: Walk::Entries,
            },
        );
        assert(plan_of(scopes@) =~= before + seq![
            ("/usr/share/icons"@, Walk::Entries),
            (joined(self.home@, ".local/share/icons"@), Walk::Entries),
        ]);
        assert(plan_of(scopes@) =~= self.plan());
        scopes
    }

    /// Looks the icon called `icon_name` up: the scopes are searched in
    /// order, each in the order of its walk, and the first regular file
    /// that is named as an icon file for `icon_name` wins. Where symbolic
    /// links are resolved, the target of the match is returned in its place.
    pub fn get_icon_path(&self, icon_name: &str) -> (path: Option<String>)
        ensures
            self.may_find(icon_name@, path.deep_view()),
            !self.returns_target() ==> match path {
                Some(p) => icon_file_name(p@, icon_name@),
                None => true,
            },
    {
        let scopes = self.search_scopes();
        let hit = search(&scopes, Target::IconFile, icon_name);
        let ghost sights = choose|sights: Seq<Sight>|
            searched(sights, self.plan(), Target::IconFile, icon_name@) && hit.deep_view()
                == #[trigger] found(
                sights,
                Target::IconFile,
                icon_name@,
            );
        let path = match hit {
            Some(p) => if self.return_target_path {
                get_target_path(p.as_str())
            } else {
                Some(p)
            },
            None => None,
        };
        assert(path.deep_view() == lookup(
            sights,
            icon_name@,
            self.returns_target(),
            path.deep_view(),
        ));
        path
    }

    /// The icon that a desktop entry names with the value `icon` of its
    /// `Icon` key: `icon` itself where it is an absolute path to a regular
    /// file, else what the lookup of `icon` as a name gives.
    pub fn icon_for_entry(&self, icon: &str) -> (path: Option<String>)
        ensures
            self.may_resolve(icon@, path.deep_view()),
            !absolute(icon@) ==> self.may_find(icon@, path.deep_view()),
    {
        let regular = path_is_file(icon);
        let path = match literal_icon(icon, regular) {
            Some(file) => Some(file),
            None => self.get_icon_path(icon),
        };
        assert(self.resolves_to(icon@, regular, path.deep_view()));
        path
    }

    /// The icon of a desktop entry, given the value of its `Icon` key as far
    /// as one was read: what that value resolves to, and nothing where
    /// there is no value.
    pub fn icon_for_field(&self, field: Option<String>) -> (path: Option<String>)
        ensures
            match field {
                Some(icon) => self.may_resolve(icon@, path.deep_view()),
                None => path is None,
            },
    {
        match field {
            Some(icon) => self.icon_for_entry(icon.as_str()),
            None => None,
        }
    }

    /// The icon of the desktop entry at `path`. An entry that cannot be read
    /// or parsed, or that names no icon, has none.
    pub fn get_icon_path_from_desktop(&self, path: &str) -> (icon_path: Option<String>)
        ensures
            icon_path is Some ==> exists|icon: Seq<char>| #[trigger]
                self.may_resolve(icon, icon_path.deep_view()),
    {
        let field = desktop_entry_icon(path);
        let ghost read = field;
        let icon_path = self.icon_for_field(field);
        assert(icon_path is Some ==> self.may_resolve(read.unwrap()@, icon_path.deep_view()));
        icon_path
    }

    /// The directories that may hold the icons: the fallback directories,
    /// then the pack directory where one was resolved.
    pub fn get_dirs(&self) -> (dirs: Vec<String>)
        ensures
            dirs.deep_view() == self.fallback_dirs() + (match self.pack_dir() {
                Some(p) => seq![p],
                None => Seq::empty(),
            }),
    {
        let mut dirs = copy_paths(&self.backup_dirs);
        let ghost before = dirs.deep_view();
        match &self.icon_pack_path {
            Some(p) => {
                dirs.push(p.clone());
                assert(dirs.deep_view() =~= before + seq![p@]);
            },
            None => {
                assert(dirs.deep_view() =~= before + Seq::empty());
            },
        }
        dirs
    }
}

} // verus!
