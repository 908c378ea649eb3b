//! The directory catalog: where icon packs may live, where loose icons are
//! looked for when a pack does not hold them, and how the directory of a
//! pack is found by its name.

use vstd::prelude::*;
use crate::disk::{home_directory, path_is_file};
use crate::names::{file_name, file_stem, has_file_stem, join, joined};
use crate::search::{may_be_found, plan_of, probe_each, search, Probe, SearchScope, Target, Walk};
use crate::text::{split, split_text};

verus! {

/// A fault of the configuration that no lookup can recover from.
#[derive(Clone, Copy, Debug, PartialEq, Eq, Structural)]
pub enum ConfigError {
    /// The home directory of the user cannot be determined.
    HomeDirectoryUnknown,
}

/// One of the two directory lists of the catalog.
#[derive(Clone, Copy, Debug, PartialEq, Eq, Structural)]
pub enum Catalog {
    /// The roots of icon packs.
    PackRoots,
    /// The fallback directories.
    BackupDirs,
}

/// The `icons` folder of each data directory, in order. An empty segment
/// names no data directory.
pub open spec fn icon_folders(data_dirs: Seq<Seq<char>>) -> Seq<Seq<char>>
    decreases data_dirs.len(),
{
    if data_dirs.len() == 0 {
        Seq::empty()
    } else {
        let init = icon_folders(data_dirs.drop_last());
        if data_dirs.last().len() == 0 {
            init
        } else {
            init.push(joined(data_dirs.last(), "icons"@))
        }
    }
}

/// The roots that are always tried after those of the data directories.
pub open spec fn fixed_pack_roots(home: Seq<char>) -> Seq<Seq<char>> {
    seq![
        "/usr/share/icons"@,
        joined(home, ".icons"@),
        joined(home, ".local/share/icons"@),
        joined(home, ".local/share/pixmaps"@),
        "/var/lib/flatpak/exports/share/icons"@,
    ]
}

/// Every directory that may be a root of icon packs, in the order in which
/// the roots are tried: the `icons` folder of each directory that the
/// colon-separated list `data_dirs` names, then the fixed roots.
pub open spec fn pack_root_candidates(data_dirs: Seq<char>, home: Seq<char>) -> Seq<Seq<char>> {
    icon_folders(split(data_dirs, ':')) + fixed_pack_roots(home)
}

/// Every directory that may serve as a fallback for loose icons, in search
/// order.
pub open spec fn backup_candidates(home: Seq<char>) -> Seq<Seq<char>> {
    seq![
        joined(home, ".local/share/icons/hicolor"@),
        joined(home, ".local/share/icons/pixmaps"@),
        "/usr/share/icons/hicolor"@,
        "/usr/share/pixmaps"@,
        "/var/lib/flatpak/app/"@,
        joined(home, ".local/share/flatpak"@),
    ]
}

/// `dirs` with `path` added at the end, where `path` is present on disk and
/// not yet among `dirs`.
pub open spec fn added(dirs: Seq<Seq<char>>, path: Seq<char>, present: bool) -> Seq<Seq<char>> {
    if present && !dirs.contains(path) {
        dirs.push(path)
    } else {
        dirs
    }
}

/// Whether the flag at position `i` is there and set.
pub open spec fn flagged(present: Seq<bool>, i: int) -> bool {
    0 <= i < present.len() && present[i]
}

/// The candidates whose flag is set, each once, in the order of their first
/// occurrence. The flag of a candidate stands at the position of the
/// candidate.
pub open spec fn distinct_present(paths: Seq<Seq<char>>, present: Seq<bool>) -> Seq<Seq<char>>
    decreases paths.len(),
{
    if paths.len() == 0 {
        Seq::empty()
    } else {
        added(
            distinct_present(paths.drop_last(), present),
            paths.last(),
            flagged(present, paths.len() - 1),
        )
    }
}

/// The candidates whose flag is set, in order. The flag of a candidate
/// stands at the position of the candidate.
pub open spec fn all_present(paths: Seq<Seq<char>>, present: Seq<bool>) -> Seq<Seq<char>>
    decreases paths.len(),
{
    if paths.len() == 0 {
        Seq::empty()
    } else {
        let init = all_present(paths.drop_last(), present);
        if flagged(present, paths.len() - 1) {
            init.push(paths.last())
        } else {
            init
        }
    }
}

/// The scopes of a search for a pack: the tree under each root, in order.
pub open spec fn pack_search_plan(roots: Seq<Seq<char>>) -> Seq<(Seq<char>, Walk)> {
    Seq::new(roots.len(), |i: int| (roots[i], Walk::Tree))
}

/// Whether `roots` is what is left of the pack root candidates under some
/// state of the disk: those that are present, each once, in order.
pub open spec fn pack_roots_of(roots: Seq<Seq<char>>, data_dirs: Seq<char>, home: Seq<char>) -> bool {
    exists|present: Seq<bool>|
        present.len() == pack_root_candidates(data_dirs, home).len() && roots
            == #[trigger] distinct_present(pack_root_candidates(data_dirs, home), present)
}

/// Whether `dirs` is what is left of the backup candidates under some state
/// of the disk: those that are present, in order.
pub open spec fn backup_dirs_of(dirs: Seq<Seq<char>>, home: Seq<char>) -> bool {
    exists|present: Seq<bool>|
        present.len() == backup_candidates(home).len() && dirs == #[trigger] all_present(
            backup_candidates(home),
            present,
        )
}

/// Whether `found` is what the search for the pack called `name` returns
/// under some state of the disk: the first directory of that name, in walk
/// order, under the roots that the disk leaves of the pack root candidates.
pub open spec fn may_be_pack_path(
    name: Seq<char>,
    data_dirs: Seq<char>,
    home: Seq<char>,
    found: Option<Seq<char>>,
) -> bool {
    exists|roots: Seq<Seq<char>>|
        pack_roots_of(roots, data_dirs, home) && #[trigger] may_be_found(
            pack_search_plan(roots),
            Target::Directory,
            name,
            found,
        )
}

/// Whether `path` is one of the candidates whose flag is set.
pub open spec fn flagged_candidate(
    paths: Seq<Seq<char>>,
    present: Seq<bool>,
    path: Seq<char>,
) -> bool {
    exists|i: int| 0 <= i < paths.len() && flagged(present, i) && #[trigger] paths[i] == path
}

/// A catalog never lists a directory twice, and lists only candidates whose
/// flag is set.
pub proof fn distinct_present_has_no_duplicates(paths: Seq<Seq<char>>, present: Seq<bool>)
    ensures
        distinct_present(paths, present).no_duplicates(),
        forall|k: int|
            0 <= k < distinct_present(paths, present).len() ==> flagged_candidate(
                paths,
                present,
                #[trigger] distinct_present(paths, present)[k],
            ),
    decreases paths.len(),
{
    if paths.len() > 0 {
        let init = distinct_present(paths.drop_last(), present);
        let all = distinct_present(paths, present);
        distinct_present_has_no_duplicates(paths.drop_last(), present);
        assert forall|k: int| 0 <= k < all.len() implies flagged_candidate(
            paths,
            present,
            #[trigger] all[k],
        ) by {
            if k < init.len() {
                assert(flagged_candidate(paths.drop_last(), present, init[k]));
                let i = choose|i: int|
                    0 <= i < paths.drop_last().len() && flagged(present, i)
                        && #[trigger] paths.drop_last()[i] == init[k];
                assert(paths[i] == all[k]);
            } else {
                assert(paths[paths.len() - 1] == all[k]);
            }
        }
    }
}

/// A catalog lists every candidate whose flag is set.
pub proof fn distinct_present_lists_each(paths: Seq<Seq<char>>, present: Seq<bool>, i: int)
    requires
        0 <= i < paths.len(),
        flagged(present, i),
    ensures
        distinct_present(paths, present).contains(paths[i]),
    decreases paths.len(),
{
    let init = distinct_present(paths.drop_last(), present);
    let all = distinct_present(paths, present);
    if i < paths.len() - 1 {
        distinct_present_lists_each(paths.drop_last(), present, i);
        let k = choose|k: int| 0 <= k < init.len() && init[k] == paths[i];
        assert(all[k] == paths[i]);
    } else {
        if init.contains(paths[i]) {
            let k = choose|k: int| 0 <= k < init.len() && init[k] == paths[i];
            assert(all[k] == paths[i]);
        } else {
            assert(all[all.len() - 1] == paths[i]);
        }
    }
}

/// The home directory, or the fault that it is unknown.
pub fn require_home(home: Option<String>) -> (known: Result<String, ConfigError>)
    ensures
        match home {
            Some(h) => known == Ok::<String, ConfigError>(h),
            None => known == Err::<String, ConfigError>(ConfigError::HomeDirectoryUnknown),
        },
{
    match home {
        Some(h) => Ok(h),
        None => Err(ConfigError::HomeDirectoryUnknown),
    }
}

/// The `icons` folder of each directory that the colon-separated list
/// `data_dirs` names.
pub fn data_dir_icon_folders(data_dirs: &str) -> (folders: Vec<String>)
    ensures
        folders.deep_view() == icon_folders(split(data_dirs@, ':')),
{
    let segments = split_text(data_dirs, ':');
    let mut folders: Vec<String> = Vec::new();
    let mut i: usize = 0;
    assert(segments.deep_view().take(0) =~= Seq::empty());
    assert(folders.deep_view() =~= Seq::empty());
    while i < segments.len()
        invariant
            i <= segments.len(),
            folders.deep_view() == icon_folders(segments.deep_view().take(i as int)),
        decreases segments.len() - i,
    {
        let ghost before = folders.deep_view();
        let ghost prefix = segments.deep_view().take(i as int + 1);
        assert(prefix.drop_last() =~= segments.deep_view().take(i as int));
        assert(prefix.last() == segments[i as int]@);
        let segment = segments[i].as_str();
        if segment.unicode_len() > 0 {
            let folder = join(segment, "icons");
            folders.push(folder);
            assert(folders.deep_view() =~= before.push(joined(segment@, "icons"@)));
        }
        i += 1;
    }
    assert(segments.deep_view().take(i as int) =~= segments.deep_view());
    folders
}

/// Every directory that may be a root of icon packs, in the order in which
/// the roots are tried.
pub fn list_pack_root_candidates(data_dirs: &str, home: &str) -> (roots: Vec<String>)
    ensures
        roots.deep_view() == pack_root_candidates(data_dirs@, home@),
{
    let mut roots = data_dir_icon_folders(data_dirs);
    let ghost folders = roots.deep_view();
    roots.push("/usr/share/icons".to_owned());
    roots.push(join(home, ".icons"));
    roots.push(join(home, ".local/share/icons"));
    roots.push(join(home, ".local/share/pixmaps"));
    roots.push("/var/lib/flatpak/exports/share/icons".to_owned());
    assert(roots.deep_view() =~= folders + fixed_pack_roots(home@));
    roots
}

/// Every directory that may serve as a fallback for loose icons, in search
/// order.
pub fn list_backup_candidates(home: &str) -> (dirs: Vec<String>)
    ensures
        dirs.deep_view() == backup_candidates(home@),
{
    let mut dirs: Vec<String> = Vec::new();
    dirs.push(join(home, ".local/share/icons/hicolor"));
    dirs.push(join(home, ".local/share/icons/pixmaps"));
    dirs.push("/usr/share/icons/hicolor".to_owned());
    dirs.push("/usr/share/pixmaps".to_owned());
    dirs.push("/var/lib/flatpak/app/".to_owned());
    dirs.push(join(home, ".local/share/flatpak"));
    assert(dirs.deep_view() =~= backup_candidates(home@));
    dirs
}

/// Whether `path` is one of `dirs`.
fn lists(dirs: &Vec<String>, path: &str) -> (listed: bool)
    ensures
        listed == dirs.deep_view().contains(path@),
{
    let wanted = path.to_owned();
    let mut i: usize = 0;
    while i < dirs.len()
        invariant
            i <= dirs.len(),
            wanted@ == path@,
            forall|j: int| 0 <= j < i ==> dirs.deep_view()[j] != path@,
        decreases dirs.len() - i,
    {
        if dirs[i] == wanted {
            assert(dirs.deep_view()[i as int] == path@);
            return true;
        }
        i += 1;
    }
    false
}

/// Adds `path` at the end of `dirs` where it is present on disk, as `exists`
/// reports, and not yet listed; hands `dirs` back unchanged otherwise.
pub fn add_if_exists(dirs: Vec<String>, path: &str, exists: bool) -> (out: Vec<String>)
    ensures
        out.deep_view() == added(dirs.deep_view(), path@, exists),
{
    if exists && !lists(&dirs, path) {
        let ghost before = dirs.deep_view();
        let mut out = dirs;
        out.push(path.to_owned());
        assert(out.deep_view() =~= before.push(path@));
        out
    } else {
        dirs
    }
}

/// The candidates whose flag is set, each once, in the order of their first
/// occurrence. A candidate without a flag counts as not set.
pub fn keep_distinct_present(paths: &Vec<String>, present: &Vec<bool>) -> (kept: Vec<String>)
    ensures
        kept.deep_view() == distinct_present(paths.deep_view(), present@),
{
    let mut kept: Vec<String> = Vec::new();
    let mut i: usize = 0;
    assert(paths.deep_view().take(0) =~= Seq::empty());
    assert(kept.deep_view() =~= Seq::empty());
    while i < paths.len()
        invariant
            i <= paths.len(),
            kept.deep_view() == distinct_present(paths.deep_view().take(i as int), present@),
        decreases paths.len() - i,
    {
        assert(paths.deep_view().take(i as int + 1).drop_last() =~= paths.deep_view().take(
            i as int,
        ));
        assert(paths.deep_view().take(i as int + 1).last() == paths[i as int]@);
        let set = i < present.len() && present[i];
        kept = add_if_exists(kept, paths[i].as_str(), set);
        i += 1;
    }
    assert(paths.deep_view().take(i as int) =~= paths.deep_view());
    kept
}

/// The candidates whose flag is set, in order. A candidate without a flag
/// counts as not set.
pub fn keep_present(paths: &Vec<String>, present: &Vec<bool>) -> (kept: Vec<String>)
    ensures
        kept.deep_view() == all_present(paths.deep_view(), present@),
{
    let mut kept: Vec<String> = Vec::new();
    let mut i: usize = 0;
    assert(paths.deep_view().take(0) =~= Seq::empty());
    assert(kept.deep_view() =~= Seq::empty());
    while i < paths.len()
        invariant
            i <= paths.len(),
            kept.deep_view() == all_present(paths.deep_view().take(i as int), present@),
        decreases paths.len() - i,
    {
        let ghost before = kept.deep_view();
        assert(paths.deep_view().take(i as int + 1).drop_last() =~= paths.deep_view().take(
            i as int,
        ));
        assert(paths.deep_view().take(i as int + 1).last() == paths[i as int]@);
        if i < present.len() && present[i] {
            kept.push(paths[i].clone());
            assert(kept.deep_view() =~= before.push(paths[i as int]@));
        }
        i += 1;
    }
    assert(paths.deep_view().take(i as int) =~= paths.deep_view());
    kept
}

/// The question that admits a candidate to `catalog`: a root of icon packs
/// must be a directory; a fallback directory must exist.
pub fn catalog_probe(catalog: Catalog) -> (probe: Probe)
    ensures
        probe == (match catalog {
            Catalog::PackRoots => Probe::Directory,
            Catalog::BackupDirs => Probe::Exists,
        }),
{
    match catalog {
        Catalog::PackRoots => Probe::Directory,
        Catalog::BackupDirs => Probe::Exists,
    }
}

/// The roots of icon packs for a user whose home directory is `home`: the
/// pack root candidates that are directories on disk, each once, in order.
pub fn icon_packs_dirs_in(data_dirs: &str, home: &str) -> (roots: Vec<String>)
    ensures
        pack_roots_of(roots.deep_view(), data_dirs@, home@),
        roots.deep_view().no_duplicates(),
{
    let paths = list_pack_root_candidates(data_dirs, home);
    let present = probe_each(&paths, catalog_probe(Catalog::PackRoots));
    let roots = keep_distinct_present(&paths, &present);
    proof {
        distinct_present_has_no_duplicates(paths.deep_view(), present@);
    }
    roots
}

/// The roots of icon packs, given the home directory as far as it is known:
/// those for that home directory, or the fault that there is none.
pub fn icon_packs_dirs_for(data_dirs: &str, home: Option<String>) -> (roots: Result<
    Vec<String>,
    ConfigError,
>)
    ensures
        match home {
            Some(h) => roots matches Ok(found) && pack_roots_of(found.deep_view(), data_dirs@, h@)
                && found.deep_view().no_duplicates(),
            None => roots matches Err(e) && e == ConfigError::HomeDirectoryUnknown,
        },
{
    match require_home(home) {
        Ok(h) => Ok(icon_packs_dirs_in(data_dirs, h.as_str())),
        Err(e) => Err(e),
    }
}

/// The roots of icon packs for the current user, given the value of
/// `XDG_DATA_DIRS` (the empty text where it is unset).
///
/// Fails only where the home directory is unknown.
pub fn get_icon_packs_dirs(data_dirs: &str) -> (roots: Result<Vec<String>, ConfigError>)
    ensures
        roots matches Ok(found) ==> found.deep_view().no_duplicates(),
        roots matches Ok(found) ==> exists|home: Seq<char>| #[trigger]
            pack_roots_of(found.deep_view(), data_dirs@, home),
        roots matches Err(e) ==> e == ConfigError::HomeDirectoryUnknown,
{
    let home = home_directory();
    let ghost known = home;
    let roots = icon_packs_dirs_for(data_dirs, home);
    assert(roots matches Ok(f) ==> pack_roots_of(f.deep_view(), data_dirs@, known.unwrap()@));
    roots
}

/// The fallback directories for a user whose home directory is `home`: the
/// backup candidates that exist on disk, in order.
pub fn backup_dirs_in(home: &str) -> (dirs: Vec<String>)
    ensures
        backup_dirs_of(dirs.deep_view(), home@),
{
    let paths = list_backup_candidates(home);
    let present = probe_each(&paths, catalog_probe(Catalog::BackupDirs));
    keep_present(&paths, &present)
}

/// The fallback directories, given the home directory as far as it is
/// known: those for that home directory, or the fault that there is none.
pub fn backup_dirs_for(home: Option<String>) -> (backups: Result<Vec<String>, ConfigError>)
    ensures
        match home {
            Some(h) => backups matches Ok(found) && backup_dirs_of(found.deep_view(), h@),
            None => backups matches Err(e) && e == ConfigError::HomeDirectoryUnknown,
        },
{
    match require_home(home) {
        Ok(h) => Ok(backup_dirs_in(h.as_str())),
        Err(e) => Err(e),
    }
}

/// The fallback directories for the current user.
///
/// Fails only where the home directory is unknown.
pub fn get_backup_dirs() -> (backups: Result<Vec<String>, ConfigError>)
    ensures
        backups matches Ok(found) ==> exists|home: Seq<char>| #[trigger]
            backup_dirs_of(found.deep_view(), home),
        backups matches Err(e) ==> e == ConfigError::HomeDirectoryUnknown,
{
    let home = home_directory();
    let ghost known = home;
    let backups = backup_dirs_for(home);
    assert(backups matches Ok(f) ==> backup_dirs_of(f.deep_view(), known.unwrap()@));
    backups
}

/// The scopes of a search for a pack under `roots`.
pub fn pack_search_scopes(roots: &Vec<String>) -> (scopes: Vec<SearchScope>)
    ensures
        plan_of(scopes@) == pack_search_plan(roots.deep_view()),
{
    let mut scopes: Vec<SearchScope> = Vec::new();
    let mut i: usize = 0;
    while i < roots.len()
        invariant
            i <= roots.len(),
            scopes.len() == i,
            forall|k: int| 0 <= k < i ==> scopes[k].dir@ == roots[k]@ && scopes[k].walk == Walk::Tree,
        decreases roots.len() - i,
    {
        scopes.push(SearchScope { dir: roots[i].clone(), walk: Walk::Tree });
        i += 1;
    }
    assert(plan_of(scopes@) =~= pack_search_plan(roots.deep_view()));
    scopes
}

/// Looks under each of `roots`, in order, for a directory whose file name is
/// `name`: each root is walked depth first, without following symbolic
/// links, and the first directory of that name wins.
pub fn pack_path_under(roots: &Vec<String>, name: &str) -> (found: Option<String>)
    ensures
        may_be_found(
            pack_search_plan(roots.deep_view()),
            Target::Directory,
            name@,
            found.deep_view(),
        ),
        match found {
            Some(p) => file_name(p@) == name@ && exists|k: int|
                0 <= k < roots.len() && (#[trigger] roots[k])@.is_prefix_of(p@),
            None => true,
        },
{
    let scopes = pack_search_scopes(roots);
    let found = search(&scopes, Target::Directory, name);
    proof {
        if let Some(p) = &found {
            let k = choose|k: int|
                0 <= k < scopes.len() && (#[trigger] scopes[k]).dir@.is_prefix_of(p@);
            assert(plan_of(scopes@)[k] == pack_search_plan(roots.deep_view())[k]);
            assert(roots[k]@.is_prefix_of(p@));
        }
    }
    found
}

/// The directory of the icon pack called `name`, for a user whose home
/// directory is `home`: the first directory of that name under the roots of
/// icon packs. A pack that is not found is no failure.
pub fn icon_pack_path_in(name: &str, data_dirs: &str, home: &str) -> (found: Option<String>)
    ensures
        may_be_pack_path(name@, data_dirs@, home@, found.deep_view()),
        match found {
            Some(p) => file_name(p@) == name@,
            None => true,
        },
{
    let roots = icon_packs_dirs_in(data_dirs, home);
    let found = pack_path_under(&roots, name);
    assert(pack_roots_of(roots.deep_view(), data_dirs@, home@) && may_be_found(
        pack_search_plan(roots.deep_view()),
        Target::Directory,
        name@,
        found.deep_view(),
    ));
    found
}

/// The directory of the icon pack called `name`, given the home directory
/// as far as it is known: what the search for that home directory gives, or
/// the fault that there is none. A pack that is not found is no failure.
pub fn icon_pack_path_for(name: &str, data_dirs: &str, home: Option<String>) -> (found: Result<
    Option<String>,
    ConfigError,
>)
    ensures
        match home {
            Some(h) => found matches Ok(path) && may_be_pack_path(
                name@,
                data_dirs@,
                h@,
                path.deep_view(),
            ) && (path matches Some(p) ==> file_name(p@) == name@),
            None => found matches Err(e) && e == ConfigError::HomeDirectoryUnknown,
        },
{
    match require_home(home) {
        Ok(h) => Ok(icon_pack_path_in(name, data_dirs, h.as_str())),
        Err(e) => Err(e),
    }
}

/// The directory of the icon pack called `name` for the current user, given
/// the value of `XDG_DATA_DIRS` (the empty text where it is unset).
///
/// Fails only where the home directory is unknown. A pack that is not found
/// is no failure.
pub fn get_icon_pack_path(name: &str, data_dirs: &str) -> (found: Result<
    Option<String>,
    ConfigError,
>)
    ensures
        found matches Ok(path) ==> exists|home: Seq<char>| #[trigger]
            may_be_pack_path(name@, data_dirs@, home, path.deep_view()),
        found matches Ok(Some(p)) ==> file_name(p@) == name@,
        found matches Err(e) ==> e == ConfigError::HomeDirectoryUnknown,
{
    let home = home_directory();
    let ghost known = home;
    let found = icon_pack_path_for(name, data_dirs, home);
    assert(found matches Ok(path) ==> may_be_pack_path(
        name@,
        data_dirs@,
        known.unwrap()@,
        path.deep_view(),
    ));
    found
}

/// Whether `path` is a regular file, as `regular` reports, whose stem is
/// `icon`.
pub fn file_with_stem(regular: bool, path: &str, icon: &str) -> (matches: bool)
    ensures
        matches == (regular && file_stem(path@) == icon@),
{
    regular && has_file_stem(path, icon)
}

/// Whether `path` is a regular file on disk whose stem is `icon`. The
/// extension is not looked at.
pub fn file_matches_icon(path: &str, icon: &str) -> (matches: bool)
    ensures
        matches ==> file_stem(path@) == icon@,
{
    file_with_stem(path_is_file(path), path, icon)
}

} // verus!
