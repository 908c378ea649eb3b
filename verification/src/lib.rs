//! Resolves the on-disk path of an icon from an icon name or a desktop entry,
//! following the icon-pack and fallback-directory conventions of Linux
//! desktops.
//!
//! - [`names`] holds the naming rules: file names, stems, extensions, the
//!   recognized image formats, and how paths are joined.
//! - [`paths`] is the directory catalog: the roots of icon packs, the
//!   fallback directories, and the directory of a pack.
//! - [`search`] is the first-match search over what directory walks report.
//! - [`icon_fetcher`] holds the resolver and its lookups.
//! - [`disk`] is where the file system and the environment are asked.
//! - [`text`] holds the character-level helpers.
//!
//! Paths are text. What a lookup returns depends on the disk, so its
//! contract says which results are possible: the result is the first match
//! of what the scopes of the search show, in their order, whatever they
//! show.

pub mod disk;
pub mod icon_fetcher;
pub mod names;
pub mod paths;
pub mod search;
pub mod text;
