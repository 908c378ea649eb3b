//! The naming rules of icon files and directories: file names, stems,
//! extensions, the recognized image formats, and how paths are joined.
//!
//! Paths are handled as text with `/` as the separator. The rules here are
//! meant for paths that name a file or a directory, such as those a directory
//! walk reports.

use vstd::prelude::*;
use crate::text::{chars_of, last_index_from, range_spells};

verus! {

/// The final name segment of a path: the text after its last separator.
pub open spec fn file_name(path: Seq<char>) -> Seq<char> {
    match path.index_of_last('/') {
        Some(i) => path.subrange(i + 1, path.len() as int),
        None => path,
    }
}

/// Position, within a file name, of the dot that parts stem and extension:
/// the last dot, unless it is the first character of the name.
pub open spec fn extension_dot(name: Seq<char>) -> Option<int> {
    match name.index_of_last('.') {
        Some(i) => if i > 0 {
            Some(i)
        } else {
            None
        },
        None => None,
    }
}

/// The extension of a path: the text of its file name after the last dot.
/// A name without a dot, or whose only dot comes first, has none.
pub open spec fn extension(path: Seq<char>) -> Option<Seq<char>> {
    let name = file_name(path);
    match extension_dot(name) {
        Some(i) => Some(name.subrange(i + 1, name.len() as int)),
        None => None,
    }
}

/// The stem of a path: its file name without the extension.
pub open spec fn file_stem(path: Seq<char>) -> Seq<char> {
    let name = file_name(path);
    match extension_dot(name) {
        Some(i) => name.subrange(0, i),
        None => name,
    }
}

/// The recognized raster and vector image formats, by extension. The
/// comparison is case-sensitive.
pub open spec fn image_format(ext: Seq<char>) -> bool {
    ||| ext == "apng"@
    ||| ext == "png"@
    ||| ext == "avif"@
    ||| ext == "gif"@
    ||| ext == "jpg"@
    ||| ext == "jpeg"@
    ||| ext == "jfif"@
    ||| ext == "pjpeg"@
    ||| ext == "pjp"@
    ||| ext == "svg"@
    ||| ext == "svgz"@
    ||| ext == "webp"@
    ||| ext == "bmp"@
    ||| ext == "ico"@
    ||| ext == "cur"@
    ||| ext == "tif"@
    ||| ext == "tiff"@
}

/// Whether a path has an extension, and that extension is a recognized image
/// format.
pub open spec fn image_extension(path: Seq<char>) -> bool {
    match extension(path) {
        Some(ext) => image_format(ext),
        None => false,
    }
}

/// The name rule of an icon file: a recognized image extension, and a stem
/// equal to the icon's name.
pub open spec fn icon_file_name(path: Seq<char>, icon: Seq<char>) -> bool {
    image_extension(path) && file_stem(path) == icon
}

/// Whether a path starts at the root.
pub open spec fn absolute(path: Seq<char>) -> bool {
    path.len() > 0 && path[0] == '/'
}

/// `rel` resolved against `base`: an absolute `rel` stands for itself;
/// otherwise it is appended to `base`, with one separator between the two
/// unless `base` is empty or already ends with one.
pub open spec fn joined(base: Seq<char>, rel: Seq<char>) -> Seq<char> {
    if absolute(rel) {
        rel
    } else if base.len() == 0 || base.last() == '/' {
        base + rel
    } else {
        base + seq!['/'] + rel
    }
}

/// The directory that holds a path: the text before its last separator, the
/// root for an entry of the root, and the empty path for a bare name.
pub open spec fn parent(path: Seq<char>) -> Seq<char> {
    match path.index_of_last('/') {
        Some(i) => if i == 0 {
            path.subrange(0, 1)
        } else {
            path.subrange(0, i)
        },
        None => Seq::empty(),
    }
}

/// Where the parts of a path's file name lie, as character positions.
struct NameParts {
    /// First position of the file name.
    start: usize,
    /// Position of the dot before the extension, if the name has one.
    dot: Option<usize>,
}

/// Locates the file name of a path and the dot before its extension.
fn name_parts(chars: &Vec<char>) -> (parts: NameParts)
    ensures
        parts.start <= chars.len(),
        file_name(chars@) == chars@.subrange(parts.start as int, chars.len() as int),
        match parts.dot {
            Some(d) => parts.start < d < chars.len() && extension_dot(file_name(chars@)) == Some(
                d - parts.start,
            ),
            None => extension_dot(file_name(chars@)) is None,
        },
{
    let start: usize = match last_index_from(chars, 0, '/') {
        Some(i) => i + 1,
        None => 0,
    };
    assert(chars@.subrange(0, chars.len() as int) =~= chars@);
    let dot = match last_index_from(chars, start, '.') {
        Some(d) => if d > start {
            Some(d)
        } else {
            None
        },
        None => None,
    };
    NameParts { start, dot }
}

/// Whether `ext` is one of the recognized image formats.
pub fn is_image_format(ext: &str) -> (known: bool)
    ensures
        known == image_format(ext@),
{
    let chars = chars_of(ext);
    assert(chars@.subrange(0, chars.len() as int) =~= ext@);
    range_is_image_format(&chars, 0, chars.len())
}

/// Whether the characters of `chars` from `from` up to `to` spell a
/// recognized image format.
fn range_is_image_format(chars: &Vec<char>, from: usize, to: usize) -> (known: bool)
    requires
        from <= to <= chars.len(),
    ensures
        known == image_format(chars@.subrange(from as int, to as int)),
{
    range_spells(chars, from, to, "apng") || range_spells(chars, from, to, "png") || range_spells(
        chars,
        from,
        to,
        "avif",
    ) || range_spells(chars, from, to, "gif") || range_spells(chars, from, to, "jpg")
        || range_spells(chars, from, to, "jpeg") || range_spells(chars, from, to, "jfif")
        || range_spells(chars, from, to, "pjpeg") || range_spells(chars, from, to, "pjp")
        || range_spells(chars, from, to, "svg") || range_spells(chars, from, to, "svgz")
        || range_spells(chars, from, to, "webp") || range_spells(chars, from, to, "bmp")
        || range_spells(chars, from, to, "ico") || range_spells(chars, from, to, "cur")
        || range_spells(chars, from, to, "tif") || range_spells(chars, from, to, "tiff")
}

/// Whether the file name of `path` is exactly `name`.
pub fn has_file_name(path: &str, name: &str) -> (same: bool)
    ensures
        same == (file_name(path@) == name@),
{
    let chars = chars_of(path);
    let parts = name_parts(&chars);
    range_spells(&chars, parts.start, chars.len(), name)
}

/// Whether the stem of `path` is exactly `stem`.
pub fn has_file_stem(path: &str, stem: &str) -> (same: bool)
    ensures
        same == (file_stem(path@) == stem@),
{
    let chars = chars_of(path);
    let parts = name_parts(&chars);
    let ghost name = file_name(path@);
    match parts.dot {
        Some(d) => {
            assert(name.subrange(0, d - parts.start) =~= chars@.subrange(
                parts.start as int,
                d as int,
            ));
            range_spells(&chars, parts.start, d, stem)
        },
        None => range_spells(&chars, parts.start, chars.len(), stem),
    }
}

/// Whether `path` ends in a recognized image extension.
pub fn has_image_extension(path: &str) -> (known: bool)
    ensures
        known == image_extension(path@),
{
    let chars = chars_of(path);
    let parts = name_parts(&chars);
    let ghost name = file_name(path@);
    match parts.dot {
        Some(d) => {
            assert(name.subrange(d - parts.start + 1, name.len() as int) =~= chars@.subrange(
                d + 1,
                chars.len() as int,
            ));
            range_is_image_format(&chars, d + 1, chars.len())
        },
        None => false,
    }
}

/// Whether `path` is named as an icon file for `icon`: a recognized image
/// extension and a stem equal to `icon`.
pub fn is_icon_file_name(path: &str, icon: &str) -> (named: bool)
    ensures
        named == icon_file_name(path@, icon@),
{
    has_image_extension(path) && has_file_stem(path, icon)
}

/// Whether `path` starts at the root.
pub fn is_absolute(path: &str) -> (rooted: bool)
    ensures
        rooted == absolute(path@),
{
    path.unicode_len() > 0 && path.get_char(0) == '/'
}

/// `rel` resolved against `base`.
pub fn join(base: &str, rel: &str) -> (path: String)
    ensures
        path@ == joined(base@, rel@),
{
    if is_absolute(rel) {
        return rel.to_owned();
    }
    let n = base.unicode_len();
    let mut path = base.to_owned();
    if n > 0 && base.get_char(n - 1) != '/' {
        proof {
            reveal_strlit("/");
        }
        path.append("/");
        assert(path@ =~= base@ + seq!['/']);
    }
    path.append(rel);
    path
}

/// The directory that holds `path`.
pub fn parent_of(path: &str) -> (dir: String)
    ensures
        dir@ == parent(path@),
{
    let chars = chars_of(path);
    assert(chars@.subrange(0, chars.len() as int) =~= chars@);
    match last_index_from(&chars, 0, '/') {
        Some(i) => if i == 0 {
            path.substring_char(0, 1).to_owned()
        } else {
            path.substring_char(0, i).to_owned()
        },
        None => {
            let dir = String::new();
            assert(dir@ =~= Seq::<char>::empty());
            dir
        },
    }
}

/// A path whose extension is not a recognized image format is not named as an
/// icon file, whatever its stem.
pub proof fn unrecognized_extension_is_no_icon(path: Seq<char>, icon: Seq<char>)
    requires
        !image_extension(path),
    ensures
        !icon_file_name(path, icon),
{
}

} // verus!
