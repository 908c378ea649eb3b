use tux_icons::names::{
    has_file_name, has_file_stem, has_image_extension, is_absolute, is_icon_file_name,
    is_image_format, join, parent_of,
};
use tux_icons::text::{chars_of, split_text, strip_quotes};

#[test]
fn every_recognized_format_is_known() {
    let formats = [
        "apng", "png", "avif", "gif", "jpg", "jpeg", "jfif", "pjpeg", "pjp", "svg", "svgz",
        "webp", "bmp", "ico", "cur", "tif", "tiff",
    ];
    for format in formats {
        assert!(is_image_format(format), "{format}");
    }
}

#[test]
fn other_extensions_are_not_formats() {
    for ext in ["txt", "", "PNG", "Svg", "pn", "pngx", "xpm", "desktop", "jp"] {
        assert!(!is_image_format(ext), "{ext}");
    }
}

#[test]
fn icon_file_name_needs_stem_and_extension() {
    assert!(is_icon_file_name("/usr/share/icons/hicolor/48x48/apps/firefox.png", "firefox"));
    assert!(is_icon_file_name("firefox.svg", "firefox"));
    assert!(!is_icon_file_name("/usr/share/icons/firefox.png", "firefo"));
    assert!(!is_icon_file_name("/usr/share/icons/firefox.png", "firefox.png"));
    assert!(!is_icon_file_name("/usr/share/firefox/icon.png", "firefox"));
}

#[test]
fn unrecognized_extension_never_matches() {
    assert!(!is_icon_file_name("/icons/foo.txt", "foo"));
    assert!(!is_icon_file_name("/icons/foo", "foo"));
    assert!(!is_icon_file_name("/icons/foo.PNG", "foo"));
    assert!(!is_icon_file_name("/icons/foo.", "foo"));
    assert!(has_file_stem("/icons/foo.txt", "foo"));
}

#[test]
fn only_the_last_extension_counts() {
    assert!(is_icon_file_name("/icons/org.gnome.Files.svg", "org.gnome.Files"));
    assert!(!is_icon_file_name("/icons/org.gnome.Files.svg", "org"));
    assert!(has_image_extension("/icons/archive.tar.png"));
    assert!(!has_image_extension("/icons/picture.png.bak"));
}

#[test]
fn leading_dot_is_part_of_the_stem() {
    assert!(!has_image_extension("/icons/.png"));
    assert!(has_file_stem("/icons/.png", ".png"));
    assert!(!is_icon_file_name("/icons/.png", ""));
    assert!(is_icon_file_name("/icons/.hidden.png", ".hidden"));
}

#[test]
fn dots_in_directories_do_not_count() {
    assert!(!has_image_extension("/icons.png/readme"));
    assert!(has_file_stem("/icons.png/readme", "readme"));
}

#[test]
fn file_name_is_the_last_segment() {
    assert!(has_file_name("/usr/share/icons/hicolor", "hicolor"));
    assert!(has_file_name("hicolor", "hicolor"));
    assert!(!has_file_name("/usr/share/icons/hicolor", "icons"));
    assert!(!has_file_name("/usr/share/icons/hicolor", "Hicolor"));
    assert!(!has_file_name("/usr/share/icons/hicolor-dark", "hicolor"));
    assert!(has_file_name("/usr/share/icons/", ""));
}

#[test]
fn absolute_paths_start_at_the_root() {
    assert!(is_absolute("/usr/share/icons/a.png"));
    assert!(is_absolute("/"));
    assert!(!is_absolute("a.png"));
    assert!(!is_absolute(""));
    assert!(!is_absolute("./a.png"));
}

#[test]
fn join_puts_one_separator() {
    assert_eq!(join("/usr/share", "icons"), "/usr/share/icons");
    assert_eq!(join("/usr/share/", "icons"), "/usr/share/icons");
    assert_eq!(join("", "icons"), "icons");
    assert_eq!(join("/", "icons"), "/icons");
    assert_eq!(join("/home/u", ".local/share/icons"), "/home/u/.local/share/icons");
}

#[test]
fn join_keeps_an_absolute_path() {
    assert_eq!(join("/home/u", "/real/icon.png"), "/real/icon.png");
    assert_eq!(join("", "/real/icon.png"), "/real/icon.png");
}

#[test]
fn parent_is_the_holding_directory() {
    assert_eq!(parent_of("/a/b/icon.png"), "/a/b");
    assert_eq!(parent_of("/icon.png"), "/");
    assert_eq!(parent_of("icon.png"), "");
    assert_eq!(parent_of("icons/icon.png"), "icons");
}

#[test]
fn split_keeps_empty_segments() {
    assert_eq!(split_text("/a:/b", ':'), vec!["/a".to_string(), "/b".to_string()]);
    assert_eq!(split_text("", ':'), vec!["".to_string()]);
    assert_eq!(split_text("/a", ':'), vec!["/a".to_string()]);
    assert_eq!(
        split_text(":/a::/b:", ':'),
        vec!["".to_string(), "/a".to_string(), "".to_string(), "/b".to_string(), "".to_string()]
    );
}

#[test]
fn split_counts_characters_not_bytes() {
    assert_eq!(split_text("/é:/ü", ':'), vec!["/é".to_string(), "/ü".to_string()]);
}

#[test]
fn strip_quotes_takes_out_quotes_and_line_feeds() {
    assert_eq!(strip_quotes("'Adwaita'\n"), "Adwaita");
    assert_eq!(strip_quotes("Papirus-Dark"), "Papirus-Dark");
    assert_eq!(strip_quotes("''\n\n"), "");
    assert_eq!(strip_quotes("a'b\nc"), "abc");
    assert_eq!(strip_quotes("\"quoted\""), "\"quoted\"");
}

#[test]
fn chars_of_a_text() {
    assert_eq!(chars_of("a/b.png"), vec!['a', '/', 'b', '.', 'p', 'n', 'g']);
    assert_eq!(chars_of(""), Vec::<char>::new());
    assert_eq!(chars_of("é/ü"), vec!['é', '/', 'ü']);
}
