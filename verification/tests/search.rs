use tux_icons::search::{
    candidates_among, descends, follows_links, is_named_for, pick_first, probe_for, Probe,
    Target, Walk,
};

fn texts(items: &[&str]) -> Vec<String> {
    items.iter().map(|s| s.to_string()).collect()
}

fn entries(items: &[Option<&str>]) -> Vec<Option<String>> {
    items.iter().map(|e| e.map(|s| s.to_string())).collect()
}

#[test]
fn named_for_a_directory_is_by_file_name() {
    assert!(is_named_for(Target::Directory, "hicolor", "/usr/share/icons/hicolor"));
    assert!(!is_named_for(Target::Directory, "hicolor", "/usr/share/icons/hicolor/apps"));
    assert!(is_named_for(Target::Directory, "hicolor.png", "/usr/share/icons/hicolor.png"));
}

#[test]
fn named_for_an_icon_is_by_stem_and_extension() {
    assert!(is_named_for(Target::IconFile, "firefox", "/usr/share/pixmaps/firefox.png"));
    assert!(!is_named_for(Target::IconFile, "firefox", "/usr/share/pixmaps/firefox"));
    assert!(!is_named_for(Target::IconFile, "firefox", "/usr/share/pixmaps/firefox.txt"));
}

#[test]
fn candidates_keep_walk_order_and_skip_failed_entries() {
    let walked = entries(&[
        Some("/p"),
        Some("/p/16x16"),
        Some("/p/16x16/foo.png"),
        None,
        Some("/p/16x16/foo.txt"),
        Some("/p/16x16/bar.png"),
        Some("/p/scalable"),
        Some("/p/scalable/foo.svg"),
        None,
        Some("/p/scalable/foo"),
        Some("/p/foo.svg/other.png"),
    ]);
    assert_eq!(
        candidates_among(&walked, Target::IconFile, "foo"),
        texts(&["/p/16x16/foo.png", "/p/scalable/foo.svg"])
    );
    assert_eq!(candidates_among(&walked, Target::IconFile, "baz"), Vec::<String>::new());
    assert_eq!(
        candidates_among(&walked, Target::Directory, "foo.svg"),
        texts(&["/p/scalable/foo.svg"])
    );
    assert_eq!(
        candidates_among(&walked, Target::Directory, "16x16"),
        texts(&["/p/16x16"])
    );
    assert_eq!(candidates_among(&Vec::new(), Target::IconFile, "foo"), Vec::<String>::new());
}

#[test]
fn pick_first_takes_the_first_flagged() {
    let paths = texts(&["/a/foo.png", "/b/foo.png", "/c/foo.png"]);
    assert_eq!(pick_first(&paths, &vec![true, true, true]), Some("/a/foo.png".to_string()));
    assert_eq!(pick_first(&paths, &vec![false, true, true]), Some("/b/foo.png".to_string()));
    assert_eq!(pick_first(&paths, &vec![false, false, true]), Some("/c/foo.png".to_string()));
    assert_eq!(pick_first(&paths, &vec![false, false, false]), None);
    assert_eq!(pick_first(&Vec::new(), &Vec::new()), None);
}

#[test]
fn hicolor_resolves_under_the_shared_icons() {
    let walked = entries(&[
        Some("/usr/share/icons"),
        Some("/usr/share/icons/Adwaita"),
        Some("/usr/share/icons/Adwaita/hicolor.png"),
        Some("/usr/share/icons/hicolor"),
        Some("/usr/share/icons/hicolor/48x48"),
        Some("/usr/share/icons/hicolor/48x48/apps"),
        Some("/usr/share/icons/hicolor/48x48/apps/firefox.png"),
    ]);
    let packs = candidates_among(&walked, Target::Directory, "hicolor");
    assert_eq!(packs, texts(&["/usr/share/icons/hicolor"]));
    assert_eq!(pick_first(&packs, &vec![true]), Some("/usr/share/icons/hicolor".to_string()));

    let icons = candidates_among(&walked, Target::IconFile, "firefox");
    assert_eq!(icons, texts(&["/usr/share/icons/hicolor/48x48/apps/firefox.png"]));
    assert_eq!(
        pick_first(&icons, &vec![true]),
        Some("/usr/share/icons/hicolor/48x48/apps/firefox.png".to_string())
    );
}

#[test]
fn pick_first_ignores_flags_without_a_path() {
    let paths = texts(&["/a/foo.png"]);
    assert_eq!(pick_first(&paths, &vec![false, true]), None);
    assert_eq!(pick_first(&paths, &Vec::new()), None);
    assert_eq!(pick_first(&paths, &vec![true, true]), Some("/a/foo.png".to_string()));
}

#[test]
fn each_target_has_its_question() {
    assert_eq!(probe_for(Target::Directory), Probe::Directory);
    assert_eq!(probe_for(Target::IconFile), Probe::RegularFile);
}

#[test]
fn each_walk_has_its_depth_and_its_way_with_links() {
    assert!(descends(Walk::Tree));
    assert!(descends(Walk::TreeThroughLinks));
    assert!(!descends(Walk::Entries));
    assert!(!follows_links(Walk::Tree));
    assert!(follows_links(Walk::TreeThroughLinks));
    assert!(!follows_links(Walk::Entries));
}
