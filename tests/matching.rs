use launchthing::{
    contains, expand_home, get_icon_name_from_path, same_text, starts_with_char, AppEntry,
    AppResults, Catalog, DirEntry, FileBrowser, Lookup, Mode,
};

fn app(name: &str) -> AppEntry {
    AppEntry::new(name.to_string(), None, true, true)
}

fn catalog_of(names: &[&str]) -> Catalog {
    Catalog::new(names.iter().map(|n| app(n)).collect())
}

fn entry(dir: &str, name: &str, is_dir: bool) -> DirEntry {
    DirEntry::new(name.to_string(), format!("{}/{}", dir, name), is_dir)
}

fn kept_names(browser: FileBrowser) -> Vec<String> {
    browser
        .create_list_items()
        .into_iter()
        .map(|c| match c {
            launchthing::Candidate::Path { path, .. } => path,
            other => panic!("unexpected candidate {:?}", other),
        })
        .collect()
}

#[test]
fn contains_finds_inner_run() {
    assert!(contains("firefox", "ref"));
    assert!(contains("firefox", "firefox"));
    assert!(!contains("firefox", "fox!"));
    assert!(!contains("fi", "fir"));
}

#[test]
fn contains_empty_needle_everywhere() {
    assert!(contains("", ""));
    assert!(contains("abc", ""));
}

#[test]
fn starts_with_char_checks_first_only() {
    assert!(starts_with_char("~/x", '~'));
    assert!(!starts_with_char("a~", '~'));
    assert!(!starts_with_char("", '~'));
}

#[test]
fn expand_home_replaces_every_tilde() {
    assert_eq!(expand_home("~/docs", "/home/u"), "/home/u/docs");
    assert_eq!(expand_home("~", "/home/u"), "/home/u");
    assert_eq!(expand_home("/a~b~", "/h"), "/a/hb/h");
    assert_eq!(expand_home("/tmp", "/h"), "/tmp");
}

#[test]
fn same_text_compares_characters() {
    assert!(same_text("pdf", "pdf"));
    assert!(!same_text("pdf", "pd"));
    assert!(!same_text("pdf", "PDF"));
}

#[test]
fn app_mode_rejects_path_like_queries() {
    assert!(Mode::Apps.is_activated("fi"));
    assert!(Mode::Apps.is_activated("  x"));
    assert!(Mode::Apps.is_activated("é"));
    assert!(!Mode::Apps.is_activated("~"));
    assert!(!Mode::Apps.is_activated("/tmp"));
    assert!(!Mode::Apps.is_activated("\\share"));
    assert!(!Mode::Apps.is_activated("!!"));
    assert!(!Mode::Apps.is_activated(""));
}

#[test]
fn file_mode_takes_home_and_root() {
    assert!(Mode::Files.is_activated("~"));
    assert!(Mode::Files.is_activated("/tmp"));
    assert!(!Mode::Files.is_activated("tmp"));
    assert!(!Mode::Files.is_activated(""));
}

#[test]
fn dispatch_picks_first_accepting_mode() {
    assert_eq!(Mode::for_query(""), None);
    assert_eq!(Mode::for_query("fi"), Some(Mode::Apps));
    assert_eq!(Mode::for_query("~/x"), Some(Mode::Files));
    assert_eq!(Mode::for_query("/tmp"), Some(Mode::Files));
    assert_eq!(Mode::for_query("\\share"), None);
    assert_eq!(Mode::for_query("🙂"), None);
}

#[test]
fn catalog_keeps_listed_apps_with_their_origin() {
    let installed = vec![
        AppEntry::new("NoIcon".to_string(), None, false, true),
        AppEntry::new("Firefox".to_string(), Some("Browser".to_string()), true, true),
        AppEntry::new("Hidden".to_string(), None, true, false),
        AppEntry::new("Files".to_string(), None, true, true),
    ];
    let c = Catalog::new(installed);
    assert_eq!(c.len(), 2);
    assert_eq!(c.entry(0).name, "Firefox");
    assert_eq!(c.entry(0).description, Some("Browser".to_string()));
    assert_eq!(c.handle(0), 1);
    assert_eq!(c.entry(1).name, "Files");
    assert_eq!(c.handle(1), 3);
}

#[test]
fn matcher_keeps_both_in_catalog_order() {
    let c = catalog_of(&["Firefox", "Files"]);
    let r = AppResults::new("fi", &c);
    assert_eq!(r.matched_apps(), vec![0, 1]);
    let names: Vec<&str> = r.matched_apps().iter().map(|&i| c.entry(i).name.as_str()).collect();
    assert_eq!(names, vec!["Firefox", "Files"]);
}

#[test]
fn matcher_ignores_case_of_query_and_name() {
    let c = catalog_of(&["Firefox", "Files", "Terminal"]);
    assert_eq!(AppResults::new("FI", &c).matched_apps(), vec![0, 1]);
    assert_eq!(AppResults::new("fOx", &c).matched_apps(), vec![0]);
    assert_eq!(AppResults::new("term", &c).matched_apps(), vec![2]);
}

#[test]
fn matcher_empty_when_nothing_matches() {
    let c = catalog_of(&["Firefox", "Files"]);
    let r = AppResults::new("zzz", &c);
    assert!(r.is_empty());
    assert!(r.create_list_items().is_empty());
    assert!(!AppResults::new("les", &c).is_empty());
}

#[test]
fn matcher_candidates_name_catalog_positions() {
    let c = catalog_of(&["Editor", "Files", "Firefox"]);
    let items = AppResults::new("fi", &c).create_list_items();
    assert_eq!(
        items,
        vec![launchthing::Candidate::App(1), launchthing::Candidate::App(2)]
    );
}

#[test]
fn lookup_lists_existing_path() {
    assert_eq!(Lookup::for_path("/tmp", true), Lookup::Children("/tmp".to_string()));
}

#[test]
fn lookup_falls_back_to_parent() {
    assert_eq!(
        Lookup::for_path("/tmp/fo", false),
        Lookup::Matching { parent: "/tmp".to_string(), basename: "fo".to_string() }
    );
    assert_eq!(
        Lookup::for_path("/home/u/Doc", false),
        Lookup::Matching { parent: "/home/u".to_string(), basename: "Doc".to_string() }
    );
}

#[test]
fn lookup_nothing_without_parent_or_name() {
    assert_eq!(Lookup::for_path("/", false), Lookup::Nothing);
    assert_eq!(Lookup::for_path("/tmp/..", false), Lookup::Nothing);
}

#[test]
fn lookup_directory_to_read() {
    assert_eq!(Lookup::for_path("/tmp", true).directory(), Some(&"/tmp".to_string()));
    assert_eq!(Lookup::for_path("/tmp/fo", false).directory(), Some(&"/tmp".to_string()));
    assert_eq!(Lookup::Nothing.directory(), None);
}

#[test]
fn existing_directory_hides_dot_entries() {
    let lookup = Lookup::for_path("/tmp", true);
    let listing = vec![entry("/tmp", "a.txt", false), entry("/tmp", ".hidden", false)];
    let browser = FileBrowser::new(&lookup, Some(listing));
    assert!(browser.contains_data());
    assert_eq!(kept_names(browser), vec!["/tmp/a.txt".to_string()]);
}

#[test]
fn home_listing_keeps_visible_children() {
    let lookup = Lookup::for_path("/home/u", true);
    let listing = vec![
        entry("/home/u", ".bashrc", false),
        entry("/home/u", "Documents", true),
        entry("/home/u", "notes.txt", false),
    ];
    let browser = FileBrowser::new(&lookup, Some(listing));
    assert_eq!(
        kept_names(browser),
        vec!["/home/u/Documents".to_string(), "/home/u/notes.txt".to_string()]
    );
}

#[test]
fn missing_path_keeps_parent_entries_containing_basename() {
    let lookup = Lookup::for_path("/tmp/fo", false);
    let listing = vec![entry("/tmp", "foo", true), entry("/tmp", "bar", true)];
    let browser = FileBrowser::new(&lookup, Some(listing));
    assert_eq!(kept_names(browser), vec!["/tmp/foo".to_string()]);
}

#[test]
fn missing_path_match_is_case_sensitive_substring() {
    let lookup = Lookup::for_path("/tmp/oo", false);
    let listing = vec![
        entry("/tmp", "foo", true),
        entry("/tmp", "Foo", false),
        entry("/tmp", ".oops", false),
        entry("/tmp", "OO", false),
    ];
    let browser = FileBrowser::new(&lookup, Some(listing));
    assert_eq!(
        kept_names(browser),
        vec!["/tmp/foo".to_string(), "/tmp/Foo".to_string(), "/tmp/.oops".to_string()]
    );
}

#[test]
fn unreadable_directory_gives_nothing() {
    let lookup = Lookup::for_path("/root", true);
    let browser = FileBrowser::new(&lookup, None);
    assert!(!browser.contains_data());
    let nothing = FileBrowser::new(&Lookup::Nothing, Some(vec![entry("/", "x", false)]));
    assert!(!nothing.contains_data());
}

#[test]
fn path_candidates_keep_directory_flag() {
    let lookup = Lookup::for_path("/tmp", true);
    let listing = vec![entry("/tmp", "d", true), entry("/tmp", "f", false)];
    let items = FileBrowser::new(&lookup, Some(listing)).create_list_items();
    assert_eq!(
        items,
        vec![
            launchthing::Candidate::Path { path: "/tmp/d".to_string(), is_dir: true },
            launchthing::Candidate::Path { path: "/tmp/f".to_string(), is_dir: false },
        ]
    );
}

#[test]
fn icon_for_directory_and_plain_files() {
    assert_eq!(get_icon_name_from_path("/tmp/x.pdf", true), "folder");
    assert_eq!(get_icon_name_from_path("/usr/bin/ls", false), "application-x-executable");
    assert_eq!(get_icon_name_from_path("/tmp/a.pdf", false), "application-pdf");
    assert_eq!(get_icon_name_from_path("/tmp/a.jpg", false), "image-jpeg");
    assert_eq!(get_icon_name_from_path("/tmp/a.jpeg", false), "image-jpeg");
    assert_eq!(get_icon_name_from_path("/tmp/a.tar.gz", false), "application-gzip");
    assert_eq!(get_icon_name_from_path("/tmp/a.ttf", false), "video-mp2t");
    assert_eq!(get_icon_name_from_path("/tmp/a.3g2", false), "video-3gpp2");
}

#[test]
fn icon_unknown_extension() {
    assert_eq!(get_icon_name_from_path("/tmp/a.qqq", false), "unknown");
    assert_eq!(get_icon_name_from_path("/tmp/a.PDF", false), "unknown");
}
