use launchthing::{
    AppEntry, AppMode, Candidate, Catalog, DirEntry, Direction, Effect, Key, Mode, SearchResults,
    SearchWindow,
};

fn apps(names: &[&str]) -> Catalog {
    Catalog::new(
        names.iter().map(|n| AppEntry::new(n.to_string(), None, true, true)).collect(),
    )
}

fn entry(dir: &str, name: &str, is_dir: bool) -> DirEntry {
    DirEntry::new(name.to_string(), format!("{}/{}", dir, name), is_dir)
}

fn list_of(n: usize) -> SearchResults {
    let mut r = SearchResults::new();
    r.show((0..n).map(Candidate::App).collect(), Mode::Apps);
    r
}

fn shown(r: &SearchResults) -> Vec<usize> {
    (0..r.len()).filter(|&i| r.is_visible(i)).collect()
}

#[test]
fn new_list_is_empty() {
    let r = SearchResults::new();
    assert_eq!(r.len(), 0);
    assert_eq!(r.selected_item(), None);
    assert_eq!(r.selected_index(), None);
    assert_eq!(r.handler_mode(), None);
}

#[test]
fn show_selects_first_and_installs_handler() {
    let r = list_of(3);
    assert_eq!(r.len(), 3);
    assert_eq!(shown(&r), vec![0, 1, 2]);
    assert_eq!(r.selected_item(), Some(0));
    assert_eq!(r.handler_mode(), Some(Mode::Apps));
    assert_eq!(r.selected_candidate(), Some(&Candidate::App(0)));
}

#[test]
fn show_nothing_changes_nothing() {
    let mut r = SearchResults::new();
    r.show(Vec::new(), Mode::Files);
    assert_eq!(r.len(), 0);
    assert_eq!(r.handler_mode(), None);
    assert_eq!(r.selected_item(), None);
}

#[test]
fn next_wraps_from_last_to_first() {
    let mut r = list_of(3);
    r.navigate(Direction::Next);
    assert_eq!(r.selected_index(), Some(1));
    r.navigate(Direction::Next);
    assert_eq!(r.selected_index(), Some(2));
    r.navigate(Direction::Next);
    assert_eq!(r.selected_index(), Some(0));
}

#[test]
fn previous_wraps_from_first_to_last() {
    let mut r = list_of(3);
    r.navigate(Direction::Previous);
    assert_eq!(r.selected_index(), Some(2));
    r.navigate(Direction::Previous);
    assert_eq!(r.selected_index(), Some(1));
}

#[test]
fn single_candidate_stays_selected() {
    let mut r = list_of(1);
    r.navigate(Direction::Next);
    assert_eq!(r.selected_index(), Some(0));
    r.navigate(Direction::Previous);
    assert_eq!(r.selected_index(), Some(0));
}

#[test]
fn navigation_on_empty_list_is_noop() {
    let mut r = SearchResults::new();
    r.navigate(Direction::Next);
    r.navigate(Direction::Previous);
    assert_eq!(r.selected_item(), None);
}

#[test]
fn navigation_skips_hidden_candidates() {
    let mut r = list_of(5);
    r.filter(&vec![true, false, true, false, true]);
    assert_eq!(r.selected_item(), Some(0));
    r.navigate(Direction::Next);
    assert_eq!(r.selected_item(), Some(2));
    assert_eq!(r.selected_index(), Some(1));
    r.navigate(Direction::Next);
    assert_eq!(r.selected_item(), Some(4));
    r.navigate(Direction::Next);
    assert_eq!(r.selected_item(), Some(0));
    r.navigate(Direction::Previous);
    assert_eq!(r.selected_item(), Some(4));
    assert_eq!(r.selected_index(), Some(2));
}

#[test]
fn filter_keeps_visible_selection() {
    let mut r = list_of(4);
    r.navigate(Direction::Next);
    r.navigate(Direction::Next);
    r.filter(&vec![false, true, true, false]);
    assert_eq!(r.selected_item(), Some(2));
    assert_eq!(r.selected_index(), Some(1));
}

#[test]
fn filter_moves_hidden_selection_to_first_visible() {
    let mut r = list_of(4);
    r.filter(&vec![false, false, true, true]);
    assert_eq!(r.selected_item(), Some(2));
    assert_eq!(r.selected_index(), Some(0));
}

#[test]
fn filter_hiding_all_keeps_candidates() {
    let mut r = list_of(3);
    r.filter(&vec![false, false, false]);
    assert_eq!(r.selected_item(), None);
    assert_eq!(r.len(), 3);
    assert!(shown(&r).is_empty());
    assert_eq!(r.handler_mode(), Some(Mode::Apps));
}

#[test]
fn unhide_after_filter_restores_order() {
    let mut r = list_of(4);
    r.filter(&vec![false, true, false, true]);
    r.filter(&vec![true, true, true, true]);
    assert_eq!(shown(&r), vec![0, 1, 2, 3]);
    let items: Vec<&Candidate> = (0..r.len()).map(|i| r.item(i)).collect();
    assert_eq!(
        items,
        vec![&Candidate::App(0), &Candidate::App(1), &Candidate::App(2), &Candidate::App(3)]
    );
}

#[test]
fn select_visible_by_row() {
    let mut r = list_of(4);
    r.filter(&vec![true, false, true, true]);
    assert!(r.select_visible(2));
    assert_eq!(r.selected_item(), Some(3));
    assert!(!r.select_visible(3));
    assert_eq!(r.selected_item(), Some(3));
}

#[test]
fn clear_returns_to_empty() {
    let mut r = list_of(2);
    r.clear();
    assert_eq!(r.len(), 0);
    assert_eq!(r.selected_item(), None);
    assert_eq!(r.handler_mode(), None);
    r.show(vec![Candidate::App(7)], Mode::Files);
    assert_eq!(r.handler_mode(), Some(Mode::Files));
}

#[test]
fn empty_query_leaves_no_mode() {
    let mut s = SearchWindow::new(apps(&["Firefox"]), "/home/u".to_string());
    assert_eq!(s.on_search_query_changed("fire"), Effect::Stay);
    assert_eq!(s.result_list().len(), 1);
    assert_eq!(s.on_search_query_changed(""), Effect::Stay);
    assert_eq!(s.active_mode(), None);
    assert_eq!(s.result_list().len(), 0);
    assert_eq!(s.result_list().selected_item(), None);
    assert_eq!(s.query_text(), "");
}

#[test]
fn app_query_shows_matches() {
    let mut s = SearchWindow::new(apps(&["Firefox", "Files", "Terminal"]), "/h".to_string());
    assert_eq!(s.on_search_query_changed("fi"), Effect::Stay);
    assert_eq!(s.active_mode(), Some(Mode::Apps));
    assert_eq!(s.query_text(), "fi");
    let r = s.result_list();
    assert_eq!(r.len(), 2);
    assert_eq!(r.item(0), &Candidate::App(0));
    assert_eq!(r.item(1), &Candidate::App(1));
    assert_eq!(r.selected_item(), Some(0));
}

#[test]
fn app_query_without_match_is_empty() {
    let mut s = SearchWindow::new(apps(&["Firefox"]), "/h".to_string());
    assert_eq!(s.on_search_query_changed("zzz"), Effect::Stay);
    assert_eq!(s.active_mode(), Some(Mode::Apps));
    assert_eq!(s.result_list().len(), 0);
    assert_eq!(s.on_key_pressed(Key::Activate), Effect::Stay);
}

#[test]
fn activating_app_launches_by_listing_position() {
    let installed = vec![
        AppEntry::new("Hidden".to_string(), None, true, false),
        AppEntry::new("Firefox".to_string(), None, true, true),
        AppEntry::new("Files".to_string(), None, true, true),
    ];
    let mut s = SearchWindow::new(Catalog::new(installed), "/h".to_string());
    s.on_search_query_changed("fi");
    assert_eq!(s.on_key_pressed(Key::Activate), Effect::Launch(1));
    assert_eq!(s.on_key_pressed(Key::Next), Effect::Stay);
    assert_eq!(s.on_key_pressed(Key::Activate), Effect::Launch(2));
    assert_eq!(s.on_key_pressed(Key::Next), Effect::Stay);
    assert_eq!(s.on_item_selected(), Effect::Launch(1));
}

#[test]
fn other_keys_do_nothing() {
    let mut s = SearchWindow::new(apps(&["Firefox", "Files"]), "/h".to_string());
    s.on_search_query_changed("fi");
    assert_eq!(s.on_key_pressed(Key::Other), Effect::Stay);
    assert_eq!(s.result_list().selected_item(), Some(0));
    assert_eq!(s.on_key_pressed(Key::Previous), Effect::Stay);
    assert_eq!(s.result_list().selected_item(), Some(1));
}

#[test]
fn home_query_lists_home_children() {
    let mut s = SearchWindow::new(apps(&[]), "/home/u".to_string());
    assert_eq!(s.on_search_query_changed("~"), Effect::Probe("/home/u".to_string()));
    assert_eq!(s.active_mode(), Some(Mode::Files));
    assert_eq!(s.on_path_probed(true), Effect::ReadDir("/home/u".to_string()));
    s.on_dir_listed(Some(vec![
        entry("/home/u", ".cache", true),
        entry("/home/u", "Music", true),
        entry("/home/u", "todo.txt", false),
    ]));
    let r = s.result_list();
    assert_eq!(r.len(), 2);
    assert_eq!(r.item(0), &Candidate::Path { path: "/home/u/Music".to_string(), is_dir: true });
    assert_eq!(
        r.item(1),
        &Candidate::Path { path: "/home/u/todo.txt".to_string(), is_dir: false }
    );
    assert_eq!(r.selected_item(), Some(0));
    assert_eq!(r.handler_mode(), Some(Mode::Files));
}

#[test]
fn existing_directory_query_hides_dot_entries() {
    let mut s = SearchWindow::new(apps(&[]), "/h".to_string());
    assert_eq!(s.on_search_query_changed("/tmp"), Effect::Probe("/tmp".to_string()));
    assert_eq!(s.on_path_probed(true), Effect::ReadDir("/tmp".to_string()));
    s.on_dir_listed(Some(vec![entry("/tmp", "a.txt", false), entry("/tmp", ".hidden", false)]));
    assert_eq!(s.result_list().len(), 1);
    assert_eq!(
        s.result_list().item(0),
        &Candidate::Path { path: "/tmp/a.txt".to_string(), is_dir: false }
    );
}

#[test]
fn parent_prefix_fallback_then_drill_in() {
    let mut s = SearchWindow::new(apps(&[]), "/h".to_string());
    assert_eq!(s.on_search_query_changed("/tmp/fo"), Effect::Probe("/tmp/fo".to_string()));
    assert_eq!(s.on_path_probed(false), Effect::ReadDir("/tmp".to_string()));
    s.on_dir_listed(Some(vec![entry("/tmp", "foo", true), entry("/tmp", "bar", true)]));
    assert_eq!(s.result_list().len(), 1);
    assert_eq!(
        s.result_list().item(0),
        &Candidate::Path { path: "/tmp/foo".to_string(), is_dir: true }
    );
    let e = s.on_key_pressed(Key::Activate);
    assert_eq!(e, Effect::Requery("/tmp/foo".to_string()));
    assert_eq!(s.on_search_query_changed("/tmp/foo"), Effect::Probe("/tmp/foo".to_string()));
    assert_eq!(s.query_text(), "/tmp/foo");
    assert_eq!(s.active_mode(), Some(Mode::Files));
    assert_eq!(s.result_list().len(), 0);
}

#[test]
fn activating_file_opens_it() {
    let mut s = SearchWindow::new(apps(&[]), "/h".to_string());
    s.on_search_query_changed("/tmp");
    s.on_path_probed(true);
    s.on_dir_listed(Some(vec![entry("/tmp", "a.txt", false), entry("/tmp", "b", true)]));
    assert_eq!(s.on_row_activated(0), Effect::Open("/tmp/a.txt".to_string()));
    assert_eq!(s.on_row_activated(1), Effect::Requery("/tmp/b".to_string()));
    assert_eq!(s.on_row_activated(2), Effect::Stay);
    assert_eq!(s.result_list().selected_item(), Some(1));
}

#[test]
fn path_without_parent_lists_nothing() {
    let mut s = SearchWindow::new(apps(&[]), "/h".to_string());
    assert_eq!(s.on_search_query_changed("/"), Effect::Probe("/".to_string()));
    assert_eq!(s.on_path_probed(false), Effect::Stay);
    s.on_dir_listed(Some(vec![entry("", "x", false)]));
    assert_eq!(s.result_list().len(), 0);
}

#[test]
fn unreadable_directory_lists_nothing() {
    let mut s = SearchWindow::new(apps(&[]), "/h".to_string());
    s.on_search_query_changed("/root");
    assert_eq!(s.on_path_probed(true), Effect::ReadDir("/root".to_string()));
    s.on_dir_listed(None);
    assert_eq!(s.result_list().len(), 0);
    assert_eq!(s.result_list().handler_mode(), None);
}

#[test]
fn stale_answers_are_ignored() {
    let mut s = SearchWindow::new(apps(&["Firefox"]), "/h".to_string());
    s.on_search_query_changed("/tmp");
    s.on_search_query_changed("fire");
    assert_eq!(s.on_path_probed(true), Effect::Stay);
    s.on_dir_listed(Some(vec![entry("/tmp", "a", false)]));
    assert_eq!(s.result_list().len(), 1);
    assert_eq!(s.result_list().item(0), &Candidate::App(0));
}

#[test]
fn requery_replaces_previous_results() {
    let mut s = SearchWindow::new(apps(&["Firefox", "Files"]), "/h".to_string());
    s.on_search_query_changed("fi");
    assert_eq!(s.result_list().len(), 2);
    s.on_search_query_changed("fox");
    assert_eq!(s.result_list().len(), 1);
    assert_eq!(s.result_list().item(0), &Candidate::App(0));
}

#[test]
fn app_mode_filters_in_place() {
    let mut m = AppMode::new(apps(&["Firefox", "Files", "Terminal"]));
    assert_eq!(shown(m.list()), vec![0, 1, 2]);
    assert_eq!(m.list().selected_item(), Some(0));
    m.on_search_query_changed("term");
    assert_eq!(shown(m.list()), vec![2]);
    assert_eq!(m.list().selected_item(), Some(2));
    assert_eq!(m.on_key_pressed(Key::Activate), Effect::Launch(2));
    m.show_hidden_apps();
    assert_eq!(shown(m.list()), vec![0, 1, 2]);
    assert_eq!(m.list().selected_item(), Some(0));
}

#[test]
fn app_mode_navigates_visible_only() {
    let mut m = AppMode::new(apps(&["Firefox", "Files", "Terminal"]));
    m.on_search_query_changed("fi");
    assert_eq!(m.on_key_pressed(Key::Next), Effect::Stay);
    assert_eq!(m.list().selected_item(), Some(1));
    m.on_key_pressed(Key::Next);
    assert_eq!(m.list().selected_item(), Some(0));
    m.on_key_pressed(Key::Previous);
    assert_eq!(m.list().selected_item(), Some(1));
    assert_eq!(m.installed_apps().len(), 3);
}

#[test]
fn app_mode_empty_query_shows_every_app() {
    let mut m = AppMode::new(apps(&["Firefox", "Files", "Terminal"]));
    m.on_search_query_changed("term");
    m.on_search_query_changed("fire");
    assert_eq!(shown(m.list()), vec![0]);
    m.on_search_query_changed("");
    assert_eq!(shown(m.list()), vec![0, 1, 2]);
    assert_eq!(m.list().len(), 3);
}

#[test]
fn app_mode_navigation_keeps_visibility() {
    let mut m = AppMode::new(apps(&["Firefox", "Files", "Terminal"]));
    m.on_search_query_changed("fi");
    m.on_key_pressed(Key::Next);
    m.on_key_pressed(Key::Next);
    assert_eq!(shown(m.list()), vec![0, 1]);
    assert_eq!(m.list().handler_mode(), Some(Mode::Apps));
}

#[test]
fn show_nothing_over_installed_handler_changes_nothing() {
    let mut r = list_of(2);
    r.show(Vec::new(), Mode::Files);
    assert_eq!(r.len(), 2);
    assert_eq!(r.handler_mode(), Some(Mode::Apps));
    assert_eq!(r.selected_item(), Some(0));
}

#[test]
fn session_navigation_without_selection_changes_nothing() {
    let mut s = SearchWindow::new(apps(&["Firefox"]), "/h".to_string());
    s.on_search_query_changed("zzz");
    assert_eq!(s.on_key_pressed(Key::Next), Effect::Stay);
    assert_eq!(s.on_key_pressed(Key::Previous), Effect::Stay);
    assert_eq!(s.result_list().len(), 0);
    assert_eq!(s.result_list().selected_item(), None);
    assert_eq!(s.query_text(), "zzz");
}
