use fsbrowse::entry::FileEntry;
use fsbrowse::listing::build_listing;
use fsbrowse::nav::App;

fn fe(name: &str, path: &str, is_dir: bool, size: u64) -> FileEntry {
    FileEntry {
        name: String::from(name),
        path: String::from(path),
        is_dir,
        size,
        modified: String::from("2024-01-02 03:04:05"),
    }
}

fn names(app: &App) -> Vec<String> {
    app.entries.iter().map(|e| e.name.clone()).collect()
}

#[test]
fn listing_order_scenario() {
    let children = vec![
        fe("a.txt", "/tmp/x/a.txt", false, 5),
        fe("sub", "/tmp/x/sub", true, 0),
    ];
    let app = App::new(String::from("/tmp/x"), false, children);
    assert_eq!(names(&app), vec!["..", "sub", "a.txt"]);
    assert_eq!(app.selected_index, 0);
    assert_eq!(app.entries[0].path, "/tmp/x/..");
    assert!(app.entries[0].is_dir);
    assert!(app.entries[1].is_dir);
    assert!(!app.entries[2].is_dir);
    assert_eq!(app.entries[2].size, 5);
}

#[test]
fn activate_descends_and_resets() {
    let children = vec![
        fe("a.txt", "/tmp/x/a.txt", false, 5),
        fe("sub", "/tmp/x/sub", true, 0),
    ];
    let mut app = App::new(String::from("/tmp/x"), false, children);
    app.move_cursor(1);
    assert_eq!(app.selected_index, 1);
    let cmd = fsbrowse::dispatch::handle_key(&mut app, fsbrowse::dispatch::Key::Enter);
    let path = match cmd {
        fsbrowse::dispatch::Cmd::EnterDir { path } => path,
        _ => panic!("expected a directory entry command"),
    };
    assert_eq!(path, "/tmp/x/sub");
    let sub_children = vec![fe("inner.txt", "/tmp/x/sub/inner.txt", false, 1)];
    app.navigate_to(path, true, sub_children);
    assert_eq!(app.current_dir, "/tmp/x/sub");
    assert_eq!(app.selected_index, 0);
    assert_eq!(names(&app), vec!["..", "inner.txt"]);
}

#[test]
fn case_insensitive_order() {
    let children = vec![
        fe("B.txt", "/d/B.txt", false, 1),
        fe("a.txt", "/d/a.txt", false, 1),
    ];
    let app = App::new(String::from("/d"), false, children);
    assert_eq!(names(&app), vec!["..", "a.txt", "B.txt"]);
}

#[test]
fn directories_come_first() {
    let children = vec![
        fe("aaa", "/d/aaa", false, 3),
        fe("zzz", "/d/zzz", true, 0),
    ];
    let app = App::new(String::from("/d"), false, children);
    assert_eq!(names(&app), vec!["..", "zzz", "aaa"]);
}

#[test]
fn directory_size_normalized() {
    let children = vec![fe("sub", "/d/sub", true, 4096)];
    let app = App::new(String::from("/d"), false, children);
    assert_eq!(app.entries[1].name, "sub");
    assert_eq!(app.entries[1].size, 0);
}

#[test]
fn hidden_filtered_and_toggled() {
    let children = vec![
        fe(".env", "/d/.env", false, 2),
        fe("b.txt", "/d/b.txt", false, 3),
    ];
    let mut app = App::new(String::from("/d"), false, children);
    assert_eq!(names(&app), vec!["..", "b.txt"]);
    let children2 = vec![
        fe(".env", "/d/.env", false, 2),
        fe("b.txt", "/d/b.txt", false, 3),
    ];
    app.toggle_hidden_files(children2);
    assert!(app.show_hidden);
    assert_eq!(app.selected_index, 0);
    assert_eq!(names(&app), vec!["..", ".env", "b.txt"]);
    let children3 = vec![
        fe(".env", "/d/.env", false, 2),
        fe("b.txt", "/d/b.txt", false, 3),
    ];
    app.toggle_hidden_files(children3);
    assert!(!app.show_hidden);
    assert_eq!(names(&app), vec!["..", "b.txt"]);
}

#[test]
fn loading_twice_is_identical() {
    let make = || {
        vec![
            fe("Beta", "/d/Beta", true, 0),
            fe("alpha", "/d/alpha", true, 0),
            fe("c.txt", "/d/c.txt", false, 9),
        ]
    };
    let l1 = build_listing("/d", make(), false);
    let l2 = build_listing("/d", make(), false);
    assert_eq!(l1.len(), l2.len());
    for (a, b) in l1.iter().zip(l2.iter()) {
        assert_eq!(a.name, b.name);
        assert_eq!(a.path, b.path);
        assert_eq!(a.is_dir, b.is_dir);
        assert_eq!(a.size, b.size);
        assert_eq!(a.modified, b.modified);
    }
}

#[test]
fn move_cursor_clamps_on_empty() {
    let mut app = App::new(String::from("/"), false, vec![]);
    assert!(app.entries.is_empty());
    app.move_cursor(-5);
    assert_eq!(app.selected_index, 0);
    app.move_cursor(7);
    assert_eq!(app.selected_index, 0);
}

#[test]
fn move_cursor_clamps_at_both_ends() {
    let children = vec![
        fe("a", "/d/a", false, 1),
        fe("b", "/d/b", false, 1),
    ];
    let mut app = App::new(String::from("/d"), false, children);
    assert_eq!(app.entries.len(), 3);
    app.move_cursor(-1);
    assert_eq!(app.selected_index, 0);
    app.move_cursor(10);
    assert_eq!(app.selected_index, 2);
    app.move_cursor(-1);
    assert_eq!(app.selected_index, 1);
}

#[test]
fn transitions_reset_selection() {
    let children = vec![
        fe("a", "/d/a", false, 1),
        fe("b", "/d/b", false, 1),
    ];
    let mut app = App::new(String::from("/d"), false, children);
    app.move_cursor(2);
    assert_eq!(app.selected_index, 2);
    app.toggle_hidden_files(vec![fe("a", "/d/a", false, 1)]);
    assert_eq!(app.selected_index, 0);
    app.move_cursor(1);
    assert_eq!(app.selected_index, 1);
    app.navigate_to(String::from("/d/sub"), true, vec![]);
    assert_eq!(app.selected_index, 0);
    app.move_cursor(1);
    app.navigate_up(vec![fe("sub", "/d/sub", true, 0)]);
    assert_eq!(app.current_dir, "/d");
    assert_eq!(app.selected_index, 0);
}

#[test]
fn ascend_at_root_is_noop() {
    let mut app = App::new(String::from("/"), false, vec![fe("etc", "/etc", true, 0)]);
    assert_eq!(names(&app), vec!["etc"]);
    let before_names = names(&app);
    let before_dir = app.current_dir.clone();
    app.move_cursor(0);
    app.navigate_up(vec![fe("stray", "/stray", false, 1)]);
    assert_eq!(app.current_dir, before_dir);
    assert_eq!(names(&app), before_names);
    assert_eq!(app.selected_index, 0);
}

#[test]
fn descend_on_file_is_noop() {
    let children = vec![fe("a.txt", "/d/a.txt", false, 5)];
    let mut app = App::new(String::from("/d"), false, children);
    app.move_cursor(1);
    let before_names = names(&app);
    app.navigate_to(String::from("/d/a.txt"), false, vec![]);
    assert_eq!(app.current_dir, "/d");
    assert_eq!(names(&app), before_names);
    assert_eq!(app.selected_index, 1);
    assert!(!app.show_hidden);
}

#[test]
fn refresh_rebuilds_and_resets() {
    let mut app = App::new(String::from("/d"), false, vec![fe("a", "/d/a", false, 1)]);
    app.move_cursor(1);
    assert_eq!(app.selected_index, 1);
    app.refresh_entries(vec![fe("a", "/d/a", false, 1), fe("b", "/d/b", false, 2)]);
    assert_eq!(app.current_dir, "/d");
    assert_eq!(names(&app), vec!["..", "a", "b"]);
    assert_eq!(app.selected_index, 0);
}
