use fsbrowse::dispatch::{handle_key, Cmd, Key};
use fsbrowse::entry::FileEntry;
use fsbrowse::nav::App;
use fsbrowse::paths::{join_dotdot, parent_of};
use fsbrowse::render::{render, RowKind};
use fsbrowse::timefmt::{format_modified_time, format_timestamp};
use fsbrowse::trusted::TimeParts;

fn fe(name: &str, path: &str, is_dir: bool, size: u64) -> FileEntry {
    FileEntry {
        name: String::from(name),
        path: String::from(path),
        is_dir,
        size,
        modified: String::from("2024-01-02 03:04:05"),
    }
}

#[test]
fn parent_of_walks_up() {
    assert_eq!(parent_of("/tmp/x"), Some(String::from("/tmp")));
    assert_eq!(parent_of("/tmp"), Some(String::from("/")));
    assert_eq!(parent_of("/"), None);
    assert_eq!(parent_of("/a/b/c"), Some(String::from("/a/b")));
}

#[test]
fn join_dotdot_appends() {
    assert_eq!(join_dotdot("/tmp/x"), "/tmp/x/..");
}

#[test]
fn timestamp_fixed_format() {
    let p = TimeParts { year: 2024, month: 3, day: 7, hour: 9, minute: 5, second: 30 };
    assert_eq!(format_timestamp(p), "2024-03-07 09:05:30");
    let p2 = TimeParts { year: 999, month: 12, day: 31, hour: 23, minute: 59, second: 59 };
    assert_eq!(format_timestamp(p2), "0999-12-31 23:59:59");
}

#[test]
fn modified_time_unknown_without_timestamp() {
    assert_eq!(format_modified_time(None), "Unknown");
}

#[test]
fn modified_time_has_fixed_shape() {
    let r = format_modified_time(Some(0));
    let bytes: Vec<char> = r.chars().collect();
    assert_eq!(bytes.len(), 19);
    assert_eq!(bytes[4], '-');
    assert_eq!(bytes[7], '-');
    assert_eq!(bytes[10], ' ');
    assert_eq!(bytes[13], ':');
    assert_eq!(bytes[16], ':');
}

#[test]
fn frame_shows_state() {
    let children = vec![
        fe("a.txt", "/d/a.txt", false, 5),
        fe("sub", "/d/sub", true, 0),
    ];
    let mut app = App::new(String::from("/d"), false, children);
    app.move_cursor(2);
    let f = render(&app);
    assert_eq!(f.status, " Current directory: /d ");
    assert_eq!(f.rows.len(), 3);
    assert!(f.rows[0].text.starts_with("../"));
    assert!(matches!(f.rows[0].kind, RowKind::Directory));
    assert!(f.rows[1].text.starts_with("sub/"));
    assert!(f.rows[1].text.contains("DIR"));
    assert!(matches!(f.rows[1].kind, RowKind::Directory));
    assert!(f.rows[2].text.starts_with("a.txt"));
    assert!(matches!(f.rows[2].kind, RowKind::Selected));
    assert!(f.help.contains("q: quit"));
}

#[test]
fn rows_have_fixed_columns() {
    let children = vec![fe("a.txt", "/d/a.txt", false, 5)];
    let app = App::new(String::from("/d"), false, children);
    let f = render(&app);
    let row = &f.rows[1].text;
    let cols: Vec<char> = row.chars().collect();
    // name column padded to 40, one space, size column padded to 12.
    assert_eq!(cols.len(), 40 + 1 + 12 + 1 + "2024-01-02 03:04:05".len());
    let size_col: String = cols[41..53].iter().collect();
    assert_eq!(size_col.trim_end(), "5 B");
    let tail: String = cols[54..].iter().collect();
    assert_eq!(tail, "2024-01-02 03:04:05");
}

#[test]
fn human_readable_sizes_use_binary_units() {
    let children = vec![fe("big.bin", "/d/big.bin", false, 2048)];
    let app = App::new(String::from("/d"), false, children);
    let f = render(&app);
    assert!(f.rows[1].text.contains("KiB"));
}

#[test]
fn quit_and_unknown_keys() {
    let mut app = App::new(String::from("/d"), false, vec![fe("a", "/d/a", false, 1)]);
    let before = app.entries.len();
    assert!(matches!(handle_key(&mut app, Key::Quit), Cmd::Quit));
    assert!(matches!(handle_key(&mut app, Key::Other), Cmd::Idle));
    assert!(matches!(handle_key(&mut app, Key::ToggleHidden), Cmd::Reload));
    assert!(matches!(handle_key(&mut app, Key::Back), Cmd::Ascend));
    assert_eq!(app.entries.len(), before);
    assert_eq!(app.current_dir, "/d");
}

#[test]
fn cursor_keys_move_selection() {
    let mut app = App::new(
        String::from("/d"),
        false,
        vec![fe("a", "/d/a", false, 1), fe("b", "/d/b", false, 1)],
    );
    assert!(matches!(handle_key(&mut app, Key::Down), Cmd::Idle));
    assert_eq!(app.selected_index, 1);
    assert!(matches!(handle_key(&mut app, Key::Up), Cmd::Idle));
    assert_eq!(app.selected_index, 0);
    assert!(matches!(handle_key(&mut app, Key::Up), Cmd::Idle));
    assert_eq!(app.selected_index, 0);
}

#[test]
fn opening_a_file_leaves_state_unchanged() {
    let mut app = App::new(
        String::from("/d"),
        false,
        vec![fe("a.txt", "/d/a.txt", false, 5)],
    );
    app.move_cursor(1);
    let cmd = handle_key(&mut app, Key::Enter);
    let path = match cmd {
        Cmd::OpenFile { path } => path,
        _ => panic!("expected a file-opening command"),
    };
    assert_eq!(path, "/d/a.txt");
    assert_eq!(app.current_dir, "/d");
    assert_eq!(app.selected_index, 1);
    assert_eq!(app.entries.len(), 2);
    assert!(!app.show_hidden);
}

#[test]
fn enter_on_empty_listing_is_idle() {
    let mut app = App::new(String::from("/"), false, vec![]);
    assert!(matches!(handle_key(&mut app, Key::Enter), Cmd::Idle));
    assert_eq!(app.selected_index, 0);
}
