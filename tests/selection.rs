use cync::config::{Config, ConfigFile};
use cync::cync::{Action, Cync, Key, Mode};
use cync::digest::Digest;
use cync::error::Error;
use cync::files::{FileKind, FileMap, FileViewer};

fn md5_digest(bytes: &[u8]) -> Digest {
    Digest { value: u128::from_be_bytes(md5::compute(bytes).0) }
}

fn config() -> Config {
    Config { remote_directory_name: String::from("bucket"), local_directory_name: String::from("/home/u/cync") }
}

fn viewer(local: &[(&str, &str)], remote: &[(&str, &str)]) -> FileViewer {
    let mut l = FileMap::new();
    for (p, c) in local {
        l.insert_file(String::from(*p), c.as_bytes().to_vec());
    }
    let mut r = FileMap::new();
    for (p, c) in remote {
        r.insert_file(String::from(*p), c.as_bytes().to_vec());
    }
    FileViewer::create_viewer(&l, &r)
}

#[test]
fn empty_scan_has_no_files_and_moves_nowhere() {
    let mut app = Cync::new(config(), viewer(&[], &[]));
    assert!(matches!(app.mode, Mode::NoFilesFound));
    app.next_file();
    assert_eq!(app.cursor, 0);
    app.prev_file();
    assert_eq!(app.cursor, 0);
    assert_eq!(app.handle_key(Key::Char('j')), Action::Nothing);
    assert_eq!(app.handle_key(Key::Enter), Action::Nothing);
    assert!(matches!(app.mode, Mode::NoFilesFound));
    assert_eq!(app.handle_key(Key::Char('q')), Action::Quit);
}

#[test]
fn cursor_wraps_in_both_directions() {
    let mut app = Cync::new(config(), viewer(&[("a", "1"), ("b", "2"), ("c", "3")], &[]));
    assert!(matches!(app.mode, Mode::Default));
    assert_eq!(app.cursor, 0);
    app.prev_file();
    assert_eq!(app.cursor, 2);
    app.next_file();
    assert_eq!(app.cursor, 0);
    app.next_file();
    app.next_file();
    assert_eq!(app.cursor, 2);
    assert_eq!(app.handle_key(Key::Char('k')), Action::Nothing);
    assert_eq!(app.cursor, 1);
    assert_eq!(app.handle_key(Key::Char('j')), Action::Nothing);
    assert_eq!(app.cursor, 2);
}

#[test]
fn enter_selects_and_q_cancels() {
    let mut app = Cync::new(config(), viewer(&[("a", "1")], &[("b", "2")]));
    app.next_file();
    assert_eq!(app.handle_key(Key::Enter), Action::Nothing);
    assert_eq!(app.selected_file, Some(1));
    match &app.mode {
        Mode::PendingAction(kind) => {
            assert_eq!(*kind, FileKind::OnlyInRemote { hash: md5_digest(b"2"), contents: b"2".to_vec() })
        }
        other => panic!("expected a pending decision, got {other:?}"),
    }
    assert_eq!(app.handle_key(Key::Char('t')), Action::Nothing);
    assert_eq!(app.handle_key(Key::Char('f')), Action::Pull(1));
    assert_eq!(app.handle_key(Key::Char('q')), Action::Nothing);
    assert!(matches!(app.mode, Mode::Default));
    assert_eq!(app.selected_file, None);
    assert_eq!(app.cursor, 1);
}

#[test]
fn local_only_file_offers_push() {
    let mut app = Cync::new(config(), viewer(&[("a", "1")], &[]));
    app.select_file(0);
    assert_eq!(app.handle_key(Key::Char('f')), Action::Nothing);
    assert_eq!(app.handle_key(Key::Char('t')), Action::Push(0));
    let upload = app.push_file_to_remote(0).unwrap();
    assert_eq!(upload.bucket, "bucket");
    assert_eq!(upload.key, "a");
    assert_eq!(upload.contents, b"1".to_vec());
    assert_eq!(app.pull_file_from_remote(0).unwrap_err(), Error::NothingToPull);
}

#[test]
fn in_sync_file_offers_nothing() {
    let mut app = Cync::new(config(), viewer(&[("a", "1")], &[("a", "1")]));
    app.select_file(0);
    assert_eq!(app.handle_key(Key::Char('t')), Action::Nothing);
    assert_eq!(app.handle_key(Key::Char('f')), Action::Nothing);
    assert_eq!(app.handle_key(Key::Other), Action::Nothing);
    assert!(matches!(app.mode, Mode::PendingAction(_)));
}

#[test]
fn diverged_file_offers_both() {
    let mut app = Cync::new(config(), viewer(&[("a", "1")], &[("a", "2")]));
    app.select_file(0);
    assert_eq!(app.handle_key(Key::Char('t')), Action::Push(0));
    assert_eq!(app.handle_key(Key::Char('f')), Action::Pull(0));
    let d = app.pull_file_from_remote(0).unwrap();
    assert_eq!(d.target, "/home/u/cync/a");
    assert_eq!(d.contents, b"2".to_vec());
    assert_eq!(app.push_file_to_remote(0).unwrap().contents, b"1".to_vec());
}

#[test]
fn remote_only_file_cannot_be_pushed() {
    let app = Cync::new(config(), viewer(&[], &[("a", "1")]));
    assert_eq!(app.push_file_to_remote(0).unwrap_err(), Error::NothingToPush);
}

#[test]
fn reload_clamps_cursor_and_leaves_decision() {
    let mut app = Cync::new(config(), viewer(&[("a", "1"), ("b", "2"), ("c", "3")], &[]));
    app.prev_file();
    app.select_file(2);
    app.reload_files(viewer(&[("a", "1")], &[]));
    assert_eq!(app.cursor, 0);
    assert!(matches!(app.mode, Mode::Default));
    assert_eq!(app.selected_file, None);
    app.reload_files(viewer(&[], &[]));
    assert!(matches!(app.mode, Mode::NoFilesFound));
    app.reload_files(viewer(&[("x", "1"), ("y", "1")], &[]));
    assert!(matches!(app.mode, Mode::Default));
    assert_eq!(app.view_files().len(), 2);
}

#[test]
fn column_widths_follow_paths_and_digests() {
    let app = Cync::new(config(), viewer(&[("a.txt", "1"), ("日本.txt", "2")], &[]));
    assert_eq!(app.constraint_len_calculator(), (8, 32, 0));
    let app = Cync::new(config(), viewer(&[("ab", "1")], &[("ab", "2"), ("abcd", "3")]));
    assert_eq!(app.constraint_len_calculator(), (4, 32, 32));
    let app = Cync::new(config(), viewer(&[], &[]));
    assert_eq!(app.constraint_len_calculator(), (0, 0, 0));
}

#[test]
fn environment_settings_need_both_values() {
    let c = Config::from_env(Some(String::from("/l")), Some(String::from("b"))).unwrap();
    assert_eq!(c.local_directory(), "/l");
    assert_eq!(c.remote_directory(), "b");
    assert!(Config::from_env(Some(String::from("/l")), None).is_none());
    assert!(Config::from_env(None, Some(String::from("b"))).is_none());
    let f = Config::from_file(ConfigFile {
        remote_directory_name: String::from("r"),
        local_directory_name: String::from("/x"),
    });
    assert_eq!(f.remote_directory(), "r");
    assert_eq!(f.local_directory(), "/x");
}

#[test]
fn q_quits_while_browsing_and_other_keys_do_nothing() {
    let mut app = Cync::new(config(), viewer(&[("a", "1"), ("b", "2")], &[]));
    assert_eq!(app.handle_key(Key::Other), Action::Nothing);
    assert_eq!(app.handle_key(Key::Char('x')), Action::Nothing);
    assert_eq!(app.cursor, 0);
    assert!(matches!(app.mode, Mode::Default));
    assert_eq!(app.handle_key(Key::Char('q')), Action::Quit);
    assert_eq!(app.cursor, 0);
    assert!(matches!(app.mode, Mode::Default));
}
