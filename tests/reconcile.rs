use cync::digest::Digest;
use cync::error::{Error, LoadingLocalFiles};
use cync::files::{FileKind, FileMap, FileViewer};
use cync::path::{path_less, relative_path};
use cync::scan::{index_files, local_files};
use cync::sync::{pull_from_remote, push_to_remote};

fn md5_digest(bytes: &[u8]) -> Digest {
    Digest { value: u128::from_be_bytes(md5::compute(bytes).0) }
}

fn map_of(entries: &[(&str, &str)]) -> FileMap {
    let mut m = FileMap::new();
    for (path, contents) in entries {
        m.insert(
            String::from(*path),
            md5_digest(contents.as_bytes()),
            contents.as_bytes().to_vec(),
        );
    }
    m
}

fn paths(v: &FileViewer) -> Vec<String> {
    (0..v.len()).map(|i| v.nth(i).0.clone()).collect()
}

#[test]
fn test_file_viewer() {
    let mut remote_files = FileMap::new();
    remote_files.insert(
        String::from("file1"),
        md5_digest(String::from("file1_contents").as_bytes()),
        String::from("file1_contents").as_bytes().to_vec(),
    );
    remote_files.insert(
        String::from("file2"),
        md5_digest(String::from("file2_contents").as_bytes()),
        String::from("file2_contents").as_bytes().to_vec(),
    );
    let mut local_files = FileMap::new();
    local_files.insert(
        String::from("file2"),
        md5_digest(String::from("file2_contents").as_bytes()),
        String::from("file2_contents").as_bytes().to_vec(),
    );
    local_files.insert(
        String::from("file3"),
        md5_digest(String::from("file3_contents").as_bytes()),
        String::from("file3_contents").as_bytes().to_vec(),
    );

    let files = FileViewer::create_viewer(&local_files, &remote_files);
    let file_1 = files.get(&String::from("file1")).unwrap();
    let file_2 = files.get(&String::from("file2")).unwrap();
    let file_3 = files.get(&String::from("file3")).unwrap();

    assert!(files.len() == 3);
    assert!(matches!(file_1, FileKind::OnlyInRemote { .. }));
    assert!(matches!(file_2, FileKind::ExistsInBoth { .. }));
    assert!(matches!(file_3, FileKind::OnlyInLocal { .. }));
}

#[test]
fn local_only_file_is_classified_local() {
    let local = map_of(&[("a.txt", "one")]);
    let remote = FileMap::new();
    let files = FileViewer::create_viewer(&local, &remote);
    assert_eq!(files.len(), 1);
    let (path, kind) = files.nth(0);
    assert_eq!(path, "a.txt");
    assert_eq!(
        *kind,
        FileKind::OnlyInLocal { hash: md5_digest(b"one"), contents: b"one".to_vec() }
    );
}

#[test]
fn same_file_on_both_sides_is_in_sync() {
    let local = map_of(&[("a.txt", "one")]);
    let remote = map_of(&[("a.txt", "one")]);
    let files = FileViewer::create_viewer(&local, &remote);
    assert_eq!(files.len(), 1);
    let (_, kind) = files.nth(0);
    match kind {
        FileKind::ExistsInBoth { local_hash, remote_hash, .. } => {
            assert_eq!(*local_hash, md5_digest(b"one"));
            assert_eq!(local_hash, remote_hash);
        }
        other => panic!("expected both sides, got {other:?}"),
    }
    assert!(kind.is_in_sync());
    assert!(!kind.can_push());
    assert!(!kind.can_pull());
}

#[test]
fn push_then_refresh_brings_sides_in_sync() {
    let local = map_of(&[("a.txt", "new")]);
    let mut remote = map_of(&[("a.txt", "old")]);
    let files = FileViewer::create_viewer(&local, &remote);
    let (path, kind) = files.nth(0);
    assert_eq!(
        *kind,
        FileKind::ExistsInBoth {
            local_hash: md5_digest(b"new"),
            local_contents: b"new".to_vec(),
            remote_hash: md5_digest(b"old"),
            remote_contents: b"old".to_vec(),
        }
    );
    assert!(kind.can_push());
    assert!(kind.can_pull());
    let upload = push_to_remote(&String::from("bucket"), path, kind).unwrap();
    assert_eq!(upload.bucket, "bucket");
    assert_eq!(upload.key, "a.txt");
    assert_eq!(upload.contents, b"new".to_vec());

    remote.insert_file(upload.key.clone(), upload.contents.clone());
    let refreshed = FileViewer::create_viewer(&local, &remote);
    assert_eq!(refreshed.len(), 1);
    let (_, kind) = refreshed.nth(0);
    assert!(kind.is_in_sync());
    match kind {
        FileKind::ExistsInBoth { local_hash, remote_hash, .. } => {
            assert_eq!(*local_hash, md5_digest(b"new"));
            assert_eq!(*remote_hash, md5_digest(b"new"));
        }
        other => panic!("expected both sides, got {other:?}"),
    }
}

#[test]
fn pull_of_local_only_file_fails() {
    let kind = FileKind::OnlyInLocal { hash: md5_digest(b"x"), contents: b"x".to_vec() };
    let r = pull_from_remote(&String::from("/home/u/cync"), &String::from("a.txt"), &kind);
    assert_eq!(r.unwrap_err(), Error::NothingToPull);
}

#[test]
fn push_of_remote_only_file_fails() {
    let kind = FileKind::OnlyInRemote { hash: md5_digest(b"x"), contents: b"x".to_vec() };
    let r = push_to_remote(&String::from("bucket"), &String::from("a.txt"), &kind);
    assert_eq!(r.unwrap_err(), Error::NothingToPush);
}

#[test]
fn pull_writes_remote_bytes_below_local_root() {
    let kind = FileKind::ExistsInBoth {
        local_hash: md5_digest(b"l"),
        local_contents: b"l".to_vec(),
        remote_hash: md5_digest(b"r"),
        remote_contents: b"r".to_vec(),
    };
    let d = pull_from_remote(&String::from("/home/u/cync"), &String::from("dir/a.txt"), &kind)
        .unwrap();
    assert_eq!(d.target, "/home/u/cync/dir/a.txt");
    assert_eq!(d.contents, b"r".to_vec());
}

#[test]
fn disjoint_inputs_give_one_entry_per_path() {
    let local = map_of(&[("l1", "a"), ("l2", "b")]);
    let remote = map_of(&[("r1", "c"), ("r2", "d"), ("r3", "e")]);
    let files = FileViewer::create_viewer(&local, &remote);
    assert_eq!(files.len(), 5);
    for i in 0..files.len() {
        let (path, kind) = files.nth(i);
        if path.starts_with('l') {
            assert!(matches!(kind, FileKind::OnlyInLocal { .. }));
        } else {
            assert!(matches!(kind, FileKind::OnlyInRemote { .. }));
        }
    }
}

#[test]
fn equal_digests_come_out_equal() {
    let local = map_of(&[("x", "same"), ("y", "left")]);
    let remote = map_of(&[("x", "same"), ("y", "right")]);
    let files = FileViewer::create_viewer(&local, &remote);
    assert!(files.get(&String::from("x")).unwrap().is_in_sync());
    assert!(!files.get(&String::from("y")).unwrap().is_in_sync());
}

#[test]
fn reconciling_twice_gives_the_same_result() {
    let local = map_of(&[("b", "1"), ("a", "2"), ("c", "3")]);
    let remote = map_of(&[("c", "3"), ("d", "4"), ("a", "9")]);
    let first = FileViewer::create_viewer(&local, &remote);
    let second = FileViewer::create_viewer(&local, &remote);
    assert_eq!(first, second);
    assert_eq!(paths(&first), vec!["a", "b", "c", "d"]);
}

#[test]
fn merge_keeps_the_remote_side() {
    let remote = map_of(&[("a.txt", "remote bytes"), ("b.txt", "other")]);
    let first = FileViewer::create_viewer(&FileMap::new(), &remote);
    let mut as_remote = FileMap::new();
    for i in 0..first.len() {
        if let (path, FileKind::OnlyInRemote { hash, contents }) = first.nth(i) {
            as_remote.insert(path.clone(), *hash, contents.clone());
        }
    }
    let new_local = map_of(&[("a.txt", "local bytes")]);
    let second = FileViewer::create_viewer(&new_local, &as_remote);
    assert_eq!(
        *second.get(&String::from("a.txt")).unwrap(),
        FileKind::ExistsInBoth {
            local_hash: md5_digest(b"local bytes"),
            local_contents: b"local bytes".to_vec(),
            remote_hash: md5_digest(b"remote bytes"),
            remote_contents: b"remote bytes".to_vec(),
        }
    );
    assert!(matches!(
        second.get(&String::from("b.txt")).unwrap(),
        FileKind::OnlyInRemote { .. }
    ));
}

#[test]
fn output_follows_byte_order_of_paths() {
    let local = map_of(&[("b", "1"), ("Z", "2"), ("é", "3"), ("a/b", "4"), ("a", "5")]);
    let files = FileViewer::create_viewer(&local, &FileMap::new());
    assert_eq!(paths(&files), vec!["Z", "a", "a/b", "b", "é"]);
    let mut sorted = paths(&files);
    sorted.sort();
    assert_eq!(paths(&files), sorted);
}

#[test]
fn empty_inputs_give_empty_result() {
    let files = FileViewer::create_viewer(&FileMap::new(), &FileMap::new());
    assert!(files.is_empty());
    assert_eq!(files, FileViewer::new());
    assert!(files.get(&String::from("a")).is_none());
}

#[test]
fn insert_replaces_an_earlier_entry() {
    let mut m = FileMap::new();
    m.insert_file(String::from("a"), b"one".to_vec());
    m.insert_file(String::from("a"), b"two".to_vec());
    assert_eq!(m.len(), 1);
    let files = FileViewer::create_viewer(&m, &FileMap::new());
    assert_eq!(
        *files.nth(0).1,
        FileKind::OnlyInLocal { hash: md5_digest(b"two"), contents: b"two".to_vec() }
    );
}

#[test]
fn insert_file_uses_the_md5_digest() {
    let mut m = FileMap::new();
    m.insert_file(String::from("a"), b"file1_contents".to_vec());
    let files = FileViewer::create_viewer(&FileMap::new(), &m);
    match files.nth(0).1 {
        FileKind::OnlyInRemote { hash, .. } => {
            assert_eq!(*hash, md5_digest(b"file1_contents"));
            assert_eq!(format!("{:032x}", hash.value), format!("{:?}", md5::compute(b"file1_contents")));
        }
        other => panic!("expected remote only, got {other:?}"),
    }
}

#[test]
fn path_order_compares_characters() {
    assert!(path_less(&String::from("a"), &String::from("b")));
    assert!(path_less(&String::from("a"), &String::from("ab")));
    assert!(!path_less(&String::from("ab"), &String::from("ab")));
    assert!(!path_less(&String::from("b"), &String::from("a/z")));
    assert!(path_less(&String::from("z"), &String::from("é")));
}

#[test]
fn relative_path_strips_the_root() {
    let root = String::from("/home/u/cync");
    assert_eq!(relative_path(&String::from("/home/u/cync/a/b.txt"), &root), Some(String::from("a/b.txt")));
    assert_eq!(relative_path(&String::from("/home/u/cyncx/a"), &root), None);
    assert_eq!(relative_path(&String::from("/home/u/cync"), &root), None);
    assert_eq!(relative_path(&String::from("/other/a"), &root), None);
}

#[test]
fn local_scan_keys_files_by_relative_path() {
    let root = String::from("/r");
    let files = vec![
        (String::from("/r/x.txt"), b"x".to_vec()),
        (String::from("/r/d/y.txt"), b"y".to_vec()),
    ];
    let m = local_files(&root, &files).unwrap();
    assert_eq!(m.len(), 2);
    let v = FileViewer::create_viewer(&m, &FileMap::new());
    assert_eq!(paths(&v), vec!["d/y.txt", "x.txt"]);
    assert_eq!(
        *v.get(&String::from("x.txt")).unwrap(),
        FileKind::OnlyInLocal { hash: md5_digest(b"x"), contents: b"x".to_vec() }
    );
}

#[test]
fn local_scan_fails_on_a_path_outside_the_root() {
    let files = vec![(String::from("/elsewhere/x.txt"), b"x".to_vec())];
    let r = local_files(&String::from("/r"), &files);
    assert_eq!(r.err(), Some(Error::LoadingLocalFiles(LoadingLocalFiles::FileSystem)));
}

#[test]
fn remote_listing_is_indexed_by_key() {
    let objects = vec![
        (String::from("k2"), b"two".to_vec()),
        (String::from("k1"), b"one".to_vec()),
    ];
    let m = index_files(&objects);
    assert_eq!(m.len(), 2);
    let v = FileViewer::create_viewer(&FileMap::new(), &m);
    assert_eq!(paths(&v), vec!["k1", "k2"]);
    assert_eq!(
        *v.nth(1).1,
        FileKind::OnlyInRemote { hash: md5_digest(b"two"), contents: b"two".to_vec() }
    );
}
