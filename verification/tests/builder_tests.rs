use remote_mirror::builder::{add_entry, build, EntryKind, WalkEntry};
use remote_mirror::digest::hash;
use remote_mirror::error::SyncError;
use remote_mirror::manifest::Manifest;

fn file(path: &str, content: &str) -> WalkEntry {
    WalkEntry { path: path.to_string(), kind: EntryKind::File, content: content.as_bytes().to_vec() }
}

fn other(path: &str, kind: EntryKind) -> WalkEntry {
    WalkEntry { path: path.to_string(), kind, content: Vec::new() }
}

#[test]
fn build_lists_each_file_with_the_digest_of_its_content() {
    let m = build(&vec![file("a.txt", "alpha"), file("dir/b.txt", "beta")]).expect("a manifest");
    assert_eq!(
        m.to_pairs(),
        vec![
            ("a.txt".to_string(), hash(b"alpha")),
            ("dir/b.txt".to_string(), hash(b"beta")),
        ]
    );
}

#[test]
fn build_of_an_empty_directory_is_the_empty_manifest() {
    let m = build(&Vec::new()).expect("a manifest");
    assert!(m.is_empty());
    let m = build(&vec![other("sub", EntryKind::Directory)]).expect("a manifest");
    assert!(m.is_empty());
}

#[test]
fn build_passes_over_what_is_not_a_regular_file() {
    let entries = vec![
        other("dir", EntryKind::Directory),
        file("dir/a.txt", "a"),
        other("dir/link", EntryKind::Symlink),
        other("dir/pipe", EntryKind::Other),
        file("b.txt", "b"),
    ];
    let m = build(&entries).expect("a manifest");
    assert_eq!(m.len(), 2);
    assert!(m.contains("dir/a.txt"));
    assert!(m.contains("b.txt"));
    assert!(!m.contains("dir"));
    assert!(!m.contains("dir/link"));
    assert!(!m.contains("dir/pipe"));
}

#[test]
fn build_passes_over_other_entries_whatever_their_path() {
    // the root itself comes with an empty path, as a directory
    let entries = vec![other("", EntryKind::Directory), file("a.txt", "a")];
    let m = build(&entries).expect("a manifest");
    assert_eq!(m.len(), 1);
}

#[test]
fn build_keeps_files_of_the_same_name_in_two_directories_apart() {
    let m = build(&vec![file("left/same.txt", "one"), file("right/same.txt", "two")])
        .expect("a manifest");
    assert_eq!(m.len(), 2);
    assert_eq!(m.get("left/same.txt"), Some(&hash(b"one")));
    assert_eq!(m.get("right/same.txt"), Some(&hash(b"two")));
}

#[test]
fn build_does_not_depend_on_the_order_of_the_walk() {
    let one = vec![
        file("a.txt", "alpha"),
        other("dir", EntryKind::Directory),
        file("dir/b.txt", "beta"),
        file("dir/c.txt", "gamma"),
    ];
    let two = vec![
        file("dir/c.txt", "gamma"),
        file("dir/b.txt", "beta"),
        other("dir", EntryKind::Directory),
        file("a.txt", "alpha"),
    ];
    let three = vec![one[2].clone(), one[0].clone(), one[3].clone(), one[1].clone()];
    let m1 = build(&one).expect("a manifest");
    let m2 = build(&two).expect("a manifest");
    let m3 = build(&three).expect("a manifest");
    assert!(m1.same_as(&m2));
    assert!(m1.same_as(&m3));
    assert!(m2.same_as(&m3));
}

#[test]
fn build_fails_as_a_whole() {
    let twice = vec![file("a.txt", "one"), file("b.txt", "b"), file("a.txt", "two")];
    assert_eq!(build(&twice).err(), Some(SyncError::IoError));
    let twice_reversed = vec![file("a.txt", "two"), file("b.txt", "b"), file("a.txt", "one")];
    assert_eq!(build(&twice_reversed).err(), Some(SyncError::IoError));
    let climbing = vec![file("ok.txt", "x"), file("../out.txt", "y")];
    assert_eq!(build(&climbing).err(), Some(SyncError::IoError));
    let absolute = vec![file("/abs.txt", "y")];
    assert_eq!(build(&absolute).err(), Some(SyncError::IoError));
    let unnamed = vec![file("", "y")];
    assert_eq!(build(&unnamed).err(), Some(SyncError::IoError));
}

#[test]
fn add_entry_lists_one_file_at_a_time() {
    let mut m = Manifest::new();
    assert_eq!(add_entry(&mut m, "a.txt".to_string(), EntryKind::File, b"alpha"), Ok(()));
    assert_eq!(add_entry(&mut m, "dir".to_string(), EntryKind::Directory, b""), Ok(()));
    assert_eq!(add_entry(&mut m, "l".to_string(), EntryKind::Symlink, b""), Ok(()));
    assert_eq!(add_entry(&mut m, "o".to_string(), EntryKind::Other, b""), Ok(()));
    assert_eq!(m.len(), 1);
    assert_eq!(m.get("a.txt"), Some(&hash(b"alpha")));
    assert_eq!(
        add_entry(&mut m, "a.txt".to_string(), EntryKind::File, b"again"),
        Err(SyncError::IoError)
    );
    assert_eq!(
        add_entry(&mut m, "../b.txt".to_string(), EntryKind::File, b"b"),
        Err(SyncError::IoError)
    );
    assert_eq!(m.len(), 1);
    assert_eq!(m.get("a.txt"), Some(&hash(b"alpha")));
}
