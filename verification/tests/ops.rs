use outsync::error::link_outcome;
use outsync::error::write_outcome;
use outsync::error::FsError;
use outsync::error::FsErrorKind;
use outsync::ops::symlink_dir;
use outsync::ops::symlink_file;
use outsync::path::parse;
use outsync::path::FsPath;
use outsync::state::Fs;
use outsync::state::FsNode;
use outsync::state::LinkKind;

fn p(text: &str) -> FsPath {
    parse(&text.as_bytes().to_vec())
}

fn fs_with_root() -> Fs {
    let mut fs = Fs::new();
    fs.put_node(&p("/"), FsNode::Dir);
    fs
}

#[test]
fn write_creates_file() {
    let mut fs = fs_with_root();
    let content = b"generated".to_vec();
    assert!(outsync::ops::write(&mut fs, &p("/out.rs"), &content, false).is_ok());
    assert_eq!(fs.read_file(&p("/out.rs")).unwrap(), content);
}

#[test]
fn write_same_content_twice_leaves_state_untouched() {
    let mut fs = fs_with_root();
    let content = b"hello world".to_vec();
    assert!(outsync::ops::write(&mut fs, &p("/out.rs"), &content, false).is_ok());
    let after_first = fs.clone();
    assert!(outsync::ops::write(&mut fs, &p("/out.rs"), &content, false).is_ok());
    assert_eq!(fs, after_first);
}

#[test]
fn write_detects_single_byte_change() {
    let mut fs = fs_with_root();
    assert!(outsync::ops::write(&mut fs, &p("/out.rs"), &b"version 1".to_vec(), false).is_ok());
    let newer = b"version 2".to_vec();
    assert!(outsync::ops::write(&mut fs, &p("/out.rs"), &newer, false).is_ok());
    assert_eq!(fs.read_file(&p("/out.rs")).unwrap(), newer);
}

#[test]
fn write_replaces_directory_occupant() {
    let mut fs = fs_with_root();
    fs.put_node(&p("/spot"), FsNode::Dir);
    let content = b"now a file".to_vec();
    assert!(outsync::ops::write(&mut fs, &p("/spot"), &content, false).is_ok());
    assert_eq!(fs.read_file(&p("/spot")).unwrap(), content);
}

#[test]
fn write_creates_parent_directory() {
    let mut fs = fs_with_root();
    let content = b"deep".to_vec();
    assert!(outsync::ops::write(&mut fs, &p("/gen/out.rs"), &content, false).is_ok());
    assert_eq!(fs.lookup(&p("/gen")), Some(&FsNode::Dir));
    assert_eq!(fs.read_file(&p("/gen/out.rs")).unwrap(), content);
}

#[test]
fn write_creates_ancestor_chain() {
    let mut fs = Fs::new();
    let content = b"nested".to_vec();
    assert!(outsync::ops::write(&mut fs, &p("/a/b/out.rs"), &content, false).is_ok());
    assert_eq!(fs.lookup(&p("/")), Some(&FsNode::Dir));
    assert_eq!(fs.lookup(&p("/a")), Some(&FsNode::Dir));
    assert_eq!(fs.lookup(&p("/a/b")), Some(&FsNode::Dir));
    assert_eq!(fs.read_file(&p("/a/b/out.rs")).unwrap(), content);
}

#[test]
fn write_replacing_directory_clears_its_subtree() {
    let mut fs = fs_with_root();
    fs.put_node(&p("/d"), FsNode::Dir);
    fs.put_node(&p("/d/stale"), FsNode::File { content: b"old".to_vec() });
    let content = b"now a file".to_vec();
    assert!(outsync::ops::write(&mut fs, &p("/d"), &content, false).is_ok());
    assert_eq!(fs.read_file(&p("/d")).unwrap(), content);
    assert!(fs.lookup(&p("/d/stale")).is_none());
}

#[test]
fn failed_alias_creation_leaves_destination_empty() {
    let mut fs = fs_with_root();
    fs.denied.push(p("/gone"));
    let err = symlink_file(&mut fs, &p("/src/a"), &p("/gone/ln"), false, false).unwrap_err();
    assert_eq!(err.kind, FsErrorKind::PermissionDenied);
    assert_eq!(err.at, p("/gone"));
    assert!(fs.lookup(&p("/gone/ln")).is_none());
}

#[test]
fn write_prefers_directory_creation_error() {
    let mut fs = Fs::new();
    fs.denied.push(p("/locked"));
    let err = outsync::ops::write(&mut fs, &p("/locked/out.rs"), &b"x".to_vec(), false).unwrap_err();
    assert_eq!(err.kind, FsErrorKind::PermissionDenied);
    assert_eq!(err.at, p("/locked"));
}

#[test]
fn write_surfaces_blocked_parent() {
    let mut fs = fs_with_root();
    assert!(outsync::ops::write(&mut fs, &p("/f"), &b"data".to_vec(), false).is_ok());
    let err = outsync::ops::write(&mut fs, &p("/f/child"), &b"x".to_vec(), false).unwrap_err();
    assert_eq!(err.kind, FsErrorKind::Invalid);
    assert_eq!(err.at, p("/f"));
}

#[test]
fn write_reports_missing_parent() {
    let mut fs = Fs::new();
    fs.put_node(&p("/y"), FsNode::File { content: b"a".to_vec() });
    let err = outsync::ops::write(&mut fs, &p("/y"), &b"b".to_vec(), false).unwrap_err();
    assert_eq!(err.kind, FsErrorKind::NotFound);
    assert_eq!(err.at, p("/y"));
}

#[test]
fn symlink_file_prefers_relative_target() {
    let mut fs = fs_with_root();
    fs.put_node(&p("/proj"), FsNode::Dir);
    assert!(symlink_file(&mut fs, &p("/proj/src/lib.rs"), &p("/proj/link"), false, false).is_ok());
    assert_eq!(
        fs.lookup(&p("/proj/link")),
        Some(&FsNode::Link { target: p("src/lib.rs"), kind: LinkKind::ToFile })
    );
}

#[test]
fn symlink_file_keeps_absolute_target_when_redirected() {
    let mut fs = fs_with_root();
    fs.put_node(&p("/proj"), FsNode::Dir);
    assert!(symlink_file(&mut fs, &p("/proj/src/lib.rs"), &p("/proj/link"), true, false).is_ok());
    assert_eq!(
        fs.lookup(&p("/proj/link")),
        Some(&FsNode::Link { target: p("/proj/src/lib.rs"), kind: LinkKind::ToFile })
    );
}

#[test]
fn symlink_dir_creates_parent_and_link() {
    let mut fs = fs_with_root();
    assert!(symlink_dir(&mut fs, &p("/src/stuff"), &p("/out/gen"), false, false).is_ok());
    assert_eq!(fs.lookup(&p("/out")), Some(&FsNode::Dir));
    assert_eq!(
        fs.lookup(&p("/out/gen")),
        Some(&FsNode::Link { target: p("../src/stuff"), kind: LinkKind::ToDir })
    );
}

#[test]
fn symlink_tolerates_concurrent_creation() {
    let mut fs = fs_with_root();
    fs.put_node(&p("/L"), FsNode::File { content: b"already here".to_vec() });
    fs.denied.push(p("/L"));
    assert!(symlink_file(&mut fs, &p("/src/a"), &p("/L"), false, false).is_ok());
    assert_eq!(
        fs.lookup(&p("/L")),
        Some(&FsNode::File { content: b"already here".to_vec() })
    );
}

#[test]
fn symlink_dir_tolerates_concurrent_creation() {
    let mut fs = fs_with_root();
    fs.put_node(&p("/L"), FsNode::Dir);
    fs.denied.push(p("/L"));
    assert!(symlink_dir(&mut fs, &p("/src/a"), &p("/L"), false, false).is_ok());
    assert_eq!(fs.lookup(&p("/L")), Some(&FsNode::Dir));
}

#[test]
fn symlink_prefers_directory_creation_error() {
    let mut fs = Fs::new();
    fs.denied.push(p("/locked"));
    let err = symlink_file(&mut fs, &p("/src/a"), &p("/locked/ln"), false, false).unwrap_err();
    assert_eq!(err.kind, FsErrorKind::PermissionDenied);
    assert_eq!(err.at, p("/locked"));
}

#[test]
fn make_link_reports_already_exists() {
    let mut fs = fs_with_root();
    fs.put_node(&p("/x"), FsNode::Dir);
    let err = fs.make_link(&p("/t"), &p("/x"), false).unwrap_err();
    assert_eq!(err.kind, FsErrorKind::AlreadyExists);
    assert_eq!(err.at, p("/x"));
}

#[test]
fn write_outcome_prefers_recorded_error() {
    let op: Result<(), FsError> = Err(FsError { kind: FsErrorKind::NotFound, at: p("/f") });
    let recorded = Some(FsError { kind: FsErrorKind::PermissionDenied, at: p("/d") });
    let err = write_outcome(op, recorded).unwrap_err();
    assert_eq!(err.kind, FsErrorKind::PermissionDenied);
    assert_eq!(err.at, p("/d"));
}

#[test]
fn write_outcome_keeps_own_error_without_recorded_one() {
    let op: Result<(), FsError> = Err(FsError { kind: FsErrorKind::NotFound, at: p("/f") });
    let err = write_outcome(op, None).unwrap_err();
    assert_eq!(err.kind, FsErrorKind::NotFound);
    assert_eq!(err.at, p("/f"));
}

#[test]
fn link_outcome_reclassifies_already_exists() {
    let op: Result<(), FsError> = Err(FsError { kind: FsErrorKind::AlreadyExists, at: p("/L") });
    let recorded = Some(FsError { kind: FsErrorKind::PermissionDenied, at: p("/d") });
    assert!(link_outcome(op, recorded).is_ok());
}

#[test]
fn link_outcome_prefers_recorded_error() {
    let op: Result<(), FsError> = Err(FsError { kind: FsErrorKind::NotFound, at: p("/L") });
    let recorded = Some(FsError { kind: FsErrorKind::PermissionDenied, at: p("/d") });
    let err = link_outcome(op, recorded).unwrap_err();
    assert_eq!(err.kind, FsErrorKind::PermissionDenied);
    assert_eq!(err.at, p("/d"));
}
