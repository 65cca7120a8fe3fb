use outsync::path::parse;
use outsync::path::FsPath;
use outsync::relativize::best_effort_relativize_symlink;
use outsync::relativize::path_contains_intermediate_components;
use outsync::relativize::shared_root;

fn p(text: &str) -> FsPath {
    parse(&text.as_bytes().to_vec())
}

#[test]
fn test_relativize_symlink_unix() {
    assert_eq!(
        best_effort_relativize_symlink(false, &p("/foo/bar/baz"), &p("/foo/spam/eggs")),
        p("../bar/baz")
    );
    assert_eq!(
        best_effort_relativize_symlink(false, &p("/foo/bar/../baz"), &p("/foo/spam/eggs")),
        p("/foo/bar/../baz")
    );
    assert_eq!(
        best_effort_relativize_symlink(false, &p("/foo/bar/baz"), &p("/foo/spam/./eggs")),
        p("../bar/baz")
    );
}

#[test]
fn test_relativize_symlink_windows() {
    let windows_target = FsPath {
        root: Some(b"c:\\".to_vec()),
        segments: vec![b"windows".to_vec(), b"foo".to_vec()],
    };
    let windows_link = FsPath {
        root: Some(b"c:\\".to_vec()),
        segments: vec![b"users".to_vec(), b"link".to_vec()],
    };
    let windows_different_volume_link = FsPath {
        root: Some(b"d:\\".to_vec()),
        segments: vec![b"users".to_vec(), b"link".to_vec()],
    };

    // "..\\windows\\foo", held as its components
    let expected = FsPath {
        root: None,
        segments: vec![b"..".to_vec(), b"windows".to_vec(), b"foo".to_vec()],
    };
    assert_eq!(
        best_effort_relativize_symlink(false, &windows_target, &windows_link),
        expected
    );
    assert_eq!(
        best_effort_relativize_symlink(false, &windows_target, &windows_different_volume_link),
        windows_target
    );
}

#[test]
fn relativize_refuses_when_output_root_redirected() {
    assert_eq!(
        best_effort_relativize_symlink(true, &p("/foo/bar/baz"), &p("/foo/spam/eggs")),
        p("/foo/bar/baz")
    );
}

#[test]
fn relativize_refuses_relative_inputs() {
    assert_eq!(
        best_effort_relativize_symlink(false, &p("foo/bar"), &p("/foo/spam/eggs")),
        p("foo/bar")
    );
    assert_eq!(
        best_effort_relativize_symlink(false, &p("/foo/bar"), &p("spam/eggs")),
        p("/foo/bar")
    );
}

#[test]
fn relativize_refuses_parent_components_in_destination() {
    assert_eq!(
        best_effort_relativize_symlink(false, &p("/foo/bar/baz"), &p("/foo/spam/../eggs")),
        p("/foo/bar/baz")
    );
}

#[test]
fn relativize_climbs_to_bare_root() {
    assert_eq!(
        best_effort_relativize_symlink(false, &p("/a/b"), &p("/c/d")),
        p("../a/b")
    );
    assert_eq!(
        best_effort_relativize_symlink(false, &p("/a/b/c"), &p("/x/y/z")),
        p("../../a/b/c")
    );
}

#[test]
fn relativize_without_climb() {
    assert_eq!(
        best_effort_relativize_symlink(false, &p("/foo/bar/baz"), &p("/foo/bar/eggs")),
        p("baz")
    );
}

#[test]
fn shared_root_of_cousins() {
    assert_eq!(
        shared_root(&p("/foo/bar/baz"), &p("/foo/spam/eggs")),
        p("/foo")
    );
}

#[test]
fn shared_root_of_unrelated_volumes_is_empty() {
    let a = FsPath { root: Some(b"c:\\".to_vec()), segments: vec![b"x".to_vec()] };
    let b = FsPath { root: Some(b"d:\\".to_vec()), segments: vec![b"x".to_vec()] };
    assert_eq!(shared_root(&a, &b), p(""));
}

#[test]
fn shared_root_of_relative_paths() {
    assert_eq!(shared_root(&p("a/b/c"), &p("a/b/d")), p("a/b"));
}

#[test]
fn parent_component_detection() {
    assert!(path_contains_intermediate_components(&p("/foo/../bar")));
    assert!(path_contains_intermediate_components(&p("../bar")));
    assert!(!path_contains_intermediate_components(&p("/foo/bar")));
    assert!(!path_contains_intermediate_components(&p("")));
}
