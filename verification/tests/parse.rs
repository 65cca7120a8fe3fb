use outsync::path::parse;
use outsync::path::path_eq;
use outsync::path::FsPath;

fn p(text: &str) -> FsPath {
    parse(&text.as_bytes().to_vec())
}

#[test]
fn parse_absolute_path() {
    let r = p("/foo/bar/baz");
    assert_eq!(r.root, Some(b"/".to_vec()));
    assert_eq!(
        r.segments,
        vec![b"foo".to_vec(), b"bar".to_vec(), b"baz".to_vec()]
    );
}

#[test]
fn parse_relative_path() {
    let r = p("foo/bar");
    assert_eq!(r.root, None);
    assert_eq!(r.segments, vec![b"foo".to_vec(), b"bar".to_vec()]);
}

#[test]
fn parse_drops_empty_and_current_dir_components() {
    let r = p("/foo//spam/./eggs/");
    assert_eq!(r, p("/foo/spam/eggs"));
    assert_eq!(p("./a/./b"), p("a/b"));
}

#[test]
fn parse_keeps_parent_components() {
    let r = p("/foo/bar/../baz");
    assert_eq!(
        r.segments,
        vec![b"foo".to_vec(), b"bar".to_vec(), b"..".to_vec(), b"baz".to_vec()]
    );
}

#[test]
fn parse_empty_and_bare_root() {
    assert_eq!(p(""), FsPath { root: None, segments: vec![] });
    assert_eq!(p("/"), FsPath { root: Some(b"/".to_vec()), segments: vec![] });
}

#[test]
fn path_eq_follows_components() {
    assert!(path_eq(&p("/a/b"), &p("/a//b/")));
    assert!(!path_eq(&p("/a/b"), &p("a/b")));
    assert!(!path_eq(&p("/a/b"), &p("/a/c")));
}
