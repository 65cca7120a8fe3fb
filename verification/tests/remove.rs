use outsync::path::parse;
use outsync::path::FsPath;
use outsync::remove::best_effort_remove;
use outsync::remove::removal_plan;
use outsync::remove::RemovalPlan;
use outsync::state::Fs;
use outsync::state::FsNode;
use outsync::state::LinkKind;

fn p(text: &str) -> FsPath {
    parse(&text.as_bytes().to_vec())
}

fn fs_with_root() -> Fs {
    let mut fs = Fs::new();
    fs.put_node(&p("/"), FsNode::Dir);
    fs
}

#[test]
fn remove_of_absent_path_is_a_noop() {
    let mut fs = fs_with_root();
    let snapshot = fs.clone();
    best_effort_remove(&mut fs, &p("/missing"), false);
    assert_eq!(fs, snapshot);
    best_effort_remove(&mut fs, &p("/missing"), true);
    assert_eq!(fs, snapshot);
}

#[test]
fn remove_of_dir_link_spares_the_target() {
    for typed_links in [false, true] {
        let mut fs = fs_with_root();
        fs.put_node(&p("/target"), FsNode::Dir);
        fs.put_node(&p("/target/file"), FsNode::File { content: b"keep me".to_vec() });
        fs.put_node(&p("/ln"), FsNode::Link { target: p("/target"), kind: LinkKind::ToDir });
        best_effort_remove(&mut fs, &p("/ln"), typed_links);
        assert!(fs.lookup(&p("/ln")).is_none());
        assert_eq!(fs.lookup(&p("/target")), Some(&FsNode::Dir));
        assert_eq!(
            fs.lookup(&p("/target/file")),
            Some(&FsNode::File { content: b"keep me".to_vec() })
        );
    }
}

#[test]
fn remove_clears_every_node_kind() {
    for typed_links in [false, true] {
        let mut fs = fs_with_root();
        fs.put_node(&p("/a"), FsNode::File { content: b"f".to_vec() });
        fs.put_node(&p("/b"), FsNode::Dir);
        fs.put_node(&p("/c"), FsNode::Link { target: p("/a"), kind: LinkKind::ToFile });
        fs.put_node(&p("/d"), FsNode::Link { target: p("/gone"), kind: LinkKind::Dangling });
        for which in ["/a", "/b", "/c", "/d"] {
            best_effort_remove(&mut fs, &p(which), typed_links);
            assert!(fs.lookup(&p(which)).is_none());
        }
    }
}

#[test]
fn remove_of_directory_clears_its_subtree() {
    for typed_links in [false, true] {
        let mut fs = fs_with_root();
        fs.put_node(&p("/out"), FsNode::Dir);
        fs.put_node(&p("/out/gen"), FsNode::File { content: b"artifact".to_vec() });
        fs.put_node(&p("/out/sub"), FsNode::Dir);
        fs.put_node(&p("/keep"), FsNode::File { content: b"sibling".to_vec() });
        best_effort_remove(&mut fs, &p("/out"), typed_links);
        assert!(fs.lookup(&p("/out")).is_none());
        assert!(fs.lookup(&p("/out/gen")).is_none());
        assert!(fs.lookup(&p("/out/sub")).is_none());
        assert_eq!(
            fs.lookup(&p("/keep")),
            Some(&FsNode::File { content: b"sibling".to_vec() })
        );
    }
}

#[test]
fn remove_dir_all_clears_subtree_and_spares_the_rest() {
    let mut fs = fs_with_root();
    fs.put_node(&p("/d"), FsNode::Dir);
    fs.put_node(&p("/d/inner"), FsNode::File { content: b"x".to_vec() });
    fs.put_node(&p("/other"), FsNode::Dir);
    assert!(fs.remove_dir_all(&p("/d"), false).is_ok());
    assert!(fs.lookup(&p("/d")).is_none());
    assert!(fs.lookup(&p("/d/inner")).is_none());
    assert_eq!(fs.lookup(&p("/other")), Some(&FsNode::Dir));
}

#[test]
fn remove_swallows_denial_and_leaves_state() {
    let mut fs = fs_with_root();
    fs.put_node(&p("/stuck"), FsNode::File { content: b"x".to_vec() });
    fs.denied.push(p("/stuck"));
    let snapshot = fs.clone();
    best_effort_remove(&mut fs, &p("/stuck"), false);
    assert_eq!(fs, snapshot);
}

#[test]
fn removal_plan_table() {
    // with typed links the following observation decides
    assert_eq!(removal_plan(true, Some(true), Some(false)), RemovalPlan::DirTree);
    assert_eq!(removal_plan(true, Some(false), Some(false)), RemovalPlan::FileOnly);
    // a node only the non-following observation sees: a dangling link
    assert_eq!(removal_plan(true, None, Some(false)), RemovalPlan::DirThenFile);
    assert_eq!(removal_plan(true, None, None), RemovalPlan::Nothing);
    // without typed links the non-following observation decides
    assert_eq!(removal_plan(false, Some(true), Some(false)), RemovalPlan::FileOnly);
    assert_eq!(removal_plan(false, Some(true), Some(true)), RemovalPlan::DirTree);
    assert_eq!(removal_plan(false, None, None), RemovalPlan::Nothing);
}
