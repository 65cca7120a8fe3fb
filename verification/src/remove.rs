use vstd::prelude::*;

use crate::path::FsPath;
use crate::path::PathView;
use crate::state::{within, Fs, NodeView};

verus! {

/// What best-effort removal decides to do at a destination.
#[derive(Debug, Clone, Copy, PartialEq, Eq, Structural)]
pub enum RemovalPlan {
    /// Nothing occupies the path: leave it alone.
    Nothing,
    /// Remove with the directory primitive.
    DirTree,
    /// Remove with the file primitive.
    FileOnly,
    /// The kind cannot be determined, as for a dangling link on a platform
    /// with typed links: try the directory primitive, fall back to the file
    /// primitive.
    DirThenFile,
}

/// The strategy table of best-effort removal: on a platform with typed links
/// the following observation decides, and a node only the non-following
/// observation sees gets both calls tried; elsewhere the non-following
/// observation decides.
pub open spec fn removal_plan_spec(
    typed_links: bool,
    follow_is_dir: Option<bool>,
    nofollow_is_dir: Option<bool>,
) -> RemovalPlan {
    if typed_links {
        match follow_is_dir {
            Some(true) => RemovalPlan::DirTree,
            Some(false) => RemovalPlan::FileOnly,
            None => if nofollow_is_dir is Some {
                RemovalPlan::DirThenFile
            } else {
                RemovalPlan::Nothing
            },
        }
    } else {
        match nofollow_is_dir {
            Some(true) => RemovalPlan::DirTree,
            Some(false) => RemovalPlan::FileOnly,
            None => RemovalPlan::Nothing,
        }
    }
}

/// Which removal call clears a destination, chosen once from one platform
/// capability flag and the two metadata observations of the destination. On a
/// platform with typed links the right call goes by what a link points at, so
/// the following observation decides, and a node that only the non-following
/// observation sees is a dangling link whose kind cannot be determined: both
/// calls are tried. On every other platform the non-following observation
/// decides, so that a link to a directory is removed as the link it is and
/// never walked as a directory.
pub fn removal_plan(typed_links: bool, follow_is_dir: Option<bool>, nofollow_is_dir: Option<
    bool,
>) -> (r: RemovalPlan)
    ensures
        r == removal_plan_spec(typed_links, follow_is_dir, nofollow_is_dir),
{
    if typed_links {
        match follow_is_dir {
            Some(true) => RemovalPlan::DirTree,
            Some(false) => RemovalPlan::FileOnly,
            None => {
                if nofollow_is_dir.is_some() {
                    RemovalPlan::DirThenFile
                } else {
                    RemovalPlan::Nothing
                }
            },
        }
    } else {
        match nofollow_is_dir {
            Some(true) => RemovalPlan::DirTree,
            Some(false) => RemovalPlan::FileOnly,
            None => RemovalPlan::Nothing,
        }
    }
}

/// Attempts to delete whatever occupies the path, whether a regular file, a
/// directory, or a symbolic link of any kind, removing a link itself rather
/// than what it points at. Failures are swallowed by design, so the operation
/// has no error channel at all: deletion is a preparatory step, and the
/// caller's own write or link creation is the authoritative failure signal.
/// An absent path is left untouched, as is one the platform denies. A real
/// directory is removed with everything at or under its path; a file or a
/// link of any kind is removed alone, so a link's target and the target's
/// contents stand untouched; nothing outside the removed path's subtree is
/// ever affected.
pub fn best_effort_remove(fs: &mut Fs, path: &FsPath, typed_links: bool)
    ensures
        final(fs).denied == old(fs).denied,
        forall|q: PathView| !within(q, path@) ==> final(fs).node(q) == old(fs).node(q),
        old(fs).node(path@) is None ==> *final(fs) == *old(fs),
        old(fs).is_denied(path@) ==> *final(fs) == *old(fs),
        !old(fs).is_denied(path@) ==> final(fs).node(path@) is None,
        !old(fs).is_denied(path@) && old(fs).node(path@) == Some(NodeView::Dir) ==> forall|
            q: PathView,
        | within(q, path@) ==> final(fs).node(q) is None,
        old(fs).node(path@) != Some(NodeView::Dir) ==> forall|q: PathView|
            q != path@ ==> final(fs).node(q) == old(fs).node(q),
{
    let follow = fs.stat_follow(path);
    let nofollow = fs.stat_nofollow(path);
    match removal_plan(typed_links, follow, nofollow) {
        RemovalPlan::Nothing => {},
        RemovalPlan::DirTree => {
            let _ = fs.remove_dir_all(path, typed_links);
        },
        RemovalPlan::FileOnly => {
            let _ = fs.remove_file(path, typed_links);
        },
        RemovalPlan::DirThenFile => {
            let first = fs.remove_dir_all(path, typed_links);
            if first.is_err() {
                let _ = fs.remove_file(path, typed_links);
            }
        },
    }
}

} // verus!
