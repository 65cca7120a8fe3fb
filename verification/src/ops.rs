use vstd::prelude::*;

use crate::error::{link_outcome, write_outcome, ErrorView, FsError, FsErrorKind};
use crate::path::{FsPath, PathView};
use crate::relativize::{
    best_effort_relativize_symlink, relative_target, relativization_applies, shared_len,
};
use crate::remove::best_effort_remove;
use crate::state::{
    dir_chain_failure, dir_chain_ok, file_content, parent_of, parent_view, within, Fs, LinkKind,
    NodeView,
};

verus! {

/// True when a regular file at the path already holds exactly the desired
/// content and the platform lets it be read: a conditional write then touches
/// nothing.
pub open spec fn content_unchanged(fs0: Fs, p: PathView, c: Seq<u8>) -> bool {
    file_content(fs0.node(p)) == Some(c) && !fs0.is_denied(p)
}

/// True when, after the preparatory removal or directory step, the main write
/// or link creation at the path goes through: the path is not denied, names a
/// component under its parent, and that parent is a directory already or its
/// whole chain can be made one.
pub open spec fn step_reaches(fs0: Fs, p: PathView) -> bool {
    &&& !fs0.is_denied(p)
    &&& p.segments.len() >= 1
    &&& (fs0.node(parent_view(p)) == Some(NodeView::Dir) || (fs0.node(p) is None && dir_chain_ok(
        fs0,
        parent_view(p),
    )))
}

/// The failure a conditional write reports when it fails: with an occupant at
/// the path, the main write's own failure; with nothing there, the directory
/// step's failure when that step failed, as the likelier root cause, and the
/// main write's otherwise.
pub open spec fn write_failure(fs0: Fs, p: PathView) -> ErrorView {
    if fs0.node(p) is Some {
        if fs0.is_denied(p) {
            ErrorView { kind: FsErrorKind::PermissionDenied, at: p }
        } else {
            ErrorView { kind: FsErrorKind::NotFound, at: p }
        }
    } else {
        let par = parent_view(p);
        if !dir_chain_ok(fs0, par) {
            dir_chain_failure(fs0, par)
        } else if fs0.is_denied(p) {
            ErrorView { kind: FsErrorKind::PermissionDenied, at: p }
        } else {
            ErrorView { kind: FsErrorKind::NotFound, at: p }
        }
    }
}

/// The failure an alias creation reports when it fails. An occupant that
/// best-effort removal could not clear does not fail the operation at all, so
/// with an occupant at the path an error can only say the path or its parent
/// was missing; with nothing there, the rule of `write_failure` applies.
pub open spec fn link_failure(fs0: Fs, p: PathView) -> ErrorView {
    if fs0.node(p) is Some {
        ErrorView { kind: FsErrorKind::NotFound, at: p }
    } else {
        write_failure(fs0, p)
    }
}

/// Idempotence of the conditional write: the state a successful write of
/// some content leaves, a regular file holding exactly that content at an
/// undenied path, is a state in which a second write of the same content
/// finds the content unchanged, and so, by the contract of `write`, returns
/// success and leaves the filesystem exactly as it stands: the
/// content-mutating step runs at most once across the pair of calls.
pub proof fn lemma_write_idempotent(fs1: Fs, p: PathView, c: Seq<u8>)
    requires
        file_content(fs1.node(p)) == Some(c),
        !fs1.is_denied(p),
    ensures
        content_unchanged(fs1, p, c),
{
}

fn bytes_equal(a: &Vec<u8>, b: &Vec<u8>) -> (r: bool)
    ensures
        r == (a@ == b@),
{
    let r = a == b;
    proof {
        if r {
            assert(a@ =~= b@);
        }
    }
    r
}

/// Ensures the path names a regular file holding exactly the given content.
/// An existing file already holding it byte for byte is left untouched, so
/// its modification state is not disturbed; any other occupant, or one that
/// cannot be read, is removed best-effort first, failures ignored. Where
/// nothing occupies the path, the parent directory chain is ensured and an
/// error there is recorded rather than returned: a write that then succeeds
/// proves the directory existed, and a write that fails surfaces the recorded
/// error as the likelier root cause. Nothing outside the path's own subtree
/// and the parent chain is touched, and on failure the path holds no file:
/// either its occupant stands because the platform denied removal, or the
/// path is empty. `typed_links` is the platform capability flag that
/// best-effort removal classifies by.
pub fn write(fs: &mut Fs, path: &FsPath, content: &Vec<u8>, typed_links: bool) -> (r: Result<
    (),
    FsError,
>)
    requires
        old(fs).node(path@) is Some || path@.segments.len() >= 1,
    ensures
        final(fs).denied == old(fs).denied,
        forall|q: PathView|
            !within(q, path@) && !within(parent_view(path@), q) ==> final(fs).node(q) == old(
                fs,
            ).node(q),
        content_unchanged(*old(fs), path@, content@) ==> r is Ok && *final(fs) == *old(fs),
        r is Ok <==> (content_unchanged(*old(fs), path@, content@) || step_reaches(
            *old(fs),
            path@,
        )),
        r is Ok ==> file_content(final(fs).node(path@)) == Some(content@),
        r is Ok && old(fs).node(path@) is None ==> final(fs).node(parent_view(path@)) == Some(
            NodeView::Dir,
        ),
        r is Err ==> final(fs).node(path@) == (if old(fs).is_denied(path@) {
            old(fs).node(path@)
        } else {
            Option::<NodeView>::None
        }),
        r matches Err(e) ==> e@ == write_failure(*old(fs), path@),
{
    let mut create_dir_error: Option<FsError> = None;
    if fs.exists_at(path) {
        let mut unchanged = false;
        match fs.read_file(path) {
            Ok(existing) => {
                if bytes_equal(&existing, content) {
                    // Avoid bumping the modification state with unchanged
                    // contents.
                    unchanged = true;
                }
            },
            Err(_) => {},
        }
        if unchanged {
            return Ok(());
        }
        best_effort_remove(fs, path, typed_links);
    } else {
        let par = parent_of(path);
        proof {
            assert(parent_view(path@).segments.len() == path@.segments.len() - 1);
            assert(!within(parent_view(path@), path@));
        }
        create_dir_error = match fs.create_dir_all(&par) {
            Ok(()) => None,
            Err(e) => Some(e),
        };
    }
    let op = fs.write_file(path, content);
    write_outcome(op, create_dir_error)
}

fn ensure_alias(
    fs: &mut Fs,
    original: &FsPath,
    link: &FsPath,
    redirected: bool,
    typed_links: bool,
    to_dir: bool,
) -> (r: Result<(), FsError>)
    requires
        relativization_applies(redirected, original@, link@) && original@.root == link@.root
            ==> shared_len(original@.segments, link@.segments) < link@.segments.len(),
        old(fs).node(link@) is Some || link@.segments.len() >= 1,
    ensures
        final(fs).denied == old(fs).denied,
        forall|q: PathView|
            !within(q, link@) && !within(parent_view(link@), q) ==> final(fs).node(q) == old(
                fs,
            ).node(q),
        old(fs).node(link@) is Some && old(fs).is_denied(link@) ==> r is Ok && *final(fs) == *old(
            fs,
        ),
        r is Ok <==> (step_reaches(*old(fs), link@) || (old(fs).node(link@) is Some && old(
            fs,
        ).is_denied(link@))),
        r is Ok && !old(fs).is_denied(link@) ==> final(fs).node(link@) == Some(
            NodeView::Link {
                target: relative_target(redirected, original@, link@),
                kind: if to_dir {
                    LinkKind::ToDir
                } else {
                    LinkKind::ToFile
                },
            },
        ),
        r is Ok && old(fs).node(link@) is None ==> final(fs).node(parent_view(link@)) == Some(
            NodeView::Dir,
        ),
        r is Err ==> final(fs).node(link@) is None,
        r matches Err(e) ==> e@ == link_failure(*old(fs), link@),
{
    let target = best_effort_relativize_symlink(redirected, original, link);

    let mut create_dir_error: Option<FsError> = None;
    if fs.exists_at(link) {
        best_effort_remove(fs, link, typed_links);
    } else {
        let par = parent_of(link);
        proof {
            assert(parent_view(link@).segments.len() == link@.segments.len() - 1);
            assert(!within(parent_view(link@), link@));
        }
        create_dir_error = match fs.create_dir_all(&par) {
            Ok(()) => None,
            Err(e) => Some(e),
        };
    }
    let op = fs.make_link(&target, link, to_dir);
    link_outcome(op, create_dir_error)
}

/// Creates a file alias at `link` that resolves to `original`'s content,
/// preferring a relative link target where that is safe. An occupant at the
/// destination is removed best-effort first; otherwise the destination's
/// parent directory chain is ensured, an error there being recorded rather
/// than returned. A creation that fails because the destination already
/// exists is success: a concurrent, logically identical build step made the
/// same alias, and a destination path in one output tree always means one
/// thing. Any other failure surfaces the recorded directory error when
/// present, else its own, and leaves the destination empty: no half-made
/// alias stands after an error.
pub fn symlink_file(
    fs: &mut Fs,
    original: &FsPath,
    link: &FsPath,
    redirected: bool,
    typed_links: bool,
) -> (r: Result<(), FsError>)
    requires
        relativization_applies(redirected, original@, link@) && original@.root == link@.root
            ==> shared_len(original@.segments, link@.segments) < link@.segments.len(),
        old(fs).node(link@) is Some || link@.segments.len() >= 1,
    ensures
        final(fs).denied == old(fs).denied,
        forall|q: PathView|
            !within(q, link@) && !within(parent_view(link@), q) ==> final(fs).node(q) == old(
                fs,
            ).node(q),
        old(fs).node(link@) is Some && old(fs).is_denied(link@) ==> r is Ok && *final(fs) == *old(
            fs,
        ),
        r is Ok <==> (step_reaches(*old(fs), link@) || (old(fs).node(link@) is Some && old(
            fs,
        ).is_denied(link@))),
        r is Ok && !old(fs).is_denied(link@) ==> final(fs).node(link@) == Some(
            NodeView::Link {
                target: relative_target(redirected, original@, link@),
                kind: LinkKind::ToFile,
            },
        ),
        r is Ok && old(fs).node(link@) is None ==> final(fs).node(parent_view(link@)) == Some(
            NodeView::Dir,
        ),
        r is Err ==> final(fs).node(link@) is None,
        r matches Err(e) ==> e@ == link_failure(*old(fs), link@),
{
    ensure_alias(fs, original, link, redirected, typed_links, false)
}

/// Creates a directory alias at `link` that resolves to `original`,
/// preferring a relative link target where that is safe, with the same
/// preparatory steps, race tolerance and error precedence as `symlink_file`.
pub fn symlink_dir(
    fs: &mut Fs,
    original: &FsPath,
    link: &FsPath,
    redirected: bool,
    typed_links: bool,
) -> (r: Result<(), FsError>)
    requires
        relativization_applies(redirected, original@, link@) && original@.root == link@.root
            ==> shared_len(original@.segments, link@.segments) < link@.segments.len(),
        old(fs).node(link@) is Some || link@.segments.len() >= 1,
    ensures
        final(fs).denied == old(fs).denied,
        forall|q: PathView|
            !within(q, link@) && !within(parent_view(link@), q) ==> final(fs).node(q) == old(
                fs,
            ).node(q),
        old(fs).node(link@) is Some && old(fs).is_denied(link@) ==> r is Ok && *final(fs) == *old(
            fs,
        ),
        r is Ok <==> (step_reaches(*old(fs), link@) || (old(fs).node(link@) is Some && old(
            fs,
        ).is_denied(link@))),
        r is Ok && !old(fs).is_denied(link@) ==> final(fs).node(link@) == Some(
            NodeView::Link {
                target: relative_target(redirected, original@, link@),
                kind: LinkKind::ToDir,
            },
        ),
        r is Ok && old(fs).node(link@) is None ==> final(fs).node(parent_view(link@)) == Some(
            NodeView::Dir,
        ),
        r is Err ==> final(fs).node(link@) is None,
        r matches Err(e) ==> e@ == link_failure(*old(fs), link@),
{
    ensure_alias(fs, original, link, redirected, typed_links, true)
}

} // verus!
