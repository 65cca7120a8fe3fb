use vstd::prelude::*;

use crate::path::{FsPath, PathView};

verus! {

/// The kind of a filesystem failure.
#[derive(Debug, Clone, Copy, PartialEq, Eq, Structural)]
pub enum FsErrorKind {
    /// The platform denies the operation at the path.
    PermissionDenied,
    /// Something already occupies the path.
    AlreadyExists,
    /// The path, or a directory it needs, does not exist.
    NotFound,
    /// The node at the path is of the wrong kind for the operation.
    Invalid,
}

/// Mathematical value of a filesystem failure.
#[verifier::ext_equal]
pub struct ErrorView {
    pub kind: FsErrorKind,
    pub at: PathView,
}

/// A filesystem operation failure: its kind and the path it struck.
#[derive(Debug, PartialEq, Eq)]
pub struct FsError {
    pub kind: FsErrorKind,
    pub at: FsPath,
}

impl View for FsError {
    type V = ErrorView;

    open spec fn view(&self) -> ErrorView {
        ErrorView { kind: self.kind, at: self.at@ }
    }
}

/// The outcome of a conditional write, settled from the main write's result
/// and any error recorded while ensuring the parent directory: a successful
/// write stands regardless of a recorded directory error, since the write
/// succeeding proves the directory existed; a failed write surfaces the
/// directory error when one was recorded, as the likelier root cause, and the
/// write's own error otherwise.
pub fn write_outcome(op: Result<(), FsError>, create_dir_error: Option<FsError>) -> (r: Result<
    (),
    FsError,
>)
    ensures
        r is Ok <==> op is Ok,
        op is Err ==> (create_dir_error matches Some(d) ==> r == Err::<(), FsError>(d)),
        op matches Err(e) ==> (create_dir_error is None ==> r == Err::<(), FsError>(e)),
{
    match op {
        Ok(()) => Ok(()),
        Err(err) => match create_dir_error {
            Some(d) => Err(d),
            None => Err(err),
        },
    }
}

/// The outcome of an alias creation, settled from the platform primitive's
/// result and any error recorded while ensuring the parent directory. Success
/// stands. A failure that says the destination already exists is reclassified
/// as success: it signals that a concurrent, logically identical build step
/// created the same alias first, which is safe under the invariant that a
/// destination path in one output tree always means one thing. Any other
/// failure surfaces the recorded directory error when present, as the likelier
/// root cause, and the primitive's own error otherwise.
pub fn link_outcome(op: Result<(), FsError>, create_dir_error: Option<FsError>) -> (r: Result<
    (),
    FsError,
>)
    ensures
        r is Ok <==> (op is Ok || (op matches Err(e) && e.kind == FsErrorKind::AlreadyExists)),
        op matches Err(e) ==> (e.kind != FsErrorKind::AlreadyExists ==> (
        create_dir_error matches Some(d) ==> r == Err::<(), FsError>(d))),
        op matches Err(e) ==> (e.kind != FsErrorKind::AlreadyExists && create_dir_error is None
            ==> r == Err::<(), FsError>(e)),
{
    match op {
        Ok(()) => Ok(()),
        Err(err) => {
            if err.kind == FsErrorKind::AlreadyExists {
                Ok(())
            } else {
                match create_dir_error {
                    Some(d) => Err(d),
                    None => Err(err),
                }
            }
        },
    }
}

} // verus!
