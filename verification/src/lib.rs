//! A small filesystem-synchronization core for build steps that materialize
//! generated artifacts: writing a file only when its content changed, creating
//! file or directory aliases that tolerate concurrent identical builds, and
//! computing a relative link target when doing so is safe.
//!
//! Paths are held as plain components and the filesystem is a value, so that
//! every operation is a verified function over filesystem state plus its
//! arguments. A thin unverified shell maps the state operations onto the
//! platform's real filesystem calls.

pub mod error;
pub mod path;
pub mod ops;
pub mod relativize;
pub mod remove;
pub mod state;
