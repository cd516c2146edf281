//! Error numbers handed back to user programs.
use vstd::prelude::*;

verus! {

#[derive(Debug, Clone, Copy, PartialEq, Eq, Structural)]
pub enum PosixError {
    EPERM,
    ENOENT,
    EIO,
    EACCES,
    ENOTDIR,
    ENFILE,
    EMFILE,
}

} // verus!
