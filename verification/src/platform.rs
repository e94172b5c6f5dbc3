//! The two families of operating system whose process control differs.

use vstd::prelude::*;

verus! {

/// The operating-system family on whose terms processes are started and
/// terminated.
#[derive(Clone, Copy, Debug, PartialEq, Eq, Structural)]
pub enum Platform {
    /// Process groups and signals; commands run under `sh -c`.
    Posix,
    /// No process groups; process trees are ended by `taskkill`, commands run
    /// under `cmd /C`.
    Windows,
}

} // verus!
