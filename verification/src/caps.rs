//! Capability tokens.
//!
//! A capability is a zero-sized proof object: holding a value of one of
//! these types is the only way to call the privileged kernel operation it
//! gates, so an unauthorized call is a compile-time error, not a runtime
//! check. The fields are private; code outside this crate can obtain a
//! token only through the blessed constructor below it. Board-integration
//! startup code mints each token it needs exactly once and threads it, by
//! reference, into the operations that demand it; no other code should call
//! a constructor.

use vstd::prelude::*;

verus! {

/// Authorizes loading processes into the kernel's process table.
pub struct ProcessManagementCapability {
    _token: (),
}

impl ProcessManagementCapability {
    /// Mints the token; reserved to board-integration startup code.
    pub fn create() -> ProcessManagementCapability {
        ProcessManagementCapability { _token: () }
    }
}

/// Authorizes driving the kernel's main scheduling loop.
pub struct MainLoopCapability {
    _token: (),
}

impl MainLoopCapability {
    /// Mints the token; reserved to board-integration startup code.
    pub fn create() -> MainLoopCapability {
        MainLoopCapability { _token: () }
    }
}

/// Authorizes carving grant memory out of a process's RAM from outside a
/// capsule.
pub struct MemoryAllocationCapability {
    _token: (),
}

impl MemoryAllocationCapability {
    /// Mints the token; reserved to board-integration startup code.
    pub fn create() -> MemoryAllocationCapability {
        MemoryAllocationCapability { _token: () }
    }
}

} // verus!
