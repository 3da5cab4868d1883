//! System-call ABI.
//!
//! A trap out of user mode carries a class number and four argument words.
//! [`decode`] turns that raw quintuple into a [`Syscall`], or `None` when
//! the class or its arguments are not part of the ABI — the dispatcher
//! treats such a trap as a fault of the calling process. The decoding is
//! total and exact: [`spec_decode`] states the one meaning of every
//! possible trap.

use vstd::prelude::*;

verus! {

/// Trap class numbers of the ABI.
pub const CLASS_YIELD: usize = 0;

pub const CLASS_SUBSCRIBE: usize = 1;

pub const CLASS_COMMAND: usize = 2;

pub const CLASS_ALLOW_RW: usize = 3;

pub const CLASS_ALLOW_RO: usize = 4;

pub const CLASS_EXIT: usize = 5;

/// Argument words selecting the flavor of a Yield trap.
pub const YIELD_NO_WAIT: usize = 0;

pub const YIELD_WAIT: usize = 1;

/// A decoded system call.
#[derive(Clone, Copy, PartialEq, Eq, Structural, Debug)]
pub enum Syscall {
    /// Relinquish the rest of the time slice; with `wait` the process
    /// blocks until a callback is pending.
    Yield { wait: bool },
    /// Register `callback_ptr` for callbacks `subscribe_id` of `driver`;
    /// `appdata` is handed back verbatim with each callback.
    Subscribe { driver: usize, subscribe_id: usize, callback_ptr: usize, appdata: usize },
    /// Invoke operation `command_id` of `driver` with two argument words.
    Command { driver: usize, command_id: usize, arg0: usize, arg1: usize },
    /// Share `[ptr, ptr + len)` of the caller's RAM with `driver` for
    /// writing.
    ReadWriteAllow { driver: usize, allow_id: usize, ptr: usize, len: usize },
    /// Share `[ptr, ptr + len)` of the caller's RAM with `driver` read-only.
    ReadOnlyAllow { driver: usize, allow_id: usize, ptr: usize, len: usize },
    /// Terminate the calling process with `code`.
    Exit { code: usize },
}

/// The meaning of a raw trap: the system call it encodes, or `None` when
/// the quintuple is not part of the ABI.
pub open spec fn spec_decode(class: usize, a0: usize, a1: usize, a2: usize, a3: usize) -> Option<
    Syscall,
> {
    if class == CLASS_YIELD {
        if a0 == YIELD_NO_WAIT {
            Some(Syscall::Yield { wait: false })
        } else if a0 == YIELD_WAIT {
            Some(Syscall::Yield { wait: true })
        } else {
            None
        }
    } else if class == CLASS_SUBSCRIBE {
        Some(Syscall::Subscribe { driver: a0, subscribe_id: a1, callback_ptr: a2, appdata: a3 })
    } else if class == CLASS_COMMAND {
        Some(Syscall::Command { driver: a0, command_id: a1, arg0: a2, arg1: a3 })
    } else if class == CLASS_ALLOW_RW {
        Some(Syscall::ReadWriteAllow { driver: a0, allow_id: a1, ptr: a2, len: a3 })
    } else if class == CLASS_ALLOW_RO {
        Some(Syscall::ReadOnlyAllow { driver: a0, allow_id: a1, ptr: a2, len: a3 })
    } else if class == CLASS_EXIT {
        Some(Syscall::Exit { code: a0 })
    } else {
        None
    }
}

/// Decodes a trap, exactly as [`spec_decode`] states.
pub fn decode(class: usize, a0: usize, a1: usize, a2: usize, a3: usize) -> (r: Option<Syscall>)
    ensures
        r == spec_decode(class, a0, a1, a2, a3),
{
    if class == CLASS_YIELD {
        if a0 == YIELD_NO_WAIT {
            Some(Syscall::Yield { wait: false })
        } else if a0 == YIELD_WAIT {
            Some(Syscall::Yield { wait: true })
        } else {
            None
        }
    } else if class == CLASS_SUBSCRIBE {
        Some(Syscall::Subscribe { driver: a0, subscribe_id: a1, callback_ptr: a2, appdata: a3 })
    } else if class == CLASS_COMMAND {
        Some(Syscall::Command { driver: a0, command_id: a1, arg0: a2, arg1: a3 })
    } else if class == CLASS_ALLOW_RW {
        Some(Syscall::ReadWriteAllow { driver: a0, allow_id: a1, ptr: a2, len: a3 })
    } else if class == CLASS_ALLOW_RO {
        Some(Syscall::ReadOnlyAllow { driver: a0, allow_id: a1, ptr: a2, len: a3 })
    } else if class == CLASS_EXIT {
        Some(Syscall::Exit { code: a0 })
    } else {
        None
    }
}

/// A short error returned to the calling process, never escalated to a
/// fault.
#[derive(Clone, Copy, PartialEq, Eq, Structural, Debug)]
pub enum SyscallError {
    /// The driver number addresses no registered driver.
    NoSuchDriver,
    /// An Allow buffer does not lie inside the caller's own RAM.
    InvalidBuffer,
}

/// Result code words written back into the process's registers.
pub const RETURN_SUCCESS: usize = 0;

pub const RETURN_NO_SUCH_DRIVER: usize = 1;

pub const RETURN_INVALID_BUFFER: usize = 2;

/// The word a [`SyscallError`] is reported to the process as.
pub open spec fn spec_error_word(e: SyscallError) -> usize {
    match e {
        SyscallError::NoSuchDriver => RETURN_NO_SUCH_DRIVER,
        SyscallError::InvalidBuffer => RETURN_INVALID_BUFFER,
    }
}

/// Encodes an error as its result word, exactly as [`spec_error_word`]
/// states.
pub fn error_word(e: SyscallError) -> (r: usize)
    ensures
        r == spec_error_word(e),
{
    match e {
        SyscallError::NoSuchDriver => RETURN_NO_SUCH_DRIVER,
        SyscallError::InvalidBuffer => RETURN_INVALID_BUFFER,
    }
}

} // verus!
