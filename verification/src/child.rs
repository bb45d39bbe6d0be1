//! The decisions of a process that forks a child to read memory from.

use vstd::prelude::*;

verus! {

/// What the number that `fork` returned means to the process that got it.
#[derive(Debug, Clone, Copy, PartialEq, Eq, Structural)]
pub enum ForkRole {
    /// There is no child.
    Failed,
    /// This process is the child.
    Child,
    /// This process is the parent of the child `pid`.
    Parent { pid: i32 },
    /// `fork` does not return such a number.
    Unexpected,
}

/// Reads the number that `fork` returned.
pub fn fork_role(returned: i32) -> (role: ForkRole)
    ensures
        role == (if returned > 0 {
            ForkRole::Parent { pid: returned }
        } else if returned == 0 {
            ForkRole::Child
        } else if returned == -1 {
            ForkRole::Failed
        } else {
            ForkRole::Unexpected
        }),
{
    if returned > 0 {
        ForkRole::Parent { pid: returned }
    } else if returned == 0 {
        ForkRole::Child
    } else if returned == -1 {
        ForkRole::Failed
    } else {
        ForkRole::Unexpected
    }
}

/// The number of bytes in an address.
pub open spec fn address_bytes() -> nat {
    (usize::BITS / 8) as nat
}

/// The address that the child sent, where `read` bytes of it came through the
/// pipe: all of them or none at all.
pub fn received_address(read: isize, address: usize) -> (received: Option<usize>)
    ensures
        received == (if read == address_bytes() {
            Some(address)
        } else {
            None
        }),
{
    if read == (usize::BITS / 8) as isize {
        Some(address)
    } else {
        None
    }
}

} // verus!
