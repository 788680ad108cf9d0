//! The identifiers that the window server and the component store hand out.

use vstd::prelude::*;

verus! {

/// An entity of the component store, by its bits.
pub type Entity = u64;

/// A window, as the window server numbers it.
pub type WinID = i32;

/// A process.
pub type Pid = i32;

/// A native space.
pub type WorkspaceId = u64;

/// A physical display.
pub type CGDirectDisplayID = u32;

/// The serial number that the window server keeps for a process.
#[derive(Clone, Copy, Debug, PartialEq, Eq, Structural)]
pub struct ProcessSerialNumber {
    pub high: u32,
    pub low: u32,
}

} // verus!
