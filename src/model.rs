//! Data shared by every part of the library.

use vstd::prelude::*;

verus! {

/// Every failure that an operation of the library reports.
#[derive(Debug, Clone, Copy, PartialEq, Eq, Structural)]
pub enum Error {
    /// No tracked instance has the given name.
    NotFound,
    /// The name is already on disk or already tracked.
    NameInUse,
    /// The operation is not valid in the instance's current lifecycle state.
    BadState,
    /// One of the requested ports could not be reserved.
    PortsUnavailable,
    /// A value lies outside the allocator's configured range.
    OutOfRange,
    /// A value is already reserved.
    AlreadyTaken,
    /// A value to free is not reserved.
    NotTaken,
    /// The RCON authentication response did not match.
    AuthFailed,
    /// The instance has no live RCON client.
    RconUnavailable,
    /// A transport or operating-system operation failed.
    Io,
    /// A packet body is too long for the packet's size field.
    PacketTooLarge,
    /// Every request id of an RCON session has been used.
    IdsExhausted,
}


/// The ports of one instance: its game port and its RCON port.
#[derive(Debug, Clone, Copy, PartialEq, Eq, Structural)]
pub struct Ports {
    pub port: u16,
    pub rcon: u16,
}

/// What the manifest of an instance holds. Memory figures are in mebibytes.
#[derive(Debug, Clone)]
pub struct InstanceDescriptor {
    /// Unique identifier, also the name of the instance's directory.
    pub name: String,
    /// Where the instance was provisioned from.
    pub source: String,
    /// Launch arguments, passed to the process in this order.
    pub java_args: Vec<String>,
    /// Resident memory of the running process; `None` when not running.
    pub memory: Option<u64>,
    /// Configured memory ceiling.
    pub max_memory: u64,
    pub ports: Ports,
}

/// The ports in use and the two configured ranges, as `[start, end)`.
#[derive(Debug)]
pub struct PortsInfo {
    pub ports: Vec<u16>,
    pub rcons: Vec<u16>,
    pub port_limits: [u16; 2],
    pub rcon_limits: [u16; 2],
}

/// The lifecycle state of an instance.
#[derive(Debug, Clone, Copy, PartialEq, Eq, Structural)]
pub enum InstanceState {
    /// The process runs and its RCON client is connected.
    Running,
    Stopped,
    Crashed,
    /// The process was spawned; RCON is not connected yet.
    Starting,
    /// The archive is being unpacked; no manifest has been written.
    Downloading,
    /// A graceful stop runs in the background.
    Stopping,
}

} // verus!
