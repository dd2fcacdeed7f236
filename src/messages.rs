//! Operations addressed to the supervisor and to single instances.

pub mod instance_messages;
pub mod native_messages;

use vstd::prelude::*;

verus! {

/// The periodic heartbeat that drives memory sampling and crash detection.
#[derive(Debug, Clone, Copy)]
pub struct Tick;

} // verus!
