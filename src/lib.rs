//! Lifecycle management for game-server child processes: port allocation,
//! the per-instance state machine, the supervisor's registry and the RCON
//! wire protocol.

pub mod model;
pub mod utils;
pub mod rcon;
pub mod instance;
pub mod messages;
pub mod native;
