//! Session and channel bookkeeping for a client that multiplexes many
//! command channels over one authenticated SSH connection.
//!
//! The protocol engine allocates channel identifiers and drives the wire;
//! this library holds what the session shares between all of its channels:
//! a record per channel and one slot for the last error the driver saw.

pub mod channel_state;
pub mod handler;
pub mod laws;

pub use channel_state::{ChannelState, ChannelView};
pub use handler::{ChannelOpenRequest, HandlerState, HandlerView, OpenProgress};
