//! Named-service call dispatch: a registry of handlers fixed at start-up, a
//! dispatcher that routes each request to a handler method and answers every
//! failure with a structured error, a byte codec for arguments and results,
//! and the frames in which requests and responses travel.
use vstd::prelude::*;

pub mod codec;
pub mod handler;
pub mod registry;
pub mod dispatch;
pub mod counter;
pub mod ping;
pub mod frame;
pub mod status;
pub mod server;

verus! {

} // verus!
