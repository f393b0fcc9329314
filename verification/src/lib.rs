//! A reliable, ordered datagram protocol over an unreliable packet network.
//!
//! The crate holds the protocol's decisions and no I/O: what goes on the wire,
//! when a packet is sent again, when a reply counts, what is handed to the
//! application and when a send gives up. A caller owns the network socket,
//! performs the actions asked for and reports what happened, and when.

pub mod addr;
pub mod laws;
pub mod packet;
pub mod peer;
pub mod report;
pub mod socket;
pub mod stats;
pub mod table;
