//! What holds of the protocol, of each step and over many steps.

pub mod delivery;
pub mod history;
pub mod operations;
pub mod receiving;
pub mod reporting;
pub mod sending;
pub mod steps;
pub mod wire;
