//! Control-plane client core for a lattice of hosts: a registry of interface
//! links between components, and the state machine that places a provider or
//! actor on a host (directly or by auction), dispatches the command, and waits
//! for a correlated confirmation event.

pub mod commands;
pub mod config;
pub mod links;
pub mod placement;
