//! Routing, configuration and bookkeeping logic of a chat proxy that spreads
//! the buddies and the outgoing tells of one Anarchy Online bot over several
//! worker accounts.

pub mod communication;
pub mod text;
pub mod config;
pub mod routing;
pub mod select;
pub mod worker;
pub mod unfreeze;
