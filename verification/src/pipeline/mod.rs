//! What a packet is, and what the capture says of what it could not read.
pub mod apply;
pub mod classify;
pub mod evidence;
pub mod findings;
pub mod history;
pub mod icmp;
pub mod links;
pub mod media;
pub mod quote;
pub mod quoting;
pub mod routing;
pub mod skips;
