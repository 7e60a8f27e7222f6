//! Single packet authorization for a device: the knock wire format, a gate
//! that judges knocks, the packet filter in front of it, and the client side
//! that seals them.

pub mod adapters;
pub mod addr;
pub mod audit;
pub mod bundle;
pub mod bytes;
pub mod catalog;
pub mod client;
pub mod config;
pub mod control;
pub mod envelope;
pub mod filter;
pub mod gatekeeper;
pub mod grant;
pub mod guarantees;
pub mod hexcode;
pub mod identity;
pub mod mesh;
pub mod nft;
pub mod primitives;
pub mod protocol;
pub mod provision;
pub mod resolver;
pub mod text;
pub mod watch;
pub mod wire;
