//! A narrow call interface between a metered contract sandbox and a host
//! service that manages Merkle membership groups: operation identifiers, a
//! deterministic byte codec, a total status-code mapping, the sandbox-side
//! client and the host-side dispatcher.
pub mod accounting;
pub mod client;
pub mod codec;
pub mod dispatch;
pub mod error;
pub mod messages;
pub mod registry;
