//! Relay gateway core: timestamp repair, track projection, the remux
//! pipeline's per-packet decisions and the supervisor that starts, restarts
//! and evicts stream sessions.

pub mod config;
pub mod lookup;
pub mod projection;
pub mod request;
pub mod restarts;
pub mod session;
pub mod srs;
pub mod stream_manager;
pub mod supervision;
pub mod text;
pub mod timestamps;
pub mod transcoder;
