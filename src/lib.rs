//! A local presence daemon's protocol engine: the binary frame codec, the
//! per-connection handshake and dispatch state machine, the activity store
//! keyed by client identity, the snapshot that is published to a sink, and
//! the sink's side of an update.
pub mod activity;
pub mod connection;
pub mod frame;
pub mod json;
pub mod publish;
pub mod sink;
pub mod store;
