//! How clients and the daemon talk.
pub mod client;
pub mod protocol;
pub mod server;
