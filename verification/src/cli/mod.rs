//! What the command line says and decides.
pub mod clean;
pub mod daemon_ctrl;
pub mod diagnostics;
pub mod output;
