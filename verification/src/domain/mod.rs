//! The vocabulary of a cleanup: what is found, decided, planned and done.
pub mod candidate;
pub mod decision;
pub mod grant;
pub mod intent;
pub mod job;
pub mod plan;
pub mod result;
pub mod target;
pub mod types;
