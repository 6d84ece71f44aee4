//! What the kernel tells of the hardware.
pub mod f2fs;
pub mod telemetry;
pub mod thermal;
pub mod uevent;
