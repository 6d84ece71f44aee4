//! What is known of the device.
pub mod android_prop;
pub mod encryption;
pub mod privilege;
pub mod selinux;
pub mod users;
