//! Graphics devices as the kernel's direct rendering manager shows them.

pub mod client;
pub mod device;
