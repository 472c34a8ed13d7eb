//! Screen mirroring: from captured video to the receiver's data channel.
pub mod cipher;
pub mod frames;
pub mod h264;
pub mod laws;
pub mod session;
pub mod setup;
pub mod sps;
pub mod stream;
