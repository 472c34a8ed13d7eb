//! The sound: its frames, its encryption and its packets.
pub mod aead;
pub mod alac;
pub mod laws;
pub mod sender;
pub mod stream;
