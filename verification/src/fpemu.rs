//! An interpreter for the subset of A64 that the FairPlay SAP exchange runs on.
pub mod contexts;
pub mod cpu;
pub mod decode;
pub mod fault;
pub mod helpers;
pub mod lanes;
pub mod laws;
pub mod loader;
pub mod machine;
pub mod mem;
pub mod state;
pub mod stubs;
