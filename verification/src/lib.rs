//! Core of a rendering engine that runs inside a host process owning the window.
//!
//! The crate holds the engine's decisions: how device memory is carved up, in
//! which order native objects are built and torn down, how a frame and a resize
//! proceed, and how the engine waits for answers of the host. Every function is
//! verified against its contract.

pub mod ffi;
pub mod renderer;
pub mod util;
