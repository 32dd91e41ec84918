//! Client-side runtime core for the Wayland wire protocol: the codec of primitive values and
//! frames, ring buffers for both directions of a socket, the engine that frames messages in
//! and routes incoming frames to objects, and the registry of waiting objects.
//!
//! Socket calls and task wakeups are left to the caller; every decision in between is made
//! here, with its contract proved.

pub mod bits;
pub mod codegen;
pub mod display;
pub mod interface;
pub mod io;
pub mod message;
pub mod primitives;
pub mod registry;
pub mod ring;
pub mod wire;
