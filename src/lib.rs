//! Decisions of an audio-reactive renderer: decoding control datagrams,
//! folding them into the visual state once per frame, choosing the platform
//! extensions of the GPU instance, and ordering its teardown.

pub mod frame;
pub mod gpu;
pub mod listener;
pub mod visuals;
pub mod wire;
