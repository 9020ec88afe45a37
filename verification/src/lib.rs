//! Orchestration core that turns an unordered set of content-addressed
//! wasm layers into a fully resolved, precompiled, provenance-tagged
//! layer set: it locates the application manifest, resolves every
//! component's declared digests against the input layers, normalizes raw
//! module bytes to the composable encoding, rewrites each component's
//! digest to that of its compiled form, and emits one output layer per
//! component plus the re-encoded manifest.

pub mod digest;
pub mod errors;
pub mod layer;
pub mod manifest;
pub mod normalize;
pub mod pipeline;
pub mod provenance;
