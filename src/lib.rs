//! Render/simulation synchronisation core of a hex-grid factory game:
//! stepped animation sampling, model-grouped instance batching, single-flight
//! snapshot caches, per-frame pass planning and screenshot readback.
pub mod animation;
pub mod batch;
pub mod compositor;
pub mod frame;
pub mod gui;
pub mod scene;
pub mod screenshot;
pub mod translate;
pub mod snapshot;
