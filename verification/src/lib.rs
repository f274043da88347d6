//! A bridge that serializes all interaction with a non-thread-safe embedded
//! query engine onto one dedicated worker, exposing a handle-based
//! request/response protocol.
//!
//! The engine's runtime-tagged values are modeled by [`obj::ObjT`]; the worker
//! that owns every live engine value is modeled by [`worker::WorkerState`].
//! The surrounding process plumbing (threads, channels, the foreign engine
//! itself) lives outside this crate and drives these verified cores.

pub mod errors;
pub mod json;
pub mod laws;
pub mod lifecycle;
pub mod meta;
pub mod materialize;
pub mod obj;
pub mod poll;
pub mod rows;
pub mod scalar;
pub mod text;
pub mod worker;

pub use obj::ObjT;
