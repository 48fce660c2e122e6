//! Render-queue batching for a sprite and mesh renderer.
//!
//! Draw submissions are collected per frame in a [`context::DrawContext`],
//! grouped by a [`handles::MeshGroupKey`] and kept in key order. Once a frame
//! the queue is drained and [`batching::plan_frame`] turns it into render
//! passes: meshes y-sorted where asked for, geometry merged, textures resolved
//! with fallbacks, and each render target cleared by its first pass only.
//! Pipelines are cached by configuration ([`pipeline::PipelineCache`]) and the
//! uniform values of custom shaders are resolved per shader instance.
//! The GPU work itself lies outside this crate.

pub mod assets;
pub mod batching;
pub mod buffers;
pub mod config;
pub mod context;
pub mod frame;
pub mod handles;
pub mod mesh;
pub mod pipeline;
pub mod queue;
pub mod shader;
pub mod shader_source;
pub mod targets;
pub mod timing;
pub mod uniforms;
pub mod ysort;
