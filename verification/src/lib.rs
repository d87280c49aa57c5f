//! Build, convert and run bare-metal images for a fixed set of CPU
//! architectures: architecture detection, layered configuration
//! resolution, artifact path derivation, and a fail-fast step pipeline.

pub mod arch;
pub mod codec;
pub mod config;
pub mod errors;
pub mod pipeline;
pub mod prepare;
pub mod project;
pub mod strutil;
