//! The register machine: registers, condition flags and the executing context.

pub mod builtins;
pub mod executing_context;
pub mod flags;
pub mod register;
