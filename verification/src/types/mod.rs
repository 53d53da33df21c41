//! The types of a configuration.

pub mod common;
pub mod configuration;
pub mod devices;
pub mod filters;
pub mod mixer;
pub mod pipeline;
pub mod processor;
pub mod resampler;
