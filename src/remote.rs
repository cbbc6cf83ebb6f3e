//! The remote host's side of the pipeline.

pub mod config;
