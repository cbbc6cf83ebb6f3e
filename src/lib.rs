//! Bootstrapping support for freshly imaged hosts: the line editors for the
//! known-hosts store and the secrets registry, and the remote session model.

pub mod config;
pub mod disk;
pub mod document;
pub mod keys;
pub mod known_hosts;
pub mod local;
pub mod params;
pub mod registry;
pub mod remote;
pub mod session;
pub mod text;
