//! The run's configuration: command-line arguments and what the pipeline
//! gathers as it goes.

use vstd::prelude::*;
use crate::disk::BlockDevice;

verus! {

/// Command-line arguments.
#[derive(Debug, Clone)]
pub struct Args {
    /// Target SSH port.
    pub ssh_port: u32,
    /// Target SSH destination.
    pub ssh_dest: String,
    /// Boot from an installer image.
    pub iso: bool,
}

impl Default for Args {
    fn default() -> (r: Self)
        ensures
            r.ssh_port == 10022,
            r.ssh_dest@ == "127.0.0.1"@,
            r.iso,
    {
        Args { ssh_port: 10022, ssh_dest: String::from_str("127.0.0.1"), iso: true }
    }
}

/// What the pipeline has gathered so far; each part is unset until its
/// step has run.
#[derive(Debug, Clone)]
pub struct Config {
    pub path: Option<String>,
    pub block_device: Option<BlockDevice>,
    pub hardware_config: Option<Vec<u8>>,
    pub host: Option<String>,
    pub pk_age: Option<String>,
}

/// A part of the configuration that was needed before it was set.
#[derive(Debug, Clone, Copy, PartialEq, Eq, Structural)]
pub enum ConfigError {
    DiskDeviceUnset,
    HardwareFileUnset,
    AgeKeyUnset,
}

impl ConfigError {
    pub fn message(&self) -> (r: String)
        ensures
            r@ == match *self {
                ConfigError::DiskDeviceUnset => "Disk device has not been set"@,
                ConfigError::HardwareFileUnset => "Hardware file has not been set"@,
                ConfigError::AgeKeyUnset => "Age key has not been set"@,
            },
    {
        match self {
            ConfigError::DiskDeviceUnset => String::from_str("Disk device has not been set"),
            ConfigError::HardwareFileUnset => String::from_str("Hardware file has not been set"),
            ConfigError::AgeKeyUnset => String::from_str("Age key has not been set"),
        }
    }
}

impl Config {
    /// A configuration with nothing set.
    pub fn new() -> (r: Result<Self, ConfigError>)
        ensures
            r matches Ok(c) && c.path is None && c.block_device is None && c.hardware_config is None
                && c.host is None && c.pk_age is None,
    {
        Ok(Config { path: None, block_device: None, hardware_config: None, host: None, pk_age: None })
    }
}

} // verus!
