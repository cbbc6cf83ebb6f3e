//! What the pipeline learns from the remote host.

use vstd::prelude::*;
use crate::config::ConfigError;
use crate::disk::DiskDevice;
use crate::keys::{age_recipient_of, host_age_key, KeyError};

verus! {

#[derive(Debug, Clone)]
pub struct Config {
    pub disk_device: Option<DiskDevice>,
    pub hardware_file: Option<Vec<u8>>,
    pub age_pk: Option<String>,
}

impl Default for Config {
    fn default() -> (r: Self)
        ensures
            r.disk_device is None,
            r.hardware_file is None,
            r.age_pk is None,
    {
        Config { disk_device: None, hardware_file: None, age_pk: None }
    }
}

impl Config {
    pub fn get_disk_device(&self) -> (r: Result<&DiskDevice, ConfigError>)
        ensures
            match self.disk_device {
                Some(d) => r == Ok::<&DiskDevice, ConfigError>(&d),
                None => r == Err::<&DiskDevice, ConfigError>(ConfigError::DiskDeviceUnset),
            },
    {
        match &self.disk_device {
            Some(d) => Ok(d),
            None => Err(ConfigError::DiskDeviceUnset),
        }
    }

    pub fn get_hardware_file(&self) -> (r: Result<&Vec<u8>, ConfigError>)
        ensures
            match self.hardware_file {
                Some(f) => r matches Ok(g) && g@ == f@,
                None => r == Err::<&Vec<u8>, ConfigError>(ConfigError::HardwareFileUnset),
            },
    {
        match &self.hardware_file {
            Some(f) => Ok(f),
            None => Err(ConfigError::HardwareFileUnset),
        }
    }

    pub fn get_age_key(&self) -> (r: Result<&str, ConfigError>)
        ensures
            match self.age_pk {
                Some(k) => r matches Ok(s) && s@ == k@,
                None => r == Err::<&str, ConfigError>(ConfigError::AgeKeyUnset),
            },
    {
        match &self.age_pk {
            Some(k) => Ok(k.as_str()),
            None => Err(ConfigError::AgeKeyUnset),
        }
    }

    /// Records the age recipient derived from the remote's host key. On an
    /// error the configuration is left as it was.
    pub fn set_age_key_from_host_key(&mut self, host_key: &str) -> (r: Result<(), KeyError>)
        ensures
            final(self).disk_device == old(self).disk_device,
            final(self).hardware_file == old(self).hardware_file,
            age_recipient_of(host_key@) matches Some(a) ==> r is Ok && (final(self).age_pk matches Some(
                k,
            ) && k@ == a),
            age_recipient_of(host_key@) is None ==> r == Err::<(), KeyError>(KeyError::AgeConversion)
                && final(self).age_pk == old(self).age_pk,
    {
        let key = host_age_key(host_key)?;
        self.age_pk = Some(key);
        Ok(())
    }
}

} // verus!
