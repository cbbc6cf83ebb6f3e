use nix_bootstrap::config::{Args, Config, ConfigError};
use nix_bootstrap::disk::{select_device, BlockDevice, DiskDevice, DiskDevices};
use nix_bootstrap::keys::{host_age_key, host_key_openssh, KeyError};
use nix_bootstrap::params;
use nix_bootstrap::remote::config::Config as RemoteConfig;
use nix_bootstrap::text::trimmed;

const ED25519_PK: &str =
    "ssh-ed25519 AAAAC3NzaC1lZDI1NTE5AAAAICFrs5OngYGD5FHUaYqr3gAk7NApAuFCL3cVaHLSWRXL";
/// The recipient's prefix and payload; the last six characters are the
/// checksum.
const ED25519_AGE_PAYLOAD: &str = "age1wy42r2p2c67ckywgq8xj7ejf6eykqfu623wktxeh729rtagu4fkq";

fn sda() -> DiskDevice {
    DiskDevice {
        name: "sda".to_string(),
        size: "20G".to_string(),
        model: Some("QEMU HARDDISK".to_string()),
        mountpoint: None,
    }
}

#[test]
fn default_arguments() {
    let a = Args::default();
    assert_eq!(a.ssh_port, 10022);
    assert_eq!(a.ssh_dest, "127.0.0.1");
    assert!(a.iso);
    let p = params::Args::default();
    assert_eq!(p.ssh_port, 10022);
    assert!(p.use_sudo);
}

#[test]
fn new_config_is_empty() {
    let c = Config::new().unwrap();
    assert!(c.path.is_none() && c.block_device.is_none() && c.hardware_config.is_none());
    assert!(c.host.is_none() && c.pk_age.is_none());
}

#[test]
fn remote_config_getters() {
    let mut c = RemoteConfig::default();
    assert_eq!(c.get_disk_device().unwrap_err(), ConfigError::DiskDeviceUnset);
    assert_eq!(c.get_hardware_file().unwrap_err(), ConfigError::HardwareFileUnset);
    assert_eq!(c.get_age_key().unwrap_err(), ConfigError::AgeKeyUnset);
    assert_eq!(ConfigError::AgeKeyUnset.message(), "Age key has not been set");
    c.disk_device = Some(sda());
    c.hardware_file = Some(b"{ }".to_vec());
    c.age_pk = Some("age1x".to_string());
    assert_eq!(c.get_disk_device().unwrap().name, "sda");
    assert_eq!(c.get_hardware_file().unwrap(), &b"{ }".to_vec());
    assert_eq!(c.get_age_key().unwrap(), "age1x");
}

#[test]
fn device_info_line() {
    assert_eq!(
        sda().get_info(),
        "sda (size: 20G / model: Some(\"QEMU HARDDISK\") / mountpoint: None)"
    );
    let b = BlockDevice {
        name: "vda".to_string(),
        size: "8G".to_string(),
        model: None,
        mountpoint: Some("/".to_string()),
    };
    assert_eq!(b.get_info(), "vda (size: 8G / model: None / mountpoint: Some(\"/\"))");
}

#[test]
fn device_selection() {
    let devices = DiskDevices { blockdevices: vec![sda()] };
    assert_eq!(select_device(&devices, 0).unwrap().name, "sda");
    assert!(select_device(&devices, 1).is_none());
}

#[test]
fn age_key_from_host_key() {
    let age = host_age_key(ED25519_PK).unwrap();
    assert!(age.starts_with(ED25519_AGE_PAYLOAD));
    assert_eq!(age.len(), ED25519_AGE_PAYLOAD.len() + 6);
    assert_eq!(host_age_key("not a key"), Err(KeyError::AgeConversion));
    let mut c = RemoteConfig::default();
    c.set_age_key_from_host_key(ED25519_PK).unwrap();
    assert_eq!(c.get_age_key().unwrap(), age);
    assert_eq!(c.set_age_key_from_host_key("junk"), Err(KeyError::AgeConversion));
    assert_eq!(c.get_age_key().unwrap(), age);
}

#[test]
fn host_key_from_wire_bytes() {
    let bytes = ssh_key::PublicKey::from_openssh(ED25519_PK).unwrap().to_bytes().unwrap();
    let text = host_key_openssh(&bytes).unwrap();
    assert!(text.starts_with(ED25519_PK));
    assert_eq!(host_key_openssh(&[1, 2, 3]), Err(KeyError::HostKey));
}

#[test]
fn trimming_keys() {
    assert_eq!(trimmed("  ssh-ed25519 K\n"), "ssh-ed25519 K");
    assert_eq!(trimmed("\u{3000}x\u{a0}"), "x");
    assert_eq!(trimmed(" \t "), "");
}
