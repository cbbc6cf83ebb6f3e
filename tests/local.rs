use nix_bootstrap::local::{
    filter_iso_hosts, host_family, host_key_file_path, next_deploy_step, nixos_anywhere_command,
    nixos_rebuild_command, update_disk_config, DeployStep, DiskConfigError,
};

fn doc(lines: &[&str]) -> Vec<String> {
    lines.iter().map(|l| l.to_string()).collect()
}

#[test]
fn plankton_hosts_share_a_family() {
    assert_eq!(host_family("plankton-iso"), "plankton");
    assert_eq!(host_family("plankton"), "plankton");
    assert_eq!(host_family("web"), "web");
    assert_eq!(host_family("plank"), "plank");
}

#[test]
fn iso_filter_keeps_plankton_hosts() {
    let hosts = doc(&["web", "plankton-a", "db", "plankton"]);
    assert_eq!(filter_iso_hosts(hosts.clone(), true), doc(&["plankton-a", "plankton"]));
    assert_eq!(filter_iso_hosts(hosts.clone(), false), hosts);
}

#[test]
fn disk_path_is_replaced() {
    let mut lines = doc(&["{", "    disk.path = \"/dev/sda\";", "}"]);
    assert_eq!(update_disk_config(&mut lines, "nvme0n1"), Ok(true));
    assert_eq!(lines, doc(&["{", "  disk.path = \"/dev/nvme0n1\";", "}"]));
    assert_eq!(update_disk_config(&mut lines, "nvme0n1"), Ok(false));
}

#[test]
fn disk_path_missing() {
    let mut lines = doc(&["{", "}"]);
    assert_eq!(update_disk_config(&mut lines, "sda"), Err(DiskConfigError::DiskPathNotFound));
    assert_eq!(lines, doc(&["{", "}"]));
}

#[test]
fn deploy_command_lines() {
    assert_eq!(
        nixos_anywhere_command("22", "/tmp/cfg", "web", "nixos", "10.0.0.5"),
        "nix run github:nix-community/nixos-anywhere -- --ssh-port 22 --flake /tmp/cfg#web --target-host nixos@10.0.0.5"
    );
    assert_eq!(
        nixos_rebuild_command("2222", "/c", "db", "root", "h"),
        "NIX_SSHOPTS=\"-p 2222\" nixos-rebuild switch --flake /c#db --build-host root@h --target-host root@h --use-substitutes --sudo --ask-sudo-password"
    );
}

#[test]
fn deploy_retry_decision() {
    assert_eq!(next_deploy_step(true, false), DeployStep::Done);
    assert_eq!(next_deploy_step(true, true), DeployStep::Done);
    assert_eq!(next_deploy_step(false, true), DeployStep::Retry);
    assert_eq!(next_deploy_step(false, false), DeployStep::GiveUp);
}

#[test]
fn host_key_file_location() {
    assert_eq!(host_key_file_path("/tmp/cfg"), "/tmp/cfg/nixos/ssh_host_ed25519_key.pub");
}
