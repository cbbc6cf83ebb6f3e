//! The local side of the pipeline: the configuration repository's host
//! files and the deployment commands run against the remote host.

use vstd::prelude::*;
use crate::text::{
    doc_view, starts_with_seq, trim_seq, trim_start_seq, trim_start_starts_with, trims_equal,
};

verus! {

/// The host name under which hosts of one family share a configuration:
/// every host whose name starts with `plankton` is built as `plankton`.
pub open spec fn family_of(host: Seq<char>) -> Seq<char> {
    if starts_with_seq(host, "plankton"@) {
        "plankton"@
    } else {
        host
    }
}

pub fn host_family(host: &str) -> (r: String)
    ensures
        r@ == family_of(host@),
{
    if crate::text::matches_at(host, "plankton", 0) {
        String::from_str("plankton")
    } else {
        String::from_str(host)
    }
}

/// The configured hosts that can be installed from the installer image
/// (those of the `plankton` family) when `use_iso` holds, else all of them.
pub fn filter_iso_hosts(hosts: Vec<String>, use_iso: bool) -> (r: Vec<String>)
    ensures
        !use_iso ==> r@ == hosts@,
        use_iso ==> doc_view(r@) == doc_view(hosts@).filter(
            |h: Seq<char>| starts_with_seq(h, "plankton"@),
        ),
{
    if !use_iso {
        return hosts;
    }
    let ghost d = doc_view(hosts@);
    let ghost pred = |h: Seq<char>| starts_with_seq(h, "plankton"@);
    let mut kept: Vec<String> = Vec::new();
    let mut i: usize = 0;
    while i < hosts.len()
        invariant
            d == doc_view(hosts@),
            pred == (|h: Seq<char>| starts_with_seq(h, "plankton"@)),
            i <= hosts@.len(),
            doc_view(kept@) == d.subrange(0, i as int).filter(pred),
        decreases hosts@.len() - i,
    {
        let h = hosts[i].as_str();
        proof {
            let s = d.subrange(0, i + 1);
            assert(s.drop_last() =~= d.subrange(0, i as int));
            assert(s.last() == d[i as int]);
            reveal(Seq::filter);
        }
        if crate::text::matches_at(h, "plankton", 0) {
            kept.push(String::from_str(h));
        }
        proof {
            assert(doc_view(kept@) =~= d.subrange(0, i + 1).filter(pred));
        }
        i = i + 1;
    }
    assert(d.subrange(0, d.len() as int) =~= d);
    kept
}

/// `disk.path = "`
pub open spec fn disk_path_prefix() -> Seq<char> {
    "disk.path = \""@
}

/// `  disk.path = "/dev/<device>";`
pub open spec fn disk_path_line(device: Seq<char>) -> Seq<char> {
    "  disk.path = \"/dev/"@ + device + "\";"@
}

/// The first line at or after `i` that sets the disk path.
pub open spec fn disk_path_index(d: Seq<Seq<char>>, i: int) -> Option<int>
    decreases d.len() - i,
{
    if i < 0 || i >= d.len() {
        None
    } else if starts_with_seq(trim_start_seq(d[i]), disk_path_prefix()) {
        Some(i)
    } else {
        disk_path_index(d, i + 1)
    }
}

#[derive(Debug, Clone, Copy, PartialEq, Eq, Structural)]
pub enum DiskConfigError {
    /// No line of the host file sets the disk path.
    DiskPathNotFound,
}

/// Points the host file's disk path at `/dev/<device>`: the first line that
/// sets it is replaced, unless it already names that device. `Ok(true)`
/// when the line changed.
pub fn update_disk_config(lines: &mut Vec<String>, device: &str) -> (r: Result<bool, DiskConfigError>)
    ensures
        ({
            let d = doc_view(old(lines)@);
            let line = disk_path_line(device@);
            match disk_path_index(d, 0) {
                None => r == Err::<bool, DiskConfigError>(DiskConfigError::DiskPathNotFound)
                    && final(lines)@ == old(lines)@,
                Some(i) => if trim_seq(d[i]) == trim_seq(line) {
                    r == Ok::<bool, DiskConfigError>(false) && final(lines)@ == old(lines)@
                } else {
                    r == Ok::<bool, DiskConfigError>(true) && doc_view(final(lines)@) == d.update(i, line)
                },
            }
        }),
{
    let ghost d = doc_view(lines@);
    let mut new_line = String::from_str("  disk.path = \"/dev/");
    new_line.append(device);
    new_line.append("\";");
    let mut i: usize = 0;
    while i < lines.len()
        invariant
            d == doc_view(lines@),
            lines@ == old(lines)@,
            i <= lines@.len(),
            new_line@ == disk_path_line(device@),
            disk_path_index(d, 0) == disk_path_index(d, i as int),
        decreases lines@.len() - i,
    {
        if trim_start_starts_with(lines[i].as_str(), "disk.path = \"") {
            if trims_equal(lines[i].as_str(), new_line.as_str()) {
                return Ok(false);
            }
            proof {
                assert(doc_view(lines@.update(i as int, new_line)) =~= d.update(i as int, new_line@));
            }
            lines.set(i, new_line);
            return Ok(true);
        }
        i = i + 1;
    }
    Err(DiskConfigError::DiskPathNotFound)
}

/// `user@destination`
pub open spec fn ssh_target(user: Seq<char>, destination: Seq<char>) -> Seq<char> {
    user + "@"@ + destination
}

/// `path#host`
pub open spec fn flake_ref(path: Seq<char>, host: Seq<char>) -> Seq<char> {
    path + "#"@ + host
}

pub open spec fn nixos_anywhere_line(
    port: Seq<char>,
    path: Seq<char>,
    host: Seq<char>,
    user: Seq<char>,
    destination: Seq<char>,
) -> Seq<char> {
    "nix run github:nix-community/nixos-anywhere -- --ssh-port "@ + port + " --flake "@ + flake_ref(
        path,
        host,
    ) + " --target-host "@ + ssh_target(user, destination)
}

pub open spec fn nixos_rebuild_line(
    port: Seq<char>,
    path: Seq<char>,
    host: Seq<char>,
    user: Seq<char>,
    destination: Seq<char>,
) -> Seq<char> {
    "NIX_SSHOPTS=\"-p "@ + port + "\" nixos-rebuild switch --flake "@ + flake_ref(path, host)
        + " --build-host "@ + ssh_target(user, destination) + " --target-host "@ + ssh_target(
        user,
        destination,
    ) + " --use-substitutes --sudo --ask-sudo-password"@
}

fn append_ssh_target(s: &mut String, user: &str, destination: &str)
    ensures
        final(s)@ == old(s)@ + ssh_target(user@, destination@),
{
    s.append(user);
    s.append("@");
    s.append(destination);
    assert(final(s)@ =~= old(s)@ + ssh_target(user@, destination@));
}

/// The command that installs the host configuration `path#host` on the
/// remote through nixos-anywhere.
pub fn nixos_anywhere_command(port: &str, path: &str, host: &str, user: &str, destination: &str) -> (r:
    String)
    ensures
        r@ == nixos_anywhere_line(port@, path@, host@, user@, destination@),
{
    let mut s = String::from_str("nix run github:nix-community/nixos-anywhere -- --ssh-port ");
    s.append(port);
    s.append(" --flake ");
    s.append(path);
    s.append("#");
    s.append(host);
    s.append(" --target-host ");
    append_ssh_target(&mut s, user, destination);
    assert(s@ =~= nixos_anywhere_line(port@, path@, host@, user@, destination@));
    s
}

/// The command that builds and switches the remote to the host
/// configuration `path#host` through nixos-rebuild.
pub fn nixos_rebuild_command(port: &str, path: &str, host: &str, user: &str, destination: &str) -> (r:
    String)
    ensures
        r@ == nixos_rebuild_line(port@, path@, host@, user@, destination@),
{
    let mut s = String::from_str("NIX_SSHOPTS=\"-p ");
    s.append(port);
    s.append("\" nixos-rebuild switch --flake ");
    s.append(path);
    s.append("#");
    s.append(host);
    s.append(" --build-host ");
    append_ssh_target(&mut s, user, destination);
    s.append(" --target-host ");
    append_ssh_target(&mut s, user, destination);
    s.append(" --use-substitutes --sudo --ask-sudo-password");
    assert(s@ =~= nixos_rebuild_line(port@, path@, host@, user@, destination@));
    s
}

/// What the deployment does after an attempt of the deploy command.
#[derive(Debug, Clone, Copy, PartialEq, Eq, Structural)]
pub enum DeployStep {
    /// The command succeeded.
    Done,
    /// The command failed and the user asked to run it again.
    Retry,
    /// The command failed and the user declined to retry: its error stands.
    GiveUp,
}

/// Decides the step after an attempt; `retry_wanted` is the user's answer
/// to the retry question, which is only asked after a failure.
pub fn next_deploy_step(attempt_succeeded: bool, retry_wanted: bool) -> (r: DeployStep)
    ensures
        attempt_succeeded ==> r == DeployStep::Done,
        !attempt_succeeded && retry_wanted ==> r == DeployStep::Retry,
        !attempt_succeeded && !retry_wanted ==> r == DeployStep::GiveUp,
{
    if attempt_succeeded {
        DeployStep::Done
    } else if retry_wanted {
        DeployStep::Retry
    } else {
        DeployStep::GiveUp
    }
}

/// `<config>/nixos/ssh_host_ed25519_key.pub`, where the host's public key
/// is recorded in the configuration.
pub open spec fn host_key_file(config_path: Seq<char>) -> Seq<char> {
    config_path + "/nixos/ssh_host_ed25519_key.pub"@
}

pub fn host_key_file_path(config_path: &str) -> (r: String)
    ensures
        r@ == host_key_file(config_path@),
{
    let mut s = String::from_str(config_path);
    s.append("/nixos/ssh_host_ed25519_key.pub");
    s
}

} // verus!
