use nix_bootstrap::known_hosts::{
    make_host_entry, make_host_prefix, reconcile, remove_known_hosts_entries, HostsUpdate, Info,
};

fn doc(lines: &[&str]) -> Vec<String> {
    lines.iter().map(|l| l.to_string()).collect()
}

fn apply(lines: &Vec<String>, u: HostsUpdate) -> Vec<String> {
    match u {
        HostsUpdate::AlreadyKnown => lines.clone(),
        HostsUpdate::Rewrite(v) => v,
        HostsUpdate::Append(e) => {
            let mut v = lines.clone();
            v.push(e);
            v
        }
    }
}

fn matching(lines: &[String], prefix: &str) -> usize {
    lines.iter().filter(|l| l.contains(prefix)).count()
}

#[test]
fn entry_and_prefix_format() {
    assert_eq!(make_host_prefix("10.0.0.5", "22"), "[10.0.0.5]:22");
    assert_eq!(make_host_entry("10.0.0.5", "22", "ssh-ed25519 AAA"), "[10.0.0.5]:22 ssh-ed25519 AAA");
}

#[test]
fn info_keeps_path() {
    let info = Info::new("/home/u/.ssh/known_hosts".to_string());
    assert_eq!(info.known_hosts_path(), "/home/u/.ssh/known_hosts");
}

#[test]
fn exact_entry_is_already_known() {
    let lines = doc(&["github.com ssh-rsa X", "[h]:22 ssh-ed25519 K"]);
    assert_eq!(reconcile(&lines, "h", "22", "ssh-ed25519 K"), HostsUpdate::AlreadyKnown);
}

#[test]
fn new_host_is_appended() {
    let lines = doc(&["github.com ssh-rsa X"]);
    assert_eq!(
        reconcile(&lines, "h", "2222", "ssh-ed25519 K"),
        HostsUpdate::Append("[h]:2222 ssh-ed25519 K".to_string())
    );
}

#[test]
fn empty_store_gets_entry() {
    let lines: Vec<String> = Vec::new();
    assert_eq!(
        reconcile(&lines, "h", "22", "k"),
        HostsUpdate::Append("[h]:22 k".to_string())
    );
}

#[test]
fn changed_key_replaces_line_in_place() {
    let lines = doc(&["a ssh-rsa X", "[10.0.0.5]:22 ssh-ed25519 AAAold", "b ssh-rsa Y"]);
    let u = reconcile(&lines, "10.0.0.5", "22", "ssh-ed25519 AAAnew");
    let expected = doc(&["a ssh-rsa X", "[10.0.0.5]:22 ssh-ed25519 AAAnew", "b ssh-rsa Y"]);
    assert_eq!(u, HostsUpdate::Rewrite(expected.clone()));
    let after = apply(&lines, HostsUpdate::Rewrite(expected));
    assert_eq!(after.len(), lines.len());
    assert_eq!(matching(&after, "[10.0.0.5]:22"), 1);
}

#[test]
fn every_prefixed_line_is_replaced() {
    let lines = doc(&["[h]:22 ssh-rsa R", "x", "[h]:22 ecdsa E"]);
    let u = reconcile(&lines, "h", "22", "ssh-ed25519 K");
    assert_eq!(
        u,
        HostsUpdate::Rewrite(doc(&["[h]:22 ssh-ed25519 K", "x", "[h]:22 ssh-ed25519 K"]))
    );
}

#[test]
fn repeated_reconcile_does_not_duplicate() {
    let mut lines = doc(&["other"]);
    for _ in 0..3 {
        let u = reconcile(&lines, "h", "22", "ssh-ed25519 K");
        lines = apply(&lines, u);
        assert_eq!(matching(&lines, "[h]:22"), 1);
    }
    assert_eq!(lines, doc(&["other", "[h]:22 ssh-ed25519 K"]));
    assert_eq!(reconcile(&lines, "h", "22", "ssh-ed25519 K"), HostsUpdate::AlreadyKnown);
}

#[test]
fn other_port_is_another_endpoint() {
    let lines = doc(&["[h]:22 k"]);
    assert_eq!(reconcile(&lines, "h", "2222", "k"), HostsUpdate::Append("[h]:2222 k".to_string()));
}

#[test]
fn removes_lines_naming_host_or_destination() {
    let lines = doc(&["[10.0.0.5]:22 k", "github.com x", "myhost y", "keep me"]);
    let patterns = doc(&["myhost", "10.0.0.5"]);
    assert_eq!(remove_known_hosts_entries(&lines, &patterns), doc(&["github.com x", "keep me"]));
    assert_eq!(remove_known_hosts_entries(&lines, &Vec::new()), lines);
}
