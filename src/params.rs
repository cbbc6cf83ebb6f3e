//! Command-line arguments of the installer flow.

use vstd::prelude::*;

verus! {

#[derive(Debug, Clone)]
pub struct Args {
    /// SSH port of the remote host.
    pub ssh_port: u32,
    /// SSH destination host (IP or hostname).
    pub ssh_dest: String,
    /// Use sudo/root privileges on the remote host.
    pub use_sudo: bool,
}

impl Default for Args {
    fn default() -> (r: Self)
        ensures
            r.ssh_port == 10022,
            r.ssh_dest@ == "127.0.0.1"@,
            r.use_sudo,
    {
        Args { ssh_port: 10022, ssh_dest: String::from_str("127.0.0.1"), use_sudo: true }
    }
}

} // verus!
