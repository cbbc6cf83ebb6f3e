//! Key material from the remote host: its public host key in OpenSSH text
//! form, and the age recipient derived from it.

use vstd::prelude::*;

verus! {

#[verifier::external_type_specification]
#[verifier::external_body]
pub struct ExAnyhowError(anyhow::Error);

/// The OpenSSH text form (`ssh-ed25519 AAAA...`) of the public key whose SSH
/// wire encoding is `bytes`, or none where `ssh_key` cannot decode or
/// write it.
pub uninterp spec fn openssh_text_of(bytes: Seq<u8>) -> Option<Seq<char>>;

/// Relies on `ssh_key::PublicKey::from_bytes` followed by
/// `ssh_key::PublicKey::to_openssh`: the key is decoded from its wire
/// encoding and written as OpenSSH text, or one of the two steps fails. The
/// outcome depends on the bytes alone.
#[verifier::external_body]
fn openssh_from_wire(bytes: &[u8]) -> (r: Option<String>)
    ensures
        r matches Some(t) ==> openssh_text_of(bytes@) == Some(t@),
        r is None ==> openssh_text_of(bytes@) is None,
{
    ssh_key::PublicKey::from_bytes(bytes).ok().and_then(|key| key.to_openssh().ok())
}

/// The age recipient that `ssh_to_age` derives from an OpenSSH public key,
/// or none where the key is not an Ed25519 key it can read.
pub uninterp spec fn age_recipient_of(ssh_public_key: Seq<char>) -> Option<Seq<char>>;

/// Relies on `ssh_to_age::convert::ssh_public_key_to_age`: it fails on a key
/// that is not an OpenSSH Ed25519 public key, and otherwise returns a
/// recipient; both depend on the key text alone.
#[verifier::external_body]
fn ssh_public_key_to_age(public_key: &str) -> (r: Result<String, anyhow::Error>)
    ensures
        r matches Ok(a) ==> age_recipient_of(public_key@) == Some(a@),
        r is Err ==> age_recipient_of(public_key@) is None,
{
    ssh_to_age::convert::ssh_public_key_to_age(public_key)
}

#[derive(Debug, Clone, Copy, PartialEq, Eq, Structural)]
pub enum KeyError {
    /// The remote's host key could not be decoded or written as text.
    HostKey,
    /// The host key is not one that converts to an age recipient.
    AgeConversion,
}

/// The remote's host key, given in the SSH wire encoding that the handshake
/// yields, in OpenSSH text form.
pub fn host_key_openssh(bytes: &[u8]) -> (r: Result<String, KeyError>)
    ensures
        openssh_text_of(bytes@) matches Some(t) ==> (r matches Ok(s) && s@ == t),
        openssh_text_of(bytes@) is None ==> r == Err::<String, KeyError>(KeyError::HostKey),
{
    match openssh_from_wire(bytes) {
        Some(text) => Ok(text),
        None => Err(KeyError::HostKey),
    }
}

/// The age recipient of the host whose OpenSSH public key is `host_key`.
pub fn host_age_key(host_key: &str) -> (r: Result<String, KeyError>)
    ensures
        age_recipient_of(host_key@) matches Some(a) ==> (r matches Ok(s) && s@ == a),
        age_recipient_of(host_key@) is None ==> r == Err::<String, KeyError>(
            KeyError::AgeConversion,
        ),
{
    match ssh_public_key_to_age(host_key) {
        Ok(a) => Ok(a),
        Err(_) => Err(KeyError::AgeConversion),
    }
}

} // verus!
