use vstd::prelude::*;
use vstd::slice::slice_subrange;

use super::crypto::{bs58_encode, bs58_encoding, random_bytes};
use super::error::CliError;

verus! {

/// Heartbeat message for ping/pong liveness checks (NIP-17 encrypted).
/// On the wire its `msg_type` is the JSON member `type`.
#[derive(Debug, Clone)]
pub struct HeartbeatMessage {
    pub msg_type: String,
    pub nonce: String,
}

/// The message type of a ping.
pub open spec fn ping_kind() -> Seq<char> {
    "elisym_ping"@
}

/// The message type of a pong.
pub open spec fn pong_kind() -> Seq<char> {
    "elisym_pong"@
}

/// A ping is never taken for a pong, nor a pong for a ping.
pub proof fn law_ping_is_not_pong()
    ensures
        ping_kind() != pong_kind(),
{
    reveal_strlit("elisym_ping");
    reveal_strlit("elisym_pong");
    assert(ping_kind()[8] != pong_kind()[8]);
}

impl HeartbeatMessage {
    pub fn ping(nonce: String) -> (r: Self)
        ensures
            r.msg_type@ == ping_kind(),
            r.nonce == nonce,
    {
        HeartbeatMessage { msg_type: String::from_str("elisym_ping"), nonce }
    }

    pub fn pong(nonce: String) -> (r: Self)
        ensures
            r.msg_type@ == pong_kind(),
            r.nonce == nonce,
    {
        HeartbeatMessage { msg_type: String::from_str("elisym_pong"), nonce }
    }

    pub fn is_ping(&self) -> (r: bool)
        ensures
            r == (self.msg_type@ == ping_kind()),
    {
        self.msg_type == String::from_str("elisym_ping")
    }

    pub fn is_pong(&self) -> (r: bool)
        ensures
            r == (self.msg_type@ == pong_kind()),
    {
        self.msg_type == String::from_str("elisym_pong")
    }
}

/// Calls `Keypair::new_from_array(secret).to_bytes()`: the keypair whose
/// secret key is the given 32 bytes, as its 64 bytes. Claimed: 64 bytes
/// whose first 32 are the secret key (`ed25519_dalek::Keypair::to_bytes`
/// writes the secret key, then the public key). `new_from_array` does not
/// fail on 32 bytes.
#[verifier::external_body]
fn keypair_bytes_from_secret(secret: &[u8]) -> (r: Vec<u8>)
    requires
        secret@.len() == 32,
    ensures
        r@.len() == 64,
        r@.take(32) == secret@,
{
    let mut key = [0u8; 32];
    key.copy_from_slice(secret);
    solana_sdk::signature::Keypair::new_from_array(key).to_bytes().to_vec()
}

/// The nonce text made from keypair bytes: Base58 of their first 16 bytes.
pub fn nonce_from_keypair_bytes(keypair_bytes: &[u8]) -> (r: String)
    requires
        keypair_bytes@.len() >= 16,
    ensures
        r@ == bs58_encoding(keypair_bytes@.take(16)),
{
    let head = slice_subrange(keypair_bytes, 0, 16);
    assert(head@ =~= keypair_bytes@.take(16));
    bs58_encode(head)
}

/// Generate a cryptographically random nonce using OS entropy: the Base58
/// of the first 16 bytes of a fresh Solana keypair, whose secret key is 32
/// bytes from the operating system's random source. A failure of that
/// source is `RandomSource`.
pub fn random_nonce() -> (r: Result<String, CliError>)
    ensures
        r matches Ok(n) ==> exists|secret: Seq<u8>| secret.len() == 32 && n@ == bs58_encoding(
            secret.take(16),
        ),
        r matches Err(e) ==> e == CliError::RandomSource,
{
    let secret = random_bytes(32)?;
    let kb = keypair_bytes_from_secret(secret.as_slice());
    let n = nonce_from_keypair_bytes(kb.as_slice());
    assert(kb@.take(16) =~= secret@.take(16));
    Ok(n)
}

} // verus!
