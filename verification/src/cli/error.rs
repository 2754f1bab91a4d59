use vstd::prelude::*;

verus! {

/// Errors reported by the library; those that come from an outside crate
/// carry its error text.
#[derive(Debug, Clone, PartialEq, Eq)]
pub enum CliError {
    /// The agent name is the empty string.
    EmptyAgentName,
    /// The agent name is `.` or `..`.
    InvalidAgentName,
    /// The agent name holds a character other than an ASCII letter, digit, `-` or `_`.
    InvalidAgentNameChars,
    /// The configuration holds no encrypted secrets.
    NotEncrypted,
    /// Argon2id refused the password or the salt.
    KeyDerivation(String),
    /// AES-256-GCM refused to encrypt the plaintext.
    Encryption(String),
    /// The operating system's random source failed.
    RandomSource,
    /// The stored ciphertext is not valid Base58.
    InvalidCiphertextEncoding(String),
    /// The stored salt is not valid Base58.
    InvalidSaltEncoding(String),
    /// The stored nonce is not valid Base58.
    InvalidNonceEncoding(String),
    /// The stored nonce does not decode to 12 bytes.
    InvalidNonceLength,
    /// Authentication of the ciphertext failed: wrong password or corrupted data.
    WrongPasswordOrCorrupted,
    /// The decrypted plaintext is not an encoded secrets bundle.
    MalformedSecrets,
    /// The home directory cannot be found.
    NoHomeDirectory,
}

/// The kind of an error, without the outside crate's text.
#[derive(Debug, Clone, Copy, PartialEq, Eq, Structural)]
pub enum ErrorKind {
    EmptyAgentName,
    InvalidAgentName,
    InvalidAgentNameChars,
    NotEncrypted,
    KeyDerivation,
    Encryption,
    RandomSource,
    InvalidCiphertextEncoding,
    InvalidSaltEncoding,
    InvalidNonceEncoding,
    InvalidNonceLength,
    WrongPasswordOrCorrupted,
    MalformedSecrets,
    NoHomeDirectory,
}

impl CliError {
    pub open spec fn kind(self) -> ErrorKind {
        match self {
            CliError::EmptyAgentName => ErrorKind::EmptyAgentName,
            CliError::InvalidAgentName => ErrorKind::InvalidAgentName,
            CliError::InvalidAgentNameChars => ErrorKind::InvalidAgentNameChars,
            CliError::NotEncrypted => ErrorKind::NotEncrypted,
            CliError::KeyDerivation(_) => ErrorKind::KeyDerivation,
            CliError::Encryption(_) => ErrorKind::Encryption,
            CliError::RandomSource => ErrorKind::RandomSource,
            CliError::InvalidCiphertextEncoding(_) => ErrorKind::InvalidCiphertextEncoding,
            CliError::InvalidSaltEncoding(_) => ErrorKind::InvalidSaltEncoding,
            CliError::InvalidNonceEncoding(_) => ErrorKind::InvalidNonceEncoding,
            CliError::InvalidNonceLength => ErrorKind::InvalidNonceLength,
            CliError::WrongPasswordOrCorrupted => ErrorKind::WrongPasswordOrCorrupted,
            CliError::MalformedSecrets => ErrorKind::MalformedSecrets,
            CliError::NoHomeDirectory => ErrorKind::NoHomeDirectory,
        }
    }
}

/// The text shown for an error.
pub open spec fn error_text(e: CliError) -> Seq<char> {
    match e {
        CliError::EmptyAgentName => "agent name cannot be empty"@,
        CliError::InvalidAgentName => "invalid agent name"@,
        CliError::InvalidAgentNameChars =>
            "agent name may only contain letters, digits, hyphens, and underscores"@,
        CliError::NotEncrypted => "config is not encrypted"@,
        CliError::KeyDerivation(d) => "key derivation failed: "@ + d@,
        CliError::Encryption(d) => "encryption failed: "@ + d@,
        CliError::RandomSource => "failed to generate random bytes"@,
        CliError::InvalidCiphertextEncoding(d) => "invalid ciphertext encoding: "@ + d@,
        CliError::InvalidSaltEncoding(d) => "invalid salt encoding: "@ + d@,
        CliError::InvalidNonceEncoding(d) => "invalid nonce encoding: "@ + d@,
        CliError::InvalidNonceLength => "invalid nonce length"@,
        CliError::WrongPasswordOrCorrupted => "wrong password or corrupted data"@,
        CliError::MalformedSecrets => "failed to parse decrypted secrets"@,
        CliError::NoHomeDirectory => "cannot find home directory"@,
    }
}

fn with_detail(head: &str, detail: &String) -> (r: String)
    ensures
        r@ == head@ + detail@,
{
    let mut s = String::from_str(head);
    s.append(detail.as_str());
    s
}

impl CliError {
    /// The text shown for this error.
    pub fn message(&self) -> (r: String)
        ensures
            r@ == error_text(*self),
    {
        match self {
            CliError::EmptyAgentName => String::from_str("agent name cannot be empty"),
            CliError::InvalidAgentName => String::from_str("invalid agent name"),
            CliError::InvalidAgentNameChars => String::from_str(
                "agent name may only contain letters, digits, hyphens, and underscores",
            ),
            CliError::NotEncrypted => String::from_str("config is not encrypted"),
            CliError::KeyDerivation(d) => with_detail("key derivation failed: ", d),
            CliError::Encryption(d) => with_detail("encryption failed: ", d),
            CliError::RandomSource => String::from_str("failed to generate random bytes"),
            CliError::InvalidCiphertextEncoding(d) => with_detail("invalid ciphertext encoding: ", d),
            CliError::InvalidSaltEncoding(d) => with_detail("invalid salt encoding: ", d),
            CliError::InvalidNonceEncoding(d) => with_detail("invalid nonce encoding: ", d),
            CliError::InvalidNonceLength => String::from_str("invalid nonce length"),
            CliError::WrongPasswordOrCorrupted => String::from_str("wrong password or corrupted data"),
            CliError::MalformedSecrets => String::from_str("failed to parse decrypted secrets"),
            CliError::NoHomeDirectory => String::from_str("cannot find home directory"),
        }
    }
}

} // verus!
