use aes_gcm::aead::{Aead, KeyInit};
use vstd::prelude::*;
use vstd::utf8::*;

use super::error::{CliError, ErrorKind};
use super::secrets_json::{
    decode_secrets_json, encode_secrets, encode_secrets_json, lemma_secrets_json_roundtrip,
    parse_secrets,
};

verus! {

/// All secret fields bundled for encryption/decryption.
#[derive(Debug)]
pub struct SecretsBundle {
    pub nostr_secret_key: String,
    pub solana_secret_key: String,
    pub llm_api_key: String,
    pub customer_llm_api_key: Option<String>,
}

/// The contents of a [`SecretsBundle`] as character sequences.
pub struct SecretsView {
    pub nostr_secret_key: Seq<char>,
    pub solana_secret_key: Seq<char>,
    pub llm_api_key: Seq<char>,
    pub customer_llm_api_key: Option<Seq<char>>,
}

pub open spec fn option_string_view(o: Option<String>) -> Option<Seq<char>> {
    match o {
        Some(s) => Some(s@),
        None => None,
    }
}

impl View for SecretsBundle {
    type V = SecretsView;

    open spec fn view(&self) -> SecretsView {
        SecretsView {
            nostr_secret_key: self.nostr_secret_key@,
            solana_secret_key: self.solana_secret_key@,
            llm_api_key: self.llm_api_key@,
            customer_llm_api_key: option_string_view(self.customer_llm_api_key),
        }
    }
}

/// Encrypted secrets stored in config.toml.
#[derive(Debug, Clone)]
pub struct EncryptionSection {
    /// Base58 of the AES-256-GCM ciphertext (tag appended).
    pub ciphertext: String,
    /// Base58 of the Argon2id salt.
    pub salt: String,
    /// Base58 of the AES-GCM nonce.
    pub nonce: String,
}

pub struct EncryptionView {
    pub ciphertext: Seq<char>,
    pub salt: Seq<char>,
    pub nonce: Seq<char>,
}

impl View for EncryptionSection {
    type V = EncryptionView;

    open spec fn view(&self) -> EncryptionView {
        EncryptionView { ciphertext: self.ciphertext@, salt: self.salt@, nonce: self.nonce@ }
    }
}

/// Length of the random salt.
pub const SALT_LEN: usize = 16;

/// Length of the random nonce.
pub const NONCE_LEN: usize = 12;

/// Longest password Argon2 accepts, in bytes.
pub const MAX_PASSWORD_LEN: u64 = 0xFFFF_FFFFu64;

/// Salt length bounds of Argon2, in bytes.
pub const MIN_SALT_LEN: u64 = 8u64;

pub const MAX_SALT_LEN: u64 = 0xFFFF_FFFFu64;

/// Longest plaintext AES-GCM encrypts, in bytes (2^36).
pub const MAX_PLAINTEXT_LEN: u64 = 0x10_0000_0000u64;

// ---------------------------------------------------------------------------
// Names for what the outside primitives compute.
// ---------------------------------------------------------------------------
/// The Base58 (Bitcoin alphabet) text of a byte string, as `bs58` encodes it.
pub uninterp spec fn bs58_encoding(bytes: Seq<u8>) -> Seq<char>;

/// The bytes a Base58 text stands for, as `bs58` decodes it; `None` when the
/// text is not Base58.
pub uninterp spec fn bs58_decoding(text: Seq<char>) -> Option<Seq<u8>>;

/// The 32-byte key that Argon2id with the `argon2` crate's default
/// parameters derives from a password and a salt.
pub uninterp spec fn argon2id_key(password: Seq<u8>, salt: Seq<u8>) -> Seq<u8>;

/// AES-256-GCM encryption without associated data: ciphertext followed by
/// the 16-byte tag.
pub uninterp spec fn aes256gcm_seal(key: Seq<u8>, nonce: Seq<u8>, plaintext: Seq<u8>) -> Seq<u8>;

/// AES-256-GCM decryption without associated data; `None` when the tag does
/// not verify.
pub uninterp spec fn aes256gcm_open(key: Seq<u8>, nonce: Seq<u8>, ciphertext: Seq<u8>) -> Option<
    Seq<u8>,
>;

// ---------------------------------------------------------------------------
// Trusted calls into the outside crates.
// ---------------------------------------------------------------------------
/// Calls `bs58::encode(bytes).into_string()`. Claimed: the result is the
/// Base58 text of the bytes, a function of the bytes alone.
#[verifier::external_body]
pub(crate) fn bs58_encode(bytes: &[u8]) -> (r: String)
    ensures
        r@ == bs58_encoding(bytes@),
{
    bs58::encode(bytes).into_string()
}

/// Calls `bs58::decode(text).into_vec()`. Claimed: the result is the
/// decoding of the text (an error, given by its text, when there is none),
/// and text produced by `bs58::encode` decodes to the bytes that were
/// encoded. Nothing is claimed of the error's text.
#[verifier::external_body]
pub(crate) fn bs58_decode(text: &str) -> (r: Result<Vec<u8>, String>)
    ensures
        r matches Ok(v) ==> bs58_decoding(text@) == Some(v@),
        r is Err ==> bs58_decoding(text@) is None,
        r is Ok || forall|b: Seq<u8>| text@ != #[trigger] bs58_encoding(b),
        forall|b: Seq<u8>| text@ == #[trigger] bs58_encoding(b) ==> r is Ok && r->Ok_0@ == b,
{
    bs58::decode(text).into_vec().map_err(|e| e.to_string())
}

/// Calls `Argon2::default().hash_password_into(password, salt, &mut key)`
/// with a 32-byte `key`. Claimed: the key is a function of password and
/// salt; the call fails exactly when the password is longer than
/// `MAX_PASSWORD_LEN` bytes or the salt is shorter than `MIN_SALT_LEN` or
/// longer than `MAX_SALT_LEN` bytes (its input checks; the output length 32
/// is within the default bounds). A failure gives the error's text, of which
/// nothing is claimed.
#[verifier::external_body]
fn argon2id_hash_into(password: &[u8], salt: &[u8]) -> (r: Result<Vec<u8>, String>)
    ensures
        r is Ok <==> (password@.len() <= MAX_PASSWORD_LEN && MIN_SALT_LEN <= salt@.len()
            <= MAX_SALT_LEN),
        r matches Ok(k) ==> k@ == argon2id_key(password@, salt@) && k@.len() == 32,
{
    let mut key = [0u8;32];
    match argon2::Argon2::default().hash_password_into(password, salt, &mut key) {
        Ok(()) => Ok(key.to_vec()),
        Err(e) => Err(e.to_string()),
    }
}

/// Calls `Aes256Gcm::new(key).encrypt(nonce, plaintext)`. Claimed: the
/// result is the sealing of the plaintext under key and nonce; the call
/// fails exactly when the plaintext is longer than `MAX_PLAINTEXT_LEN`,
/// giving the error's text, of which nothing is claimed. Key and nonce
/// lengths are required because `from_slice` panics on others.
#[verifier::external_body]
fn aes256gcm_encrypt(key: &[u8], nonce: &[u8], plaintext: &[u8]) -> (r: Result<Vec<u8>, String>)
    requires
        key@.len() == 32,
        nonce@.len() == NONCE_LEN,
    ensures
        r is Ok <==> plaintext@.len() <= MAX_PLAINTEXT_LEN,
        r matches Ok(c) ==> c@ == aes256gcm_seal(key@, nonce@, plaintext@),
{
    let cipher = aes_gcm::Aes256Gcm::new(aes_gcm::Key::<aes_gcm::Aes256Gcm>::from_slice(key));
    cipher.encrypt(aes_gcm::Nonce::from_slice(nonce), plaintext).map_err(|e| e.to_string())
}

/// Calls `Aes256Gcm::new(key).decrypt(nonce, ciphertext)`. Claimed: the
/// result is the opening of the ciphertext (`None` when authentication
/// fails), and a ciphertext sealed under the same key and nonce opens to
/// its plaintext. Key and nonce lengths are required because `from_slice`
/// panics on others.
#[verifier::external_body]
fn aes256gcm_decrypt(key: &[u8], nonce: &[u8], ciphertext: &[u8]) -> (r: Option<Vec<u8>>)
    requires
        key@.len() == 32,
        nonce@.len() == NONCE_LEN,
    ensures
        r matches Some(p) ==> aes256gcm_open(key@, nonce@, ciphertext@) == Some(p@),
        r is None ==> aes256gcm_open(key@, nonce@, ciphertext@) is None,
        r is Some || forall|p: Seq<u8>|
            p.len() <= MAX_PLAINTEXT_LEN ==> ciphertext@ != #[trigger] aes256gcm_seal(key@, nonce@, p),
        forall|p: Seq<u8>|
            p.len() <= MAX_PLAINTEXT_LEN && ciphertext@ == #[trigger] aes256gcm_seal(key@, nonce@, p)
                ==> r->0@ == p,
{
    let cipher = aes_gcm::Aes256Gcm::new(aes_gcm::Key::<aes_gcm::Aes256Gcm>::from_slice(key));
    cipher.decrypt(aes_gcm::Nonce::from_slice(nonce), ciphertext).ok()
}

/// Calls `getrandom::getrandom` on a zeroed buffer of `len` bytes. Claimed:
/// a filled buffer has `len` bytes; nothing is claimed of its contents, and
/// `None` stands for a failure of the operating system's source.
#[verifier::external_body]
fn os_random_bytes(len: usize) -> (r: Option<Vec<u8>>)
    ensures
        r matches Some(v) ==> v@.len() == len,
{
    let mut buf = vec![0u8; len];
    match getrandom::getrandom(&mut buf) {
        Ok(()) => Some(buf),
        Err(_) => None,
    }
}

// ---------------------------------------------------------------------------
// Sealing and opening a bundle.
// ---------------------------------------------------------------------------
/// Whether Argon2 accepts this password and salt.
pub open spec fn key_derivable(password: Seq<char>, salt: Seq<u8>) -> bool {
    &&& encode_utf8(password).len() <= MAX_PASSWORD_LEN
    &&& MIN_SALT_LEN <= salt.len() <= MAX_SALT_LEN
}

/// The key derived from a password (in UTF-8) and a salt.
pub open spec fn password_key(password: Seq<char>, salt: Seq<u8>) -> Seq<u8> {
    argon2id_key(encode_utf8(password), salt)
}

/// The stored form of a bundle sealed with the given password, salt and nonce.
pub open spec fn sealed_section(
    v: SecretsView,
    password: Seq<char>,
    salt: Seq<u8>,
    nonce: Seq<u8>,
) -> EncryptionView {
    EncryptionView {
        ciphertext: bs58_encoding(
            aes256gcm_seal(password_key(password, salt), nonce, encode_secrets(v)),
        ),
        salt: bs58_encoding(salt),
        nonce: bs58_encoding(nonce),
    }
}

/// What sealing a bundle with the given password, salt and nonce yields.
pub open spec fn seal_outcome(
    v: SecretsView,
    password: Seq<char>,
    salt: Seq<u8>,
    nonce: Seq<u8>,
) -> Result<EncryptionView, ErrorKind> {
    if !key_derivable(password, salt) {
        Err(ErrorKind::KeyDerivation)
    } else if encode_secrets(v).len() > MAX_PLAINTEXT_LEN {
        Err(ErrorKind::Encryption)
    } else {
        Ok(sealed_section(v, password, salt, nonce))
    }
}

/// What opening a stored section with a password yields.
pub open spec fn decrypt_outcome(sec: EncryptionView, password: Seq<char>) -> Result<
    SecretsView,
    ErrorKind,
> {
    match bs58_decoding(sec.ciphertext) {
        None => Err(ErrorKind::InvalidCiphertextEncoding),
        Some(ct) => match bs58_decoding(sec.salt) {
            None => Err(ErrorKind::InvalidSaltEncoding),
            Some(salt) => match bs58_decoding(sec.nonce) {
                None => Err(ErrorKind::InvalidNonceEncoding),
                Some(nonce) => if !key_derivable(password, salt) {
                    Err(ErrorKind::KeyDerivation)
                } else if nonce.len() != NONCE_LEN {
                    Err(ErrorKind::InvalidNonceLength)
                } else {
                    match aes256gcm_open(password_key(password, salt), nonce, ct) {
                        None => Err(ErrorKind::WrongPasswordOrCorrupted),
                        Some(pt) => match parse_secrets(pt) {
                            None => Err(ErrorKind::MalformedSecrets),
                            Some(v) => Ok(v),
                        },
                    }
                },
            },
        },
    }
}

/// Derive a 256-bit key from password + salt using Argon2id.
fn derive_key(password: &str, salt: &[u8]) -> (r: Result<Vec<u8>, CliError>)
    ensures
        r is Ok <==> key_derivable(password@, salt@),
        r matches Ok(k) ==> k@ == password_key(password@, salt@) && k@.len() == 32,
        r matches Err(e) ==> e.kind() == ErrorKind::KeyDerivation,
{
    match argon2id_hash_into(password.as_bytes(), salt) {
        Ok(k) => Ok(k),
        Err(d) => Err(CliError::KeyDerivation(d)),
    }
}

/// `len` bytes from the operating system's random source.
pub(crate) fn random_bytes(len: usize) -> (r: Result<Vec<u8>, CliError>)
    ensures
        r matches Ok(v) ==> v@.len() == len,
        r matches Err(e) ==> e == CliError::RandomSource,
{
    match os_random_bytes(len) {
        Some(v) => Ok(v),
        None => Err(CliError::RandomSource),
    }
}

/// Seal a secrets bundle with a password, a salt and a nonce
/// (AES-256-GCM keyed by Argon2id); the stored fields are Base58.
pub fn seal_secrets(bundle: &SecretsBundle, password: &str, salt: &[u8], nonce: &[u8]) -> (r:
    Result<EncryptionSection, CliError>)
    requires
        nonce@.len() == NONCE_LEN,
    ensures
        match r {
            Ok(sec) => seal_outcome(bundle@, password@, salt@, nonce@) == Ok::<_, ErrorKind>(sec@),
            Err(e) => seal_outcome(bundle@, password@, salt@, nonce@) == Err::<EncryptionView, _>(
                e.kind(),
            ),
        },
{
    let plaintext = encode_secrets_json(bundle);
    let key = derive_key(password, salt)?;
    let ciphertext = match aes256gcm_encrypt(key.as_slice(), nonce, plaintext.as_slice()) {
        Ok(c) => c,
        Err(d) => return Err(CliError::Encryption(d)),
    };
    Ok(
        EncryptionSection {
            ciphertext: bs58_encode(ciphertext.as_slice()),
            salt: bs58_encode(salt),
            nonce: bs58_encode(nonce),
        },
    )
}

/// Encrypt a secrets bundle with a password (AES-256-GCM + Argon2id), under
/// a fresh random salt and nonce.
pub fn encrypt_secrets(bundle: &SecretsBundle, password: &str) -> (r: Result<
    EncryptionSection,
    CliError,
>)
    ensures
        r matches Ok(sec) ==> exists|salt: Seq<u8>, nonce: Seq<u8>|
            salt.len() == SALT_LEN && nonce.len() == NONCE_LEN && #[trigger] seal_outcome(
                bundle@,
                password@,
                salt,
                nonce,
            ) == Ok::<_, ErrorKind>(sec@),
        r matches Err(e) ==> e == CliError::RandomSource || (e.kind() == ErrorKind::KeyDerivation
            && encode_utf8(password@).len() > MAX_PASSWORD_LEN) || (e.kind() == ErrorKind::Encryption
            && encode_secrets(bundle@).len() > MAX_PLAINTEXT_LEN),
{
    let salt = random_bytes(SALT_LEN)?;
    let nonce = random_bytes(NONCE_LEN)?;
    let r = seal_secrets(bundle, password, salt.as_slice(), nonce.as_slice());
    proof {
        if let Ok(sec) = &r {
            assert(seal_outcome(bundle@, password@, salt@, nonce@) == Ok::<_, ErrorKind>(sec@));
        }
    }
    r
}

/// Decrypt a secrets bundle with a password. A section sealed from a bundle
/// with the same password opens to that bundle.
pub fn decrypt_secrets(section: &EncryptionSection, password: &str) -> (r: Result<
    SecretsBundle,
    CliError,
>)
    ensures
        match r {
            Ok(b) => decrypt_outcome(section@, password@) == Ok::<_, ErrorKind>(b@),
            Err(e) => decrypt_outcome(section@, password@) == Err::<SecretsView, _>(e.kind()),
        },
        forall|v: SecretsView, salt: Seq<u8>, nonce: Seq<u8>|
            nonce.len() == NONCE_LEN && #[trigger] seal_outcome(v, password@, salt, nonce) == Ok::<
                _,
                ErrorKind,
            >(section@) ==> (r matches Ok(b) && b@ == v),
{
    let ghost pw = password@;
    let ghost sealed = |v: SecretsView, salt: Seq<u8>, nonce: Seq<u8>|
        nonce.len() == NONCE_LEN && seal_outcome(v, pw, salt, nonce) == Ok::<_, ErrorKind>(
            section@,
        );
    let ciphertext = match bs58_decode(section.ciphertext.as_str()) {
        Ok(c) => c,
        Err(d) => return Err(CliError::InvalidCiphertextEncoding(d)),
    };
    let salt = match bs58_decode(section.salt.as_str()) {
        Ok(c) => c,
        Err(d) => return Err(CliError::InvalidSaltEncoding(d)),
    };
    let nonce = match bs58_decode(section.nonce.as_str()) {
        Ok(c) => c,
        Err(d) => return Err(CliError::InvalidNonceEncoding(d)),
    };
    proof {
        assert forall|v: SecretsView, s: Seq<u8>, n: Seq<u8>| #[trigger] sealed(v, s, n) implies s
            == salt@ && n == nonce@ && ciphertext@ == aes256gcm_seal(
            password_key(pw, s),
            n,
            encode_secrets(v),
        ) && key_derivable(pw, s) && encode_secrets(v).len() <= MAX_PLAINTEXT_LEN by {
            let sec = sealed_section(v, pw, s, n);
            assert(section.salt@ == bs58_encoding(s));
            assert(section.nonce@ == bs58_encoding(n));
            assert(section.ciphertext@ == bs58_encoding(
                aes256gcm_seal(password_key(pw, s), n, encode_secrets(v)),
            ));
        }
    }
    let key = derive_key(password, salt.as_slice())?;
    if nonce.len() != NONCE_LEN {
        return Err(CliError::InvalidNonceLength);
    }
    let plaintext = match aes256gcm_decrypt(key.as_slice(), nonce.as_slice(), ciphertext.as_slice()) {
        Some(p) => p,
        None => return Err(CliError::WrongPasswordOrCorrupted),
    };
    proof {
        assert forall|v: SecretsView, s: Seq<u8>, n: Seq<u8>| #[trigger] sealed(v, s, n) implies plaintext@
            == encode_secrets(v) by {
            assert(ciphertext@ == aes256gcm_seal(key@, nonce@, encode_secrets(v)));
        }
    }
    match decode_secrets_json(plaintext.as_slice()) {
        Some(b) => {
            proof {
                assert forall|v: SecretsView, s: Seq<u8>, n: Seq<u8>|
                    n.len() == NONCE_LEN && #[trigger] seal_outcome(v, pw, s, n) == Ok::<_, ErrorKind>(
                        section@,
                    ) implies b@ == v by {
                    assert(sealed(v, s, n));
                    lemma_secrets_json_roundtrip(v);
                }
            }
            Ok(b)
        },
        None => {
            proof {
                assert forall|v: SecretsView, s: Seq<u8>, n: Seq<u8>|
                    n.len() == NONCE_LEN && #[trigger] seal_outcome(v, pw, s, n) == Ok::<_, ErrorKind>(
                        section@,
                    ) implies false by {
                    assert(sealed(v, s, n));
                    lemma_secrets_json_roundtrip(v);
                }
            }
            Err(CliError::MalformedSecrets)
        },
    }
}

} // verus!
