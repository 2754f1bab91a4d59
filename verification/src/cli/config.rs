use vstd::prelude::*;

use std::collections::HashMap;

use super::crypto::{
    bs58_decode, bs58_decoding, decrypt_outcome, decrypt_secrets, encrypt_secrets, seal_outcome,
    EncryptionSection, SecretsBundle, SecretsView, MAX_PASSWORD_LEN, MAX_PLAINTEXT_LEN, NONCE_LEN,
    SALT_LEN,
};
use super::error::{CliError, ErrorKind};
use super::secrets_json::encode_secrets;
use vstd::string::StringSliceAdditionalSpecFns;
use vstd::slice::slice_to_vec;
use vstd::utf8::*;

verus! {

/// The characters an agent name may hold: ASCII letters, digits, `-` and `_`.
pub open spec fn is_agent_name_char(c: char) -> bool {
    ||| ('a' <= c && c <= 'z')
    ||| ('A' <= c && c <= 'Z')
    ||| ('0' <= c && c <= '9')
    ||| c == '-'
    ||| c == '_'
}

/// The verdict on a candidate agent name, checked in this order: empty,
/// `.`/`..`, then the character set.
pub open spec fn agent_name_verdict(name: Seq<char>) -> Result<(), CliError> {
    if name.len() == 0 {
        Err(CliError::EmptyAgentName)
    } else if name == seq!['.'] || name == seq!['.', '.'] {
        Err(CliError::InvalidAgentName)
    } else if !(forall|i: int| 0 <= i < name.len() ==> is_agent_name_char(#[trigger] name[i])) {
        Err(CliError::InvalidAgentNameChars)
    } else {
        Ok(())
    }
}

fn is_agent_name_char_exec(c: char) -> (r: bool)
    ensures
        r == is_agent_name_char(c),
{
    ('a' <= c && c <= 'z') || ('A' <= c && c <= 'Z') || ('0' <= c && c <= '9') || c == '-'
        || c == '_'
}

/// Validate that an agent name is safe for use as a directory name.
/// Allows ASCII alphanumeric characters, hyphens, and underscores only.
pub fn validate_agent_name(name: &str) -> (r: Result<(), CliError>)
    ensures
        r == agent_name_verdict(name@),
{
    let mut count: usize = 0;
    let mut all_dots = true;
    let mut all_allowed = true;
    for c in it: name.chars()
        invariant
            count == (if it.index() < 3 { it.index() } else { 3 }),
            it.seq() == name@,
            all_dots == (forall|j: int| 0 <= j < it.index() ==> #[trigger] it.seq()[j] == '.'),
            all_allowed == (forall|j: int|
                0 <= j < it.index() ==> is_agent_name_char(#[trigger] it.seq()[j])),
    {
        if c != '.' {
            all_dots = false;
        }
        if !is_agent_name_char_exec(c) {
            all_allowed = false;
        }
        if count < 3 {
            count = count + 1;
        }
    }
    if count == 0 {
        return Err(CliError::EmptyAgentName);
    }
    if all_dots && (count == 1 || count == 2) {
        assert(name@ == seq!['.'] || name@ == seq!['.', '.']);
        return Err(CliError::InvalidAgentName);
    }
    if !all_allowed {
        return Err(CliError::InvalidAgentNameChars);
    }
    Ok(())
}

/// A name is accepted exactly when it is not empty, not `.` or `..`, and
/// every character is an ASCII letter (either case), an ASCII digit, `-` or
/// `_`; otherwise the first of these checks that fails gives the error.
pub proof fn law_agent_names(name: Seq<char>)
    ensures
        name.len() == 0 ==> agent_name_verdict(name) == Err::<(), _>(CliError::EmptyAgentName),
        name == seq!['.'] || name == seq!['.', '.'] ==> agent_name_verdict(name) == Err::<(), _>(
            CliError::InvalidAgentName,
        ),
        name.len() > 0 && name != seq!['.'] && name != seq!['.', '.'] ==> agent_name_verdict(name)
            == if (forall|i: int|
            0 <= i < name.len() ==> ('a' <= #[trigger] name[i] && name[i] <= 'z') || ('A'
                <= name[i] && name[i] <= 'Z') || ('0' <= name[i] && name[i] <= '9') || name[i]
                == '-' || name[i] == '_') {
            Ok::<(), CliError>(())
        } else {
            Err(CliError::InvalidAgentNameChars)
        },
{
}

/// Settings of the language model an agent calls.
#[derive(Debug, Clone)]
pub struct LlmSection {
    pub provider: String,
    pub api_key: String,
    pub model: String,
    pub max_tokens: u32,
}

/// The default for `LlmSection::max_tokens` when a config omits it.
pub fn default_max_tokens() -> (r: u32)
    ensures
        r == 4096,
{
    4096
}

/// Payment settings of an agent.
#[derive(Debug, Clone)]
pub struct PaymentSection {
    pub chain: String,
    pub network: String,
    pub rpc_url: Option<String>,
    pub job_price: u64,
    pub payment_timeout_secs: u32,
    pub solana_secret_key: String,
}

impl Default for PaymentSection {
    fn default() -> (r: Self)
        ensures
            r.chain@ == "solana"@,
            r.network@ == "mainnet"@,
            r.rpc_url is None,
            r.job_price == 10_000_000,
            r.payment_timeout_secs == 120,
            r.solana_secret_key@ == Seq::<char>::empty(),
    {
        PaymentSection {
            chain: String::from_str("solana"),
            network: String::from_str("mainnet"),
            rpc_url: None,
            job_price: 10_000_000,  // 0.01 SOL in lamports
            payment_timeout_secs: 120,
            solana_secret_key: String::new(),
        }
    }
}

/// The Solana address (Base58 public key) of a keypair given as its 64
/// bytes, as `solana_sdk` derives it; `None` when the bytes are not a valid
/// keypair.
pub uninterp spec fn solana_keypair_address(keypair_bytes: Seq<u8>) -> Option<Seq<char>>;

/// Calls `Keypair::try_from(bytes)` and, on success, `pubkey().to_string()`.
/// Claimed: the result is a function of the bytes, and there is none unless
/// exactly 64 bytes are given (the length check of `try_from` and of
/// `PublicKey::from_bytes` on the last 32 bytes).
#[verifier::external_body]
fn keypair_address(bytes: &[u8]) -> (r: Option<String>)
    ensures
        r matches Some(a) ==> solana_keypair_address(bytes@) == Some(a@),
        r is None ==> solana_keypair_address(bytes@) is None,
        bytes@.len() != 64 ==> r is None,
{
    match solana_sdk::signature::Keypair::try_from(bytes) {
        Ok(kp) => Some(solana_sdk::signer::Signer::pubkey(&kp).to_string()),
        Err(_) => None,
    }
}

/// The address shown for a stored Solana secret key: Base58-decode it, then
/// read it as a keypair.
pub open spec fn solana_address_of(secret: Seq<char>) -> Option<Seq<char>> {
    match bs58_decoding(secret) {
        None => None,
        Some(bytes) => solana_keypair_address(bytes),
    }
}

impl PaymentSection {
    /// Derive the Solana public address from the stored secret key for display.
    pub fn solana_address(&self) -> (r: Option<String>)
        ensures
            r matches Some(a) ==> solana_address_of(self.solana_secret_key@) == Some(a@),
            r is None ==> solana_address_of(self.solana_secret_key@) is None,
    {
        let bytes = match bs58_decode(self.solana_secret_key.as_str()) {
            Ok(b) => b,
            Err(_) => return None,
        };
        keypair_address(bytes.as_slice())
    }
}

/// The configuration of one agent.
#[derive(Debug, Clone)]
pub struct AgentConfig {
    pub name: String,
    pub description: String,
    pub capabilities: Vec<String>,
    pub relays: Vec<String>,
    pub secret_key: String,
    pub payment: PaymentSection,
    pub inactive_capabilities: Vec<String>,
    pub capability_prompts: HashMap<String, String>,
    pub llm: Option<LlmSection>,
    pub customer_llm: Option<LlmSection>,
    pub encryption: Option<EncryptionSection>,
}

/// The secret fields of a configuration; the two LLM keys are there only
/// when their sections are.
pub struct ConfigSecrets {
    pub secret_key: Seq<char>,
    pub solana_secret_key: Seq<char>,
    pub llm_api_key: Option<Seq<char>>,
    pub customer_llm_api_key: Option<Seq<char>>,
}

pub open spec fn llm_key_of(l: Option<LlmSection>) -> Option<Seq<char>> {
    match l {
        Some(s) => Some(s.api_key@),
        None => None,
    }
}

pub open spec fn config_secrets(c: AgentConfig) -> ConfigSecrets {
    ConfigSecrets {
        secret_key: c.secret_key@,
        solana_secret_key: c.payment.solana_secret_key@,
        llm_api_key: llm_key_of(c.llm),
        customer_llm_api_key: llm_key_of(c.customer_llm),
    }
}

/// Two LLM sections agree on everything but the key.
pub open spec fn same_llm_settings(a: Option<LlmSection>, b: Option<LlmSection>) -> bool {
    match (a, b) {
        (None, None) => true,
        (Some(x), Some(y)) => x.provider == y.provider && x.model == y.model && x.max_tokens
            == y.max_tokens,
        _ => false,
    }
}

/// Two configurations agree on everything but the secret fields and the
/// encryption section.
pub open spec fn same_public_settings(a: AgentConfig, b: AgentConfig) -> bool {
    &&& a.name == b.name
    &&& a.description == b.description
    &&& a.capabilities == b.capabilities
    &&& a.relays == b.relays
    &&& a.payment.chain == b.payment.chain
    &&& a.payment.network == b.payment.network
    &&& a.payment.rpc_url == b.payment.rpc_url
    &&& a.payment.job_price == b.payment.job_price
    &&& a.payment.payment_timeout_secs == b.payment.payment_timeout_secs
    &&& a.inactive_capabilities == b.inactive_capabilities
    &&& a.capability_prompts == b.capability_prompts
    &&& same_llm_settings(a.llm, b.llm)
    &&& same_llm_settings(a.customer_llm, b.customer_llm)
}

/// The bundle that holds a configuration's secrets; an absent LLM section
/// gives an empty key.
pub open spec fn bundle_of_secrets(s: ConfigSecrets) -> SecretsView {
    SecretsView {
        nostr_secret_key: s.secret_key,
        solana_secret_key: s.solana_secret_key,
        llm_api_key: match s.llm_api_key {
            Some(k) => k,
            None => Seq::empty(),
        },
        customer_llm_api_key: s.customer_llm_api_key,
    }
}

/// Secrets with every present field emptied.
pub open spec fn cleared_secrets(s: ConfigSecrets) -> ConfigSecrets {
    ConfigSecrets {
        secret_key: Seq::empty(),
        solana_secret_key: Seq::empty(),
        llm_api_key: match s.llm_api_key {
            Some(_) => Some(Seq::empty()),
            None => None,
        },
        customer_llm_api_key: match s.customer_llm_api_key {
            Some(_) => Some(Seq::empty()),
            None => None,
        },
    }
}

/// Secrets filled in from a decrypted bundle: sections that are absent stay
/// absent, and a customer key is kept when the bundle has none.
pub open spec fn restored_secrets(s: ConfigSecrets, b: SecretsView) -> ConfigSecrets {
    ConfigSecrets {
        secret_key: b.nostr_secret_key,
        solana_secret_key: b.solana_secret_key,
        llm_api_key: match s.llm_api_key {
            Some(_) => Some(b.llm_api_key),
            None => None,
        },
        customer_llm_api_key: match s.customer_llm_api_key {
            Some(k) => match b.customer_llm_api_key {
                Some(nk) => Some(nk),
                None => Some(k),
            },
            None => None,
        },
    }
}

/// `after` is `before` with its secrets sealed with `password` into its
/// encryption section and then cleared.
pub open spec fn encrypted_from(before: AgentConfig, after: AgentConfig, password: Seq<char>) -> bool {
    &&& same_public_settings(before, after)
    &&& config_secrets(after) == cleared_secrets(config_secrets(before))
    &&& after.encryption matches Some(sec) && exists|salt: Seq<u8>, nonce: Seq<u8>|
        salt.len() == SALT_LEN && nonce.len() == NONCE_LEN && #[trigger] seal_outcome(
            bundle_of_secrets(config_secrets(before)),
            password,
            salt,
            nonce,
        ) == Ok::<_, ErrorKind>(sec@)
}

/// `after` is `before` with its secrets filled in from the bundle `b`.
pub open spec fn decrypted_into(before: AgentConfig, after: AgentConfig, b: SecretsView) -> bool {
    &&& same_public_settings(before, after)
    &&& after.encryption == before.encryption
    &&& config_secrets(after) == restored_secrets(config_secrets(before), b)
}

/// Sealing a configuration's secrets and filling them back in from the
/// bundle gives the secrets back.
pub proof fn lemma_restore_after_clear(s: ConfigSecrets)
    ensures
        restored_secrets(cleared_secrets(s), bundle_of_secrets(s)) == s,
{
}

/// Encrypting a configuration's secrets with a password and then decrypting
/// them gives back the configuration it started from, but for the
/// encryption section.
pub proof fn law_encrypt_then_decrypt(
    before: AgentConfig,
    middle: AgentConfig,
    after: AgentConfig,
    password: Seq<char>,
)
    requires
        encrypted_from(before, middle, password),
        decrypted_into(middle, after, bundle_of_secrets(config_secrets(before))),
    ensures
        same_public_settings(before, after),
        config_secrets(after) == config_secrets(before),
{
    lemma_restore_after_clear(config_secrets(before));
}

fn clone_llm_key(l: &Option<LlmSection>) -> (r: String)
    ensures
        r@ == (match llm_key_of(*l) {
            Some(k) => k,
            None => Seq::empty(),
        }),
{
    match l {
        Some(s) => s.api_key.clone(),
        None => String::new(),
    }
}

impl AgentConfig {
    /// Returns true if secrets are encrypted.
    pub fn is_encrypted(&self) -> (r: bool)
        ensures
            r == self.encryption is Some,
    {
        self.encryption.is_some()
    }

    /// Bundle all secret fields for encryption.
    pub fn secrets_bundle(&self) -> (r: SecretsBundle)
        ensures
            r@ == bundle_of_secrets(config_secrets(*self)),
    {
        let customer = match &self.customer_llm {
            Some(l) => Some(l.api_key.clone()),
            None => None,
        };
        SecretsBundle {
            nostr_secret_key: self.secret_key.clone(),
            solana_secret_key: self.payment.solana_secret_key.clone(),
            llm_api_key: clone_llm_key(&self.llm),
            customer_llm_api_key: customer,
        }
    }

    /// Encrypt secrets with password and clear plaintext fields in-place.
    pub fn encrypt_secrets(&mut self, password: &str) -> (r: Result<(), CliError>)
        ensures
            r is Ok ==> encrypted_from(*old(self), *final(self), password@),
            r is Err ==> *final(self) == *old(self),
            r matches Err(e) ==> e == CliError::RandomSource || (e.kind() == ErrorKind::KeyDerivation
                && encode_utf8(password@).len() > MAX_PASSWORD_LEN) || (e.kind()
                == ErrorKind::Encryption
                && encode_secrets(bundle_of_secrets(config_secrets(*old(self)))).len()
                > MAX_PLAINTEXT_LEN),
    {
        let bundle = self.secrets_bundle();
        let section = encrypt_secrets(&bundle, password)?;
        self.encryption = Some(section);
        self.secret_key = String::new();
        self.payment.solana_secret_key = String::new();
        match &mut self.llm {
            Some(llm) => {
                llm.api_key = String::new();
            },
            None => {},
        }
        match &mut self.customer_llm {
            Some(cllm) => {
                cllm.api_key = String::new();
            },
            None => {},
        }
        Ok(())
    }

    /// Decrypt secrets with password and populate plaintext fields in-place.
    pub fn decrypt_secrets(&mut self, password: &str) -> (r: Result<(), CliError>)
        ensures
            old(self).encryption is None ==> r == Err::<(), _>(CliError::NotEncrypted)
                && *final(self) == *old(self),
            old(self).encryption matches Some(sec) ==> match decrypt_outcome(sec@, password@) {
                Ok(b) => r is Ok && decrypted_into(*old(self), *final(self), b),
                Err(k) => (r matches Err(e) && e.kind() == k) && *final(self) == *old(self),
            },
            forall|v: SecretsView, salt: Seq<u8>, nonce: Seq<u8>|
                nonce.len() == NONCE_LEN && (old(self).encryption matches Some(sec)
                    && #[trigger] seal_outcome(v, password@, salt, nonce) == Ok::<_, ErrorKind>(
                    sec@,
                )) ==> (r is Ok && decrypted_into(*old(self), *final(self), v)),
    {
        let bundle = match &self.encryption {
            Some(section) => decrypt_secrets(section, password)?,
            None => return Err(CliError::NotEncrypted),
        };
        self.secret_key = bundle.nostr_secret_key;
        self.payment.solana_secret_key = bundle.solana_secret_key;
        match &mut self.llm {
            Some(llm) => {
                llm.api_key = bundle.llm_api_key;
            },
            None => {},
        }
        match &mut self.customer_llm {
            Some(cllm) => {
                match bundle.customer_llm_api_key {
                    Some(key) => {
                        cllm.api_key = key;
                    },
                    None => {},
                }
            },
            None => {},
        }
        Ok(())
    }
}


// ---------------------------------------------------------------------------
// Where agents live on disk: ~/.elisym/agents/<name>/config.toml
// ---------------------------------------------------------------------------
/// Appends a relative component to a path (both as the operating system's
/// bytes), with one `/` between them unless the path is empty or already
/// ends in `/`.
pub open spec fn path_join(base: Seq<u8>, part: Seq<u8>) -> Seq<u8> {
    if base.len() == 0 {
        part
    } else if base.last() == 0x2f {
        base + part
    } else {
        base + seq![0x2fu8] + part
    }
}

pub open spec fn agents_root_path(home: Seq<u8>) -> Seq<u8> {
    path_join(path_join(home, encode_utf8(".elisym"@)), encode_utf8("agents"@))
}

pub open spec fn agent_dir_path(home: Seq<u8>, name: Seq<char>) -> Seq<u8> {
    path_join(agents_root_path(home), encode_utf8(name))
}

pub open spec fn config_path_in(home: Seq<u8>, name: Seq<char>) -> Seq<u8> {
    path_join(agent_dir_path(home, name), encode_utf8("config.toml"@))
}

/// `base` joined with the relative component `part`.
pub fn join_path(base: &[u8], part: &[u8]) -> (r: Vec<u8>)
    ensures
        r@ == path_join(base@, part@),
{
    let mut out = slice_to_vec(base);
    let n = base.len();
    if n > 0 && base[n - 1] != 0x2f {
        out.push(0x2f);
    }
    let mut tail = slice_to_vec(part);
    out.append(&mut tail);
    out
}

/// Calls `dirs::home_dir()` and gives the path as the operating system's
/// bytes (`OsString::into_encoded_bytes`). Nothing is claimed of the result:
/// it comes from the environment.
#[verifier::external_body]
fn home_dir() -> (r: Option<Vec<u8>>) {
    match dirs::home_dir() {
        Some(p) => Some(p.into_os_string().into_encoded_bytes()),
        None => None,
    }
}

/// The agents root under the given home directory.
pub fn agents_root_in(home: &[u8]) -> (r: Vec<u8>)
    ensures
        r@ == agents_root_path(home@),
{
    assert(".elisym".spec_bytes() == encode_utf8(".elisym"@));
    assert("agents".spec_bytes() == encode_utf8("agents"@));
    let dot = join_path(home, ".elisym".as_bytes());
    join_path(dot.as_slice(), "agents".as_bytes())
}

/// The view of an optional path.
pub open spec fn opt_path(o: Option<&[u8]>) -> Option<Seq<u8>> {
    match o {
        Some(s) => Some(s@),
        None => None,
    }
}

/// The view of a path or an error.
pub open spec fn path_result(r: Result<Vec<u8>, CliError>) -> Result<Seq<u8>, CliError> {
    match r {
        Ok(p) => Ok(p@),
        Err(e) => Err(e),
    }
}

/// The agents root for a home directory, if there is one.
pub open spec fn agents_root_result(home: Option<Seq<u8>>) -> Result<Seq<u8>, CliError> {
    match home {
        None => Err(CliError::NoHomeDirectory),
        Some(h) => Ok(agents_root_path(h)),
    }
}

/// The directory of an agent: the name is checked first, then the home
/// directory is needed.
pub open spec fn agent_dir_result(home: Option<Seq<u8>>, name: Seq<char>) -> Result<
    Seq<u8>,
    CliError,
> {
    match agent_name_verdict(name) {
        Err(e) => Err(e),
        Ok(_) => match home {
            None => Err(CliError::NoHomeDirectory),
            Some(h) => Ok(agent_dir_path(h, name)),
        },
    }
}

/// The config file of an agent.
pub open spec fn config_path_result(home: Option<Seq<u8>>, name: Seq<char>) -> Result<
    Seq<u8>,
    CliError,
> {
    match agent_name_verdict(name) {
        Err(e) => Err(e),
        Ok(_) => match home {
            None => Err(CliError::NoHomeDirectory),
            Some(h) => Ok(config_path_in(h, name)),
        },
    }
}

/// The config file is `config.toml` in the agent's directory, and an agent
/// directory is a direct child of the agents root; both fail alike.
pub proof fn law_config_path_in_agent_dir(home: Option<Seq<u8>>, name: Seq<char>)
    ensures
        config_path_result(home, name) == match agent_dir_result(home, name) {
            Ok(d) => Ok(path_join(d, encode_utf8("config.toml"@))),
            Err(e) => Err(e),
        },
        agent_dir_result(home, name) matches Ok(d) ==> (agents_root_result(home) matches Ok(
            root,
        ) && d == path_join(root, encode_utf8(name))),
{
}

/// Root directory under an optional home directory: `<home>/.elisym/agents`.
pub fn agents_root_from(home: Option<&[u8]>) -> (r: Result<Vec<u8>, CliError>)
    ensures
        path_result(r) == agents_root_result(opt_path(home)),
{
    match home {
        Some(h) => Ok(agents_root_in(h)),
        None => Err(CliError::NoHomeDirectory),
    }
}

/// Directory for an agent under an optional home directory.
pub fn agent_dir_from(home: Option<&[u8]>, name: &str) -> (r: Result<Vec<u8>, CliError>)
    ensures
        path_result(r) == agent_dir_result(opt_path(home), name@),
{
    validate_agent_name(name)?;
    let root = agents_root_from(home)?;
    assert(name.spec_bytes() == encode_utf8(name@));
    Ok(join_path(root.as_slice(), name.as_bytes()))
}

/// Path to config.toml for an agent under an optional home directory.
pub fn config_path_from(home: Option<&[u8]>, name: &str) -> (r: Result<Vec<u8>, CliError>)
    ensures
        path_result(r) == config_path_result(opt_path(home), name@),
{
    let dir = agent_dir_from(home, name)?;
    assert("config.toml".spec_bytes() == encode_utf8("config.toml"@));
    Ok(join_path(dir.as_slice(), "config.toml".as_bytes()))
}

/// Root directory: ~/.elisym/agents/
pub fn agents_root() -> (r: Result<Vec<u8>, CliError>)
    ensures
        exists|home: Option<Seq<u8>>| path_result(r) == agents_root_result(home),
{
    let h = home_dir();
    match &h {
        Some(s) => {
            let r = agents_root_from(Some(s.as_slice()));
            assert(path_result(r) == agents_root_result(Some(s@)));
            r
        },
        None => {
            let r = agents_root_from(None);
            assert(path_result(r) == agents_root_result(None));
            r
        },
    }
}

/// Directory for a specific agent: ~/.elisym/agents/<name>/
pub fn agent_dir(name: &str) -> (r: Result<Vec<u8>, CliError>)
    ensures
        exists|home: Option<Seq<u8>>| path_result(r) == agent_dir_result(home, name@),
{
    if let Err(e) = validate_agent_name(name) {
        assert(path_result(Err(e)) == agent_dir_result(None, name@));
        return Err(e);
    }
    let h = home_dir();
    match &h {
        Some(s) => {
            let r = agent_dir_from(Some(s.as_slice()), name);
            assert(path_result(r) == agent_dir_result(Some(s@), name@));
            r
        },
        None => {
            let r = agent_dir_from(None, name);
            assert(path_result(r) == agent_dir_result(None, name@));
            r
        },
    }
}

/// Path to config.toml for a specific agent
pub fn config_path(name: &str) -> (r: Result<Vec<u8>, CliError>)
    ensures
        exists|home: Option<Seq<u8>>| path_result(r) == config_path_result(home, name@),
{
    if let Err(e) = validate_agent_name(name) {
        assert(path_result(Err(e)) == config_path_result(None, name@));
        return Err(e);
    }
    let h = home_dir();
    match &h {
        Some(s) => {
            let r = config_path_from(Some(s.as_slice()), name);
            assert(path_result(r) == config_path_result(Some(s@), name@));
            r
        },
        None => {
            let r = config_path_from(None, name);
            assert(path_result(r) == config_path_result(None, name@));
            r
        },
    }
}


// ---------------------------------------------------------------------------
// Listing agents: names in byte order.
// ---------------------------------------------------------------------------
/// Lexicographic order of byte strings (the order of `str`).
pub open spec fn bytes_le(a: Seq<u8>, b: Seq<u8>) -> bool
    decreases a.len(),
{
    if a.len() == 0 {
        true
    } else if b.len() == 0 {
        false
    } else if a[0] != b[0] {
        a[0] < b[0]
    } else {
        bytes_le(a.drop_first(), b.drop_first())
    }
}

/// The order of names: by their UTF-8 bytes.
pub open spec fn name_le(a: Seq<char>, b: Seq<char>) -> bool {
    bytes_le(encode_utf8(a), encode_utf8(b))
}

/// Any two byte strings are ordered one way or the other.
pub proof fn lemma_bytes_le_total(a: Seq<u8>, b: Seq<u8>)
    ensures
        bytes_le(a, b) || bytes_le(b, a),
    decreases a.len(),
{
    if a.len() > 0 && b.len() > 0 && a[0] == b[0] {
        lemma_bytes_le_total(a.drop_first(), b.drop_first());
    }
}

fn bytes_le_exec(a: &[u8], b: &[u8]) -> (r: bool)
    ensures
        r == bytes_le(a@, b@),
{
    let mut i: usize = 0;
    assert(a@.skip(0) =~= a@);
    assert(b@.skip(0) =~= b@);
    while i < a.len() && i < b.len()
        invariant
            i <= a@.len(),
            i <= b@.len(),
            a@.take(i as int) == b@.take(i as int),
            bytes_le(a@, b@) == bytes_le(a@.skip(i as int), b@.skip(i as int)),
        decreases a@.len() - i,
    {
        assert(a@.skip(i as int)[0] == a@[i as int]);
        assert(b@.skip(i as int)[0] == b@[i as int]);
        if a[i] != b[i] {
            return a[i] < b[i];
        }
        assert(a@.skip(i as int).drop_first() =~= a@.skip(i + 1));
        assert(b@.skip(i as int).drop_first() =~= b@.skip(i + 1));
        assert(a@.take(i + 1) =~= a@.take(i as int).push(a@[i as int]));
        assert(b@.take(i + 1) =~= b@.take(i as int).push(b@[i as int]));
        i = i + 1;
    }
    i == a.len()
}

/// Whether `a` comes no later than `b` in byte order.
pub fn name_le_exec(a: &str, b: &str) -> (r: bool)
    ensures
        r == name_le(a@, b@),
{
    assert(a.spec_bytes() == encode_utf8(a@));
    assert(b.spec_bytes() == encode_utf8(b@));
    bytes_le_exec(a.as_bytes(), b.as_bytes())
}

/// The names of configured agents in byte order (the names themselves come
/// from the directories under the agents root that hold a config.toml).
pub fn sort_agent_names(names: Vec<String>) -> (r: Vec<String>)
    ensures
        r@.to_multiset() == names@.to_multiset(),
        forall|i: int| 0 <= i < r@.len() - 1 ==> name_le(#[trigger] r@[i]@, r@[i + 1]@),
{
    broadcast use vstd::seq_lib::to_multiset_insert, vstd::seq_lib::to_multiset_build;

    let mut out: Vec<String> = Vec::new();
    let n = names.len();
    assert(names@.take(0) =~= Seq::<String>::empty());
    assert(out@ =~= Seq::<String>::empty());
    for i in 0..n
        invariant
            n == names@.len(),
            out@.to_multiset() == names@.take(i as int).to_multiset(),
            forall|k: int| 0 <= k < out@.len() - 1 ==> name_le(#[trigger] out@[k]@, out@[k + 1]@),
    {
        let name = names[i].clone();
        // The first position whose name comes strictly after `name`.
        let mut p: usize = 0;
        while p < out.len() && name_le_exec(out[p].as_str(), name.as_str())
            invariant
                p <= out@.len(),
                p > 0 ==> name_le(out@[p - 1]@, name@),
            decreases out@.len() - p,
        {
            p = p + 1;
        }
        proof {
            if p < out@.len() {
                lemma_bytes_le_total(encode_utf8(out@[p as int]@), encode_utf8(name@));
            }
        }
        let ghost before = out@;
        out.insert(p, name);
        proof {
            assert(names@.take(i + 1) =~= names@.take(i as int).push(names@[i as int]));
            vstd::seq_lib::to_multiset_insert(before, p as int, name);
            vstd::seq_lib::to_multiset_build(names@.take(i as int), names@[i as int]);
            assert forall|k: int| 0 <= k < out@.len() - 1 implies name_le(
                #[trigger] out@[k]@,
                out@[k + 1]@,
            ) by {
                if k < p - 1 {
                    assert(out@[k] == before[k] && out@[k + 1] == before[k + 1]);
                } else if k == p - 1 {
                } else if k == p {
                } else {
                    assert(out@[k] == before[k - 1] && out@[k + 1] == before[k]);
                }
            }
        }
    }
    assert(names@.take(n as int) =~= names@);
    out
}

} // verus!
