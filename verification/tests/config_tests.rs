use std::collections::HashMap;

use elisym_cli::cli::config::{
    agent_dir_from, agents_root_from, agents_root_in, config_path_from, default_max_tokens, join_path, name_le_exec, sort_agent_names,
    validate_agent_name, AgentConfig, LlmSection, PaymentSection,
};
use elisym_cli::cli::crypto::SecretsBundle;
use elisym_cli::cli::error::CliError;
use solana_sdk::signer::Signer;

fn llm(key: &str) -> LlmSection {
    LlmSection {
        provider: "openai".to_string(),
        api_key: key.to_string(),
        model: "gpt-4o".to_string(),
        max_tokens: default_max_tokens(),
    }
}

fn config() -> AgentConfig {
    let mut prompts = HashMap::new();
    prompts.insert("summarize".to_string(), "Summarize the text.".to_string());
    AgentConfig {
        name: "bot".to_string(),
        description: "a test agent".to_string(),
        capabilities: vec!["summarize".to_string()],
        relays: vec!["wss://relay.example".to_string()],
        secret_key: "nsec-secret".to_string(),
        payment: PaymentSection { solana_secret_key: "sol-secret".to_string(), ..PaymentSection::default() },
        inactive_capabilities: vec![],
        capability_prompts: prompts,
        llm: Some(llm("sk-provider")),
        customer_llm: Some(llm("sk-customer")),
        encryption: None,
    }
}

#[test]
fn agent_names_are_checked() {
    assert_eq!(validate_agent_name("my-agent_01"), Ok(()));
    assert_eq!(CliError::InvalidAgentName.message(), "invalid agent name");
    assert_eq!(CliError::NotEncrypted.message(), "config is not encrypted");
    assert_eq!(validate_agent_name(""), Err(CliError::EmptyAgentName));
    assert_eq!(validate_agent_name("."), Err(CliError::InvalidAgentName));
    assert_eq!(validate_agent_name(".."), Err(CliError::InvalidAgentName));
    assert_eq!(validate_agent_name("..."), Err(CliError::InvalidAgentNameChars));
    assert_eq!(validate_agent_name("a/b"), Err(CliError::InvalidAgentNameChars));
    assert_eq!(validate_agent_name("a b"), Err(CliError::InvalidAgentNameChars));
    assert_eq!(validate_agent_name("agént"), Err(CliError::InvalidAgentNameChars));
}

#[test]
fn agent_directories_live_under_the_home() {
    assert_eq!(agent_dir_from(Some(&b"/home/u"[..]), "bot"), Ok(b"/home/u/.elisym/agents/bot".to_vec()));
    assert_eq!(agent_dir_from(Some(&b"/home/u/"[..]), "bot"), Ok(b"/home/u/.elisym/agents/bot".to_vec()));
    assert_eq!(agent_dir_from(Some(&b"/home/u"[..]), "../x"), Err(CliError::InvalidAgentNameChars));
    assert_eq!(agent_dir_from(Some(&b"/home/u"[..]), ""), Err(CliError::EmptyAgentName));
    assert_eq!(agent_dir_from(None, "bot"), Err(CliError::NoHomeDirectory));
    // A home directory that is not UTF-8 is kept as it is.
    assert_eq!(agent_dir_from(Some(&b"/home/\xff"[..]), "bot"), Ok(b"/home/\xff/.elisym/agents/bot".to_vec()));
    assert_eq!(agent_dir_from(None, "."), Err(CliError::InvalidAgentName));
    assert_eq!(config_path_from(Some(&b"/home/u"[..]), "bot"), Ok(b"/home/u/.elisym/agents/bot/config.toml".to_vec()));
    assert_eq!(config_path_from(None, "bot"), Err(CliError::NoHomeDirectory));
    assert_eq!(agents_root_from(Some(&b"/h"[..])), Ok(b"/h/.elisym/agents".to_vec()));
    assert_eq!(agents_root_from(None), Err(CliError::NoHomeDirectory));
    assert_eq!(agents_root_in(b"/home/u"), b"/home/u/.elisym/agents".to_vec());
    assert_eq!(agents_root_in(b""), b".elisym/agents".to_vec());
    assert_eq!(join_path(b"", b"a"), b"a".to_vec());
    assert_eq!(join_path(b"/r", b"config.toml"), b"/r/config.toml".to_vec());
}

#[test]
fn payment_defaults() {
    let p = PaymentSection::default();
    assert_eq!(p.chain, "solana");
    assert_eq!(p.network, "mainnet");
    assert_eq!(p.rpc_url, None);
    assert_eq!(p.job_price, 10_000_000);
    assert_eq!(p.payment_timeout_secs, 120);
    assert_eq!(p.solana_secret_key, "");
    assert_eq!(default_max_tokens(), 4096);
}

#[test]
fn solana_address_of_a_stored_key() {
    let kp = solana_sdk::signature::Keypair::new();
    let p = PaymentSection { solana_secret_key: kp.to_base58_string(), ..PaymentSection::default() };
    assert_eq!(p.solana_address(), Some(kp.pubkey().to_string()));
    let bad = PaymentSection { solana_secret_key: "not base58 0OIl".to_string(), ..PaymentSection::default() };
    assert_eq!(bad.solana_address(), None);
    let short = PaymentSection { solana_secret_key: bs58::encode([1u8; 32]).into_string(), ..PaymentSection::default() };
    assert_eq!(short.solana_address(), None);
    assert_eq!(PaymentSection::default().solana_address(), None);
}

#[test]
fn secrets_bundle_collects_the_secret_fields() {
    let c = config();
    let b: SecretsBundle = c.secrets_bundle();
    assert_eq!(b.nostr_secret_key, "nsec-secret");
    assert_eq!(b.solana_secret_key, "sol-secret");
    assert_eq!(b.llm_api_key, "sk-provider");
    assert_eq!(b.customer_llm_api_key.as_deref(), Some("sk-customer"));
    let mut d = config();
    d.llm = None;
    d.customer_llm = None;
    let b2 = d.secrets_bundle();
    assert_eq!(b2.llm_api_key, "");
    assert_eq!(b2.customer_llm_api_key, None);
}

#[test]
fn config_encrypt_then_decrypt_restores_the_secrets() {
    let mut c = config();
    assert!(!c.is_encrypted());
    assert_eq!(c.decrypt_secrets("pw"), Err(CliError::NotEncrypted));
    c.encrypt_secrets("pw").unwrap();
    assert!(c.is_encrypted());
    assert_eq!(c.secret_key, "");
    assert_eq!(c.payment.solana_secret_key, "");
    assert_eq!(c.llm.as_ref().unwrap().api_key, "");
    assert_eq!(c.customer_llm.as_ref().unwrap().api_key, "");
    assert_eq!(c.name, "bot");
    assert_eq!(c.decrypt_secrets("wrong"), Err(CliError::WrongPasswordOrCorrupted));
    assert_eq!(c.secret_key, "");
    c.decrypt_secrets("pw").unwrap();
    assert!(c.is_encrypted());
    assert_eq!(c.secret_key, "nsec-secret");
    assert_eq!(c.payment.solana_secret_key, "sol-secret");
    assert_eq!(c.llm.as_ref().unwrap().api_key, "sk-provider");
    assert_eq!(c.customer_llm.as_ref().unwrap().api_key, "sk-customer");
    assert_eq!(c.capability_prompts.get("summarize").map(|s| s.as_str()), Some("Summarize the text."));
}

#[test]
fn agent_names_sort_in_byte_order() {
    let names = vec!["beta".to_string(), "Alpha".to_string(), "alpha".to_string(), "a".to_string(), "beta".to_string()];
    let sorted = sort_agent_names(names);
    assert_eq!(sorted, vec!["Alpha", "a", "alpha", "beta", "beta"]);
    assert!(sort_agent_names(vec![]).is_empty());
    assert!(name_le_exec("a", "ab"));
    assert!(!name_le_exec("b", "ab"));
    assert!(name_le_exec("x", "x"));
}
