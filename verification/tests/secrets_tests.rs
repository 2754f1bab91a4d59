use aes_gcm::aead::{Aead, KeyInit};
use elisym_cli::cli::crypto::{decrypt_secrets, encrypt_secrets, seal_secrets, EncryptionSection, SecretsBundle};
use elisym_cli::cli::error::CliError;
use elisym_cli::cli::secrets_json::{decode_secrets_json, encode_secrets_json};

fn bundle() -> SecretsBundle {
    SecretsBundle {
        nostr_secret_key: "nsec\"quoted\\slash".to_string(),
        solana_secret_key: "sol\nline\ttab\u{1}ctl".to_string(),
        llm_api_key: "sk-ünïcödé-✓".to_string(),
        customer_llm_api_key: None,
    }
}

fn same(a: &SecretsBundle, b: &SecretsBundle) -> bool {
    a.nostr_secret_key == b.nostr_secret_key
        && a.solana_secret_key == b.solana_secret_key
        && a.llm_api_key == b.llm_api_key
        && a.customer_llm_api_key == b.customer_llm_api_key
}

#[test]
fn secrets_json_layout_matches_serde_json_escaping() {
    let b = SecretsBundle {
        nostr_secret_key: "a\"b".to_string(),
        solana_secret_key: "s".to_string(),
        llm_api_key: String::new(),
        customer_llm_api_key: Some("c\u{8}\u{c}\u{1f}/".to_string()),
    };
    let bytes = encode_secrets_json(&b);
    assert_eq!(
        String::from_utf8(bytes.clone()).unwrap(),
        "{\"nostr_secret_key\":\"a\\\"b\",\"solana_secret_key\":\"s\",\"llm_api_key\":\"\",\"customer_llm_api_key\":\"c\\b\\f\\u001f/\"}"
    );
    // The same text as serde_json writes for each string.
    assert_eq!(serde_json::to_string("c\u{8}\u{c}\u{1f}/").unwrap(), "\"c\\b\\f\\u001f/\"");
    let back = decode_secrets_json(&bytes).unwrap();
    assert!(same(&b, &back));
}

#[test]
fn secrets_json_round_trip_and_refusals() {
    let b = bundle();
    let bytes = encode_secrets_json(&b);
    assert!(bytes.ends_with(b"\"customer_llm_api_key\":null}"));
    assert!(same(&b, &decode_secrets_json(&bytes).unwrap()));
    // Refused, as serde_json refuses them for the struct: trailing bytes,
    // invalid UTF-8, a trailing comma, a member twice, a missing member, a
    // lone surrogate, a raw control byte, a number where text is due.
    let refused: [&[u8]; 9] = [
        b"{\"nostr_secret_key\":\"a\",\"solana_secret_key\":\"b\",\"llm_api_key\":\"c\",\"customer_llm_api_key\":null}x",
        b"{\"nostr_secret_key\":\"\xff\",\"solana_secret_key\":\"b\",\"llm_api_key\":\"c\"}",
        b"{\"nostr_secret_key\":\"a\",\"solana_secret_key\":\"b\",\"llm_api_key\":\"c\",}",
        b"{\"nostr_secret_key\":\"a\",\"nostr_secret_key\":\"a\",\"solana_secret_key\":\"b\",\"llm_api_key\":\"c\"}",
        b"{\"nostr_secret_key\":\"a\",\"llm_api_key\":\"c\"}",
        b"{\"nostr_secret_key\":\"\\ud800\",\"solana_secret_key\":\"b\",\"llm_api_key\":\"c\"}",
        b"{\"nostr_secret_key\":\"a\x01\",\"solana_secret_key\":\"b\",\"llm_api_key\":\"c\"}",
        b"{\"nostr_secret_key\":5,\"solana_secret_key\":\"b\",\"llm_api_key\":\"c\"}",
        b"[\"a\",\"b\",\"c\",]",
    ];
    for r in refused {
        assert!(decode_secrets_json(r).is_none());
        assert!(serde_json::from_slice::<serde_json::Value>(r).is_err() || r.starts_with(b"{\"nostr_secret_key\":\"a\",\"nostr") || r.starts_with(b"{\"nostr_secret_key\":\"a\",\"llm") || r.starts_with(b"{\"nostr_secret_key\":5"));
    }
    let ok = decode_secrets_json(b"{\"nostr_secret_key\":\"a\",\"solana_secret_key\":\"b\",\"llm_api_key\":\"c\",\"customer_llm_api_key\":\"d\"}").unwrap();
    assert_eq!(ok.customer_llm_api_key.as_deref(), Some("d"));
}

#[test]
fn encrypt_then_decrypt_gives_the_bundle_back() {
    let b = bundle();
    let section = encrypt_secrets(&b, "correct horse").unwrap();
    let back = decrypt_secrets(&section, "correct horse").unwrap();
    assert!(same(&b, &back));
    // Fresh salt and nonce each time.
    let again = encrypt_secrets(&b, "correct horse").unwrap();
    assert_ne!(section.salt, again.salt);
    assert_eq!(bs58::decode(&section.salt).into_vec().unwrap().len(), 16);
    assert_eq!(bs58::decode(&section.nonce).into_vec().unwrap().len(), 12);
}

#[test]
fn wrong_password_is_refused() {
    let section = encrypt_secrets(&bundle(), "pw1").unwrap();
    assert_eq!(decrypt_secrets(&section, "pw2").err(), Some(CliError::WrongPasswordOrCorrupted));
}

#[test]
fn sealing_is_a_function_of_password_salt_and_nonce() {
    let salt = [7u8; 16];
    let nonce = [9u8; 12];
    let a = seal_secrets(&bundle(), "pw", &salt, &nonce).unwrap();
    let b = seal_secrets(&bundle(), "pw", &salt, &nonce).unwrap();
    assert_eq!(a.ciphertext, b.ciphertext);
    assert_eq!(a.salt, bs58::encode(salt).into_string());
    assert_eq!(a.nonce, bs58::encode(nonce).into_string());
    let c = seal_secrets(&bundle(), "other", &salt, &nonce).unwrap();
    assert_ne!(a.ciphertext, c.ciphertext);
    // A salt shorter than 8 bytes is refused by Argon2.
    let e = seal_secrets(&bundle(), "pw", &[1u8; 7], &nonce).err().unwrap();
    assert!(matches!(e, CliError::KeyDerivation(_)));
    assert_eq!(e.message(), "key derivation failed: salt is too short");
    assert!(same(&decrypt_secrets(&a, "pw").unwrap(), &bundle()));
}

#[test]
fn damaged_sections_are_refused() {
    let good = encrypt_secrets(&bundle(), "pw").unwrap();
    let bad_ct = EncryptionSection { ciphertext: "0OIl".to_string(), ..good.clone() };
    let e = decrypt_secrets(&bad_ct, "pw").err().unwrap();
    assert!(matches!(e, CliError::InvalidCiphertextEncoding(_)));
    assert!(e.message().starts_with("invalid ciphertext encoding: "));
    let bad_salt = EncryptionSection { salt: "0".to_string(), ..good.clone() };
    assert!(matches!(decrypt_secrets(&bad_salt, "pw").err(), Some(CliError::InvalidSaltEncoding(_))));
    let bad_nonce = EncryptionSection { nonce: "l".to_string(), ..good.clone() };
    assert!(matches!(decrypt_secrets(&bad_nonce, "pw").err(), Some(CliError::InvalidNonceEncoding(_))));
    let short_nonce = EncryptionSection { nonce: bs58::encode([1u8; 8]).into_string(), ..good.clone() };
    assert_eq!(decrypt_secrets(&short_nonce, "pw").err(), Some(CliError::InvalidNonceLength));
    let short_salt = EncryptionSection { salt: bs58::encode([1u8; 4]).into_string(), ..good.clone() };
    assert!(matches!(decrypt_secrets(&short_salt, "pw").err(), Some(CliError::KeyDerivation(_))));
    let mut ct = bs58::decode(&good.ciphertext).into_vec().unwrap();
    ct[0] ^= 1;
    let flipped = EncryptionSection { ciphertext: bs58::encode(ct).into_string(), ..good.clone() };
    assert_eq!(decrypt_secrets(&flipped, "pw").err(), Some(CliError::WrongPasswordOrCorrupted));
}

#[test]
fn sealed_plaintext_that_is_not_a_bundle_is_malformed() {
    let salt = [3u8; 16];
    let nonce = [4u8; 12];
    let mut key = [0u8; 32];
    argon2::Argon2::default().hash_password_into(b"pw", &salt, &mut key).unwrap();
    let cipher = aes_gcm::Aes256Gcm::new(aes_gcm::Key::<aes_gcm::Aes256Gcm>::from_slice(&key));
    let ct = cipher.encrypt(aes_gcm::Nonce::from_slice(&nonce), b"not json".as_ref()).unwrap();
    let section = EncryptionSection {
        ciphertext: bs58::encode(ct).into_string(),
        salt: bs58::encode(salt).into_string(),
        nonce: bs58::encode(nonce).into_string(),
    };
    assert_eq!(decrypt_secrets(&section, "pw").err(), Some(CliError::MalformedSecrets));
}

#[test]
fn secrets_json_accepts_what_serde_json_writes_and_reads() {
    // Whitespace between tokens, as pretty-printed JSON has it.
    let pretty = b"{\n  \"nostr_secret_key\": \"a\",\n  \"solana_secret_key\": \"b\",\n  \"llm_api_key\": \"c\",\n  \"customer_llm_api_key\": \"d\"\n}\n";
    let b = decode_secrets_json(pretty).unwrap();
    assert_eq!(b.nostr_secret_key, "a");
    assert_eq!(b.customer_llm_api_key.as_deref(), Some("d"));
    // The customer key may be left out.
    let short = decode_secrets_json(b"{\"nostr_secret_key\":\"a\",\"solana_secret_key\":\"b\",\"llm_api_key\":\"c\"}").unwrap();
    assert_eq!(short.llm_api_key, "c");
    assert_eq!(short.customer_llm_api_key, None);
    // Escapes the encoder does not write: `\/`, `\u0041`, uppercase hex, `\u000a`.
    let esc = decode_secrets_json(b"{\"nostr_secret_key\":\"\\/\\u0041\\u001F\\u000a\",\"solana_secret_key\":\"b\",\"llm_api_key\":\"c\",\"customer_llm_api_key\":null}").unwrap();
    assert_eq!(esc.nostr_secret_key, "/A\u{1f}\n");
    // serde_json reads the same bytes the same way.
    let v: serde_json::Value = serde_json::from_slice(pretty).unwrap();
    assert_eq!(v["customer_llm_api_key"], "d");
    // Any member order, unknown members of any kind, escapes beyond ASCII.
    let mixed = b"{\"llm_api_key\":\"c\",\"extra\":{\"k\":[1,-2.5e+3,true,null,\"\\ud83d\\ude00\"]},\"solana_secret_key\":\"b\",\"nostr_secret_key\":\"\\u00e9\\ud83d\\ude00\"}";
    let m = decode_secrets_json(mixed).unwrap();
    assert_eq!(m.nostr_secret_key, "\u{e9}\u{1f600}");
    assert_eq!(m.solana_secret_key, "b");
    assert_eq!(m.customer_llm_api_key, None);
    let mv: serde_json::Value = serde_json::from_slice(mixed).unwrap();
    assert_eq!(mv["nostr_secret_key"], m.nostr_secret_key.as_str());
    // The struct may also be written as an array of its members.
    let arr = decode_secrets_json(b" [\"a\", \"b\", \"c\", null] ").unwrap();
    assert_eq!(arr.llm_api_key, "c");
    assert_eq!(arr.customer_llm_api_key, None);
    let arr2 = decode_secrets_json(b"[\"a\",\"b\",\"c\",\"d\"]").unwrap();
    assert_eq!(arr2.customer_llm_api_key.as_deref(), Some("d"));
    let arr3 = decode_secrets_json(b"[\"a\",\"b\",\"c\"]").unwrap();
    assert_eq!(arr3.customer_llm_api_key, None);
}
