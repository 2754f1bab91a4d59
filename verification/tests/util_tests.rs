use elisym_cli::cli::protocol::{nonce_from_keypair_bytes, random_nonce, HeartbeatMessage};
use elisym_cli::util::{
    byte_prefix, decimal_string, format_sol_compact, pad_left_string, push_decimal,
    push_repeated, utf8_length, LAMPORTS_PER_SOL,
};

#[test]
fn sol_amounts_are_written_compactly() {
    assert_eq!(format_sol_compact(0), "0");
    assert_eq!(format_sol_compact(LAMPORTS_PER_SOL), "1");
    assert_eq!(format_sol_compact(1_500_000_000), "1.5");
    assert_eq!(format_sol_compact(10_000_000), "0.01");
    assert_eq!(format_sol_compact(123), "0.000000123");
    assert_eq!(format_sol_compact(9_700_000), "0.0097");
    assert_eq!(format_sol_compact(u64::MAX), "18446744073.709551615");
}

#[test]
fn decimals_and_padding() {
    assert_eq!(decimal_string(0), "0");
    assert_eq!(decimal_string(4096), "4096");
    assert_eq!(decimal_string(u64::MAX), "18446744073709551615");
    let mut s = "n=".to_string();
    push_decimal(&mut s, 42);
    assert_eq!(s, "n=42");
    let mut t = String::new();
    push_repeated(&mut t, "-", 3);
    assert_eq!(t, "---");
    assert_eq!(pad_left_string("7", 3, "0"), "007");
    assert_eq!(pad_left_string("1234", 3, "0"), "1234");
    assert_eq!(pad_left_string("é", 3, " "), "  é");
}

#[test]
fn byte_prefixes() {
    assert_eq!(utf8_length("héllo"), 6);
    assert_eq!(byte_prefix("abcdef", 3), "abc");
    assert_eq!(byte_prefix("ab", 12), "ab");
    assert_eq!(byte_prefix("héllo", 3), "hé");
}

#[test]
fn heartbeats() {
    let p = HeartbeatMessage::ping("n1".to_string());
    assert_eq!(p.msg_type, "elisym_ping");
    assert_eq!(p.nonce, "n1");
    assert!(p.is_ping());
    assert!(!p.is_pong());
    let q = HeartbeatMessage::pong(p.nonce.clone());
    assert_eq!(q.msg_type, "elisym_pong");
    assert!(q.is_pong());
    assert!(!q.is_ping());
}

#[test]
fn nonces_are_base58_of_sixteen_random_bytes() {
    let bytes: Vec<u8> = (0u8..64).collect();
    assert_eq!(nonce_from_keypair_bytes(&bytes), bs58::encode(&bytes[..16]).into_string());
    let a = random_nonce().unwrap();
    let b = random_nonce().unwrap();
    assert_eq!(bs58::decode(&a).into_vec().unwrap().len(), 16);
    assert_ne!(a, b);
}
