//! The plaintext layout of a secrets bundle before encryption, in JSON.
//!
//! Encoding writes one compact object with the four members in a fixed
//! order, strings escaped the way `serde_json` writes them. Decoding reads
//! what `serde_json::from_slice` reads into the bundle's struct: an object
//! with its members in any order (unknown ones skipped, none twice, the
//! customer key optional) or an array of the members; decoding an encoding
//! gives the bundle back.
use vstd::prelude::*;
use vstd::utf8::*;

use super::crypto::{SecretsBundle, SecretsView};

verus! {

// ---------------------------------------------------------------------------
// Escaping of string contents, byte by byte.
// ---------------------------------------------------------------------------
pub open spec fn quote_byte() -> u8 {
    0x22u8
}

/// Lowercase hexadecimal digit for a value below 16.
pub open spec fn hex_digit(d: int) -> u8 {
    if d < 10 {
        (0x30 + d) as u8
    } else {
        (0x61 + d - 10) as u8
    }
}

/// A hexadecimal digit, in either case.
pub open spec fn is_hex(b: u8) -> bool {
    (0x30 <= b && b <= 0x39) || (0x61 <= b && b <= 0x66) || (0x41 <= b && b <= 0x46)
}

pub open spec fn hex_value(b: u8) -> int {
    if b <= 0x39 {
        b - 0x30
    } else if b <= 0x46 {
        b - 0x41 + 10
    } else {
        b - 0x61 + 10
    }
}

/// The control bytes that have a two-character escape.
pub open spec fn has_short_escape(b: u8) -> bool {
    b == 0x08 || b == 0x09 || b == 0x0a || b == 0x0c || b == 0x0d
}

/// How one byte of a string is written inside a JSON string literal.
pub open spec fn escape_byte(b: u8) -> Seq<u8> {
    if b == 0x22 {
        seq![0x5cu8, 0x22u8]
    } else if b == 0x5c {
        seq![0x5cu8, 0x5cu8]
    } else if b == 0x08 {
        seq![0x5cu8, 0x62u8]
    } else if b == 0x0c {
        seq![0x5cu8, 0x66u8]
    } else if b == 0x0a {
        seq![0x5cu8, 0x6eu8]
    } else if b == 0x0d {
        seq![0x5cu8, 0x72u8]
    } else if b == 0x09 {
        seq![0x5cu8, 0x74u8]
    } else if b < 0x20 {
        seq![0x5cu8, 0x75u8, 0x30u8, 0x30u8, hex_digit((b / 16) as int), hex_digit((b % 16) as int)]
    } else {
        seq![b]
    }
}

/// The escaped form of a whole byte string.
pub open spec fn escape_bytes(s: Seq<u8>) -> Seq<u8>
    decreases s.len(),
{
    if s.len() == 0 {
        Seq::empty()
    } else {
        escape_byte(s[0]) + escape_bytes(s.drop_first())
    }
}

/// A JSON string literal holding `s`.
#[verifier::opaque]
pub open spec fn json_string(s: Seq<u8>) -> Seq<u8> {
    seq![quote_byte()] + escape_bytes(s) + seq![quote_byte()]
}

/// The value of four hexadecimal digits at the front of `s`.
pub open spec fn hex4(s: Seq<u8>) -> Option<int> {
    if s.len() >= 4 && is_hex(s[0]) && is_hex(s[1]) && is_hex(s[2]) && is_hex(s[3]) {
        Some(hex_value(s[0]) * 4096 + hex_value(s[1]) * 256 + hex_value(s[2]) * 16 + hex_value(s[3]))
    } else {
        None
    }
}

pub open spec fn is_low_surrogate(n: int) -> bool {
    0xDC00 <= n <= 0xDFFF
}

pub open spec fn is_high_surrogate(n: int) -> bool {
    0xD800 <= n <= 0xDBFF
}

/// The code point a surrogate pair stands for.
pub open spec fn pair_code_point(hi: int, lo: int) -> int {
    (hi - 0xD800) * 1024 + (lo - 0xDC00) + 0x10000
}

/// Reads one content unit of a string that is read as text, as serde_json
/// does: a raw byte, or an escape (`\"`, `\\`, `\/`, `\b`, `\f`, `\n`,
/// `\r`, `\t`, or `\u` with four hexadecimal digits, a leading surrogate
/// followed by `\u` and a trailing one). Gives its UTF-8 bytes and how many
/// bytes it took; `None` at a closing quote, a raw control byte, an unknown
/// escape or a surrogate that is not paired.
#[verifier::opaque]
pub open spec fn unescape_one(s: Seq<u8>) -> Option<(Seq<u8>, int)> {
    if s.len() == 0 {
        None
    } else if s[0] == 0x5c {
        if s.len() < 2 {
            None
        } else if s[1] == 0x22 {
            Some((seq![0x22u8], 2))
        } else if s[1] == 0x5c {
            Some((seq![0x5cu8], 2))
        } else if s[1] == 0x62 {
            Some((seq![0x08u8], 2))
        } else if s[1] == 0x66 {
            Some((seq![0x0cu8], 2))
        } else if s[1] == 0x6e {
            Some((seq![0x0au8], 2))
        } else if s[1] == 0x72 {
            Some((seq![0x0du8], 2))
        } else if s[1] == 0x74 {
            Some((seq![0x09u8], 2))
        } else if s[1] == 0x2f {
            Some((seq![0x2fu8], 2))
        } else if s[1] == 0x75 {
            match hex4(s.skip(2)) {
                None => None,
                Some(n) => if is_low_surrogate(n) {
                    None
                } else if !is_high_surrogate(n) {
                    Some((encode_scalar(n as u32), 6))
                } else if s.len() >= 8 && s[6] == 0x5c && s[7] == 0x75 {
                    match hex4(s.skip(8)) {
                        Some(n2) => if is_low_surrogate(n2) {
                            Some((encode_scalar(pair_code_point(n, n2) as u32), 12))
                        } else {
                            None
                        },
                        None => None,
                    }
                } else {
                    None
                },
            }
        } else {
            None
        }
    } else if s[0] < 0x20 || s[0] == 0x22 {
        None
    } else {
        Some((seq![s[0]], 1))
    }
}

/// Prepends decoded bytes to the outcome of decoding the rest of a string.
pub open spec fn prepend_decoded(prefix: Seq<u8>, r: Option<(Seq<u8>, Seq<u8>)>) -> Option<
    (Seq<u8>, Seq<u8>),
> {
    match r {
        None => None,
        Some((v, rest)) => Some((prefix + v, rest)),
    }
}

proof fn lemma_prepend_twice(a: Seq<u8>, b: Seq<u8>, r: Option<(Seq<u8>, Seq<u8>)>)
    ensures
        prepend_decoded(a, prepend_decoded(b, r)) == prepend_decoded(a + b, r),
{
    if let Some((v, rest)) = r {
        assert(a + (b + v) =~= (a + b) + v);
    }
}

/// Decodes string contents up to the closing quote; gives the contents and
/// what follows the quote.
pub open spec fn parse_string_body(s: Seq<u8>) -> Option<(Seq<u8>, Seq<u8>)>
    decreases s.len(),
{
    if s.len() == 0 {
        None
    } else if s[0] == 0x22 {
        Some((Seq::empty(), s.drop_first()))
    } else {
        match unescape_one(s) {
            None => None,
            Some((b, n)) => if 0 < n <= s.len() {
                prepend_decoded(b, parse_string_body(s.skip(n)))
            } else {
                None
            },
        }
    }
}

/// Decodes a JSON string literal at the front of `s`.
#[verifier::opaque]
pub open spec fn parse_json_string(s: Seq<u8>) -> Option<(Seq<u8>, Seq<u8>)> {
    if s.len() > 0 && s[0] == 0x22 {
        parse_string_body(s.drop_first())
    } else {
        None
    }
}

proof fn lemma_unescape_escape_byte(b: u8, rest: Seq<u8>)
    ensures
        unescape_one(escape_byte(b) + rest) == Some((seq![b], escape_byte(b).len() as int)),
        escape_byte(b).len() > 0,
        escape_byte(b)[0] != 0x22,
{
    reveal(unescape_one);
    let s = escape_byte(b) + rest;
    if b == 0x22 || b == 0x5c || has_short_escape(b) {
        assert(s[0] == 0x5c && s[1] == escape_byte(b)[1]);
    } else if b < 0x20 {
        assert(s[0] == 0x5c && s[1] == 0x75 && s[2] == 0x30 && s[3] == 0x30);
        assert(s[4] == hex_digit((b / 16) as int) && s[5] == hex_digit((b % 16) as int));
        assert(b / 16 == 0 || b / 16 == 1);
        assert(hex_value(hex_digit((b % 16) as int)) == b % 16);
        assert(s.skip(2)[0] == s[2] && s.skip(2)[1] == s[3] && s.skip(2)[2] == s[4]
            && s.skip(2)[3] == s[5]);
        assert(hex4(s.skip(2)) == Some(b as int));
        let n = b as u32;
        assert(n <= 0x7f ==> (n & 0x7f) as u8 == n as u8) by (bit_vector);
        assert(encode_scalar(b as u32) =~= seq![b]);
    } else {
        assert(s[0] == b);
    }
}

proof fn lemma_escape_bytes_first(v: Seq<u8>)
    requires
        v.len() > 0,
    ensures
        escape_bytes(v) == escape_byte(v[0]) + escape_bytes(v.drop_first()),
{
}

/// Decoding a string literal gives back what was encoded, and leaves what
/// follows untouched.
pub proof fn lemma_parse_string_body_complete(v: Seq<u8>, rest: Seq<u8>)
    ensures
        parse_string_body(escape_bytes(v) + seq![quote_byte()] + rest) == Some((v, rest)),
    decreases v.len(),
{
    let s = escape_bytes(v) + seq![quote_byte()] + rest;
    if v.len() == 0 {
        assert(escape_bytes(v) =~= Seq::<u8>::empty());
        assert(s =~= seq![quote_byte()] + rest);
        assert(s.drop_first() =~= rest);
    } else {
        let tail = escape_bytes(v.drop_first()) + seq![quote_byte()] + rest;
        lemma_escape_bytes_first(v);
        assert(s =~= escape_byte(v[0]) + tail);
        lemma_unescape_escape_byte(v[0], tail);
        let n = escape_byte(v[0]).len() as int;
        assert(s[0] == escape_byte(v[0])[0]);
        assert(s.skip(n) =~= tail);
        lemma_parse_string_body_complete(v.drop_first(), rest);
        assert(seq![v[0]] + v.drop_first() =~= v);
    }
}

pub proof fn lemma_parse_json_string_complete(v: Seq<u8>, rest: Seq<u8>)
    ensures
        parse_json_string(json_string(v) + rest) == Some((v, rest)),
{
    reveal(json_string);
    reveal(parse_json_string);
    let s = json_string(v) + rest;
    assert(s[0] == quote_byte());
    assert(s.drop_first() =~= escape_bytes(v) + seq![quote_byte()] + rest);
    lemma_parse_string_body_complete(v, rest);
}

// ---------------------------------------------------------------------------
// The whole object.
// ---------------------------------------------------------------------------
/// The four members of a bundle as byte strings.
pub struct SecretsBytes {
    pub nostr: Seq<u8>,
    pub solana: Seq<u8>,
    pub llm: Seq<u8>,
    pub customer: Option<Seq<u8>>,
}

/// The member name `nostr_secret_key`.
pub open spec fn field_nostr() -> Seq<u8> {
    seq![0x6eu8, 0x6fu8, 0x73u8, 0x74u8, 0x72u8, 0x5fu8, 0x73u8, 0x65u8, 0x63u8, 0x72u8, 0x65u8, 0x74u8, 0x5fu8, 0x6bu8, 0x65u8, 0x79u8]
}

/// The member name `nostr_secret_key` as a JSON string.
pub open spec fn name_nostr() -> Seq<u8> {
    seq![0x22u8] + field_nostr() + seq![0x22u8]
}

/// The member name `solana_secret_key`.
pub open spec fn field_solana() -> Seq<u8> {
    seq![0x73u8, 0x6fu8, 0x6cu8, 0x61u8, 0x6eu8, 0x61u8, 0x5fu8, 0x73u8, 0x65u8, 0x63u8, 0x72u8, 0x65u8, 0x74u8, 0x5fu8, 0x6bu8, 0x65u8, 0x79u8]
}

/// The member name `solana_secret_key` as a JSON string.
pub open spec fn name_solana() -> Seq<u8> {
    seq![0x22u8] + field_solana() + seq![0x22u8]
}

/// The member name `llm_api_key`.
pub open spec fn field_llm() -> Seq<u8> {
    seq![0x6cu8, 0x6cu8, 0x6du8, 0x5fu8, 0x61u8, 0x70u8, 0x69u8, 0x5fu8, 0x6bu8, 0x65u8, 0x79u8]
}

/// The member name `llm_api_key` as a JSON string.
pub open spec fn name_llm() -> Seq<u8> {
    seq![0x22u8] + field_llm() + seq![0x22u8]
}

/// The member name `customer_llm_api_key`.
pub open spec fn field_customer() -> Seq<u8> {
    seq![0x63u8, 0x75u8, 0x73u8, 0x74u8, 0x6fu8, 0x6du8, 0x65u8, 0x72u8, 0x5fu8, 0x6cu8, 0x6cu8, 0x6du8, 0x5fu8, 0x61u8, 0x70u8, 0x69u8, 0x5fu8, 0x6bu8, 0x65u8, 0x79u8]
}

/// The member name `customer_llm_api_key` as a JSON string.
pub open spec fn name_customer() -> Seq<u8> {
    seq![0x22u8] + field_customer() + seq![0x22u8]
}

pub open spec fn open_brace() -> Seq<u8> {
    seq![0x7bu8]
}

pub open spec fn colon() -> Seq<u8> {
    seq![0x3au8]
}

pub open spec fn comma() -> Seq<u8> {
    seq![0x2cu8]
}

pub open spec fn key_nostr() -> Seq<u8> {
    open_brace() + name_nostr() + colon()
}

pub open spec fn key_solana() -> Seq<u8> {
    comma() + name_solana() + colon()
}

pub open spec fn key_llm() -> Seq<u8> {
    comma() + name_llm() + colon()
}

pub open spec fn key_customer() -> Seq<u8> {
    comma() + name_customer() + colon()
}

pub open spec fn null_bytes() -> Seq<u8> {
    seq![0x6eu8, 0x75u8, 0x6cu8, 0x6cu8]
}

pub open spec fn close_brace() -> Seq<u8> {
    seq![0x7du8]
}

#[verifier::opaque]
pub open spec fn customer_bytes(c: Option<Seq<u8>>) -> Seq<u8> {
    match c {
        None => null_bytes(),
        Some(v) => json_string(v),
    }
}

/// The encoding of a bundle given by its members' bytes.
pub open spec fn encode_bundle_bytes(b: SecretsBytes) -> Seq<u8> {
    key_nostr() + (json_string(b.nostr) + (key_solana() + (json_string(b.solana) + (key_llm() + (
    json_string(b.llm) + (key_customer() + (customer_bytes(b.customer) + close_brace())))))))
}

pub open spec fn option_utf8(c: Option<Seq<char>>) -> Option<Seq<u8>> {
    match c {
        None => None,
        Some(v) => Some(encode_utf8(v)),
    }
}

/// The members of a bundle in UTF-8.
pub open spec fn bundle_bytes_of(v: SecretsView) -> SecretsBytes {
    SecretsBytes {
        nostr: encode_utf8(v.nostr_secret_key),
        solana: encode_utf8(v.solana_secret_key),
        llm: encode_utf8(v.llm_api_key),
        customer: option_utf8(v.customer_llm_api_key),
    }
}

/// The plaintext that a bundle is encrypted as.
pub open spec fn encode_secrets(v: SecretsView) -> Seq<u8> {
    encode_bundle_bytes(bundle_bytes_of(v))
}

#[verifier::opaque]
pub open spec fn parse_literal(s: Seq<u8>, lit: Seq<u8>) -> Option<Seq<u8>> {
    if lit.len() <= s.len() && s.take(lit.len() as int) == lit {
        Some(s.skip(lit.len() as int))
    } else {
        None
    }
}

#[verifier::opaque]
pub open spec fn parse_customer(s: Seq<u8>) -> Option<(Option<Seq<u8>>, Seq<u8>)> {
    if s.len() > 0 && s[0] == 0x22 {
        match parse_json_string(s) {
            Some((v, rest)) => Some((Some(v), rest)),
            None => None,
        }
    } else {
        match parse_literal(s, null_bytes()) {
            Some(rest) => Some((None, rest)),
            None => None,
        }
    }
}

/// JSON whitespace: space, tab, line feed, carriage return.
pub open spec fn is_ws(b: u8) -> bool {
    b == 0x20 || b == 0x09 || b == 0x0a || b == 0x0d
}

/// `s` without its leading whitespace.
pub open spec fn skip_ws(s: Seq<u8>) -> Seq<u8>
    decreases s.len(),
{
    if s.len() > 0 && is_ws(s[0]) {
        skip_ws(s.drop_first())
    } else {
        s
    }
}

/// Whether only whitespace is left.
pub open spec fn at_end(s: Seq<u8>) -> bool {
    skip_ws(s).len() == 0
}

pub open spec fn is_digit(b: u8) -> bool {
    0x30 <= b <= 0x39
}

/// The number of ASCII digits at the front of `s`.
pub open spec fn digits_len(s: Seq<u8>) -> nat
    decreases s.len(),
{
    if s.len() > 0 && is_digit(s[0]) {
        1 + digits_len(s.drop_first())
    } else {
        0
    }
}

/// The end of a number whose integer part ends at `j`: an optional fraction
/// and an optional exponent, each with at least one digit.
pub open spec fn number_tail(s: Seq<u8>, j: int) -> Option<int> {
    let f: Option<int> = if 0 <= j < s.len() && s[j] == 0x2e {
        let d = digits_len(s.skip(j + 1));
        if d == 0 {
            None
        } else {
            Some(j + 1 + d)
        }
    } else {
        Some(j)
    };
    match f {
        None => None,
        Some(k) => if 0 <= k < s.len() && (s[k] == 0x65 || s[k] == 0x45) {
            let m = if k + 1 < s.len() && (s[k + 1] == 0x2b || s[k + 1] == 0x2d) {
                k + 2
            } else {
                k + 1
            };
            let d = digits_len(s.skip(m));
            if d == 0 {
                None
            } else {
                Some(m + d)
            }
        } else {
            Some(k)
        },
    }
}

/// The length of the JSON number at the front of `s`: an optional minus,
/// then `0` (not followed by a digit) or a nonzero digit and more digits,
/// then the tail.
pub open spec fn number_len(s: Seq<u8>) -> Option<int> {
    let a: int = if s.len() > 0 && s[0] == 0x2d {
        1
    } else {
        0
    };
    if a >= s.len() {
        None
    } else if s[a] == 0x30 {
        if a + 1 < s.len() && is_digit(s[a + 1]) {
            None
        } else {
            number_tail(s, a + 1)
        }
    } else if is_digit(s[a]) {
        number_tail(s, a + 1 + digits_len(s.skip(a + 1)))
    } else {
        None
    }
}

pub open spec fn plus_opt(k: int, r: Option<int>) -> Option<int> {
    match r {
        None => None,
        Some(n) => Some(k + n),
    }
}

pub open spec fn is_simple_escape(b: u8) -> bool {
    b == 0x22 || b == 0x5c || b == 0x2f || b == 0x62 || b == 0x66 || b == 0x6e || b == 0x72 || b
        == 0x74
}

/// The length, closing quote included, of the contents of a string that is
/// skipped: raw bytes other than control bytes, and escapes (simple ones or
/// `\u` with four hexadecimal digits, surrogates unchecked).
pub open spec fn skip_str_len(s: Seq<u8>) -> Option<int>
    decreases s.len(),
{
    if s.len() == 0 {
        None
    } else if s[0] == 0x22 {
        Some(1)
    } else if s[0] == 0x5c {
        if s.len() >= 2 && is_simple_escape(s[1]) {
            plus_opt(2, skip_str_len(s.skip(2)))
        } else if s.len() >= 6 && s[1] == 0x75 && hex4(s.skip(2)) is Some {
            plus_opt(6, skip_str_len(s.skip(6)))
        } else {
            None
        }
    } else if s[0] < 0x20 {
        None
    } else {
        plus_opt(1, skip_str_len(s.drop_first()))
    }
}

pub open spec fn true_bytes() -> Seq<u8> {
    seq![0x74u8, 0x72u8, 0x75u8, 0x65u8]
}

pub open spec fn false_bytes() -> Seq<u8> {
    seq![0x66u8, 0x61u8, 0x6cu8, 0x73u8, 0x65u8]
}

/// The length of the scalar value (literal, number or string) at the front
/// of `s`.
pub open spec fn scalar_len(s: Seq<u8>) -> Option<int> {
    if s.len() == 0 {
        None
    } else if s[0] == 0x6e {
        if parse_literal(s, null_bytes()) is Some { Some(4) } else { None }
    } else if s[0] == 0x74 {
        if parse_literal(s, true_bytes()) is Some { Some(4) } else { None }
    } else if s[0] == 0x66 {
        if parse_literal(s, false_bytes()) is Some { Some(5) } else { None }
    } else if s[0] == 0x2d || is_digit(s[0]) {
        number_len(s)
    } else if s[0] == 0x22 {
        plus_opt(1, skip_str_len(s.drop_first()))
    } else {
        None
    }
}

/// Where the skipping of a value stands.
pub enum SkipMode {
    /// A value is expected.
    Value,
    /// An array or object was just opened.
    Opened,
    /// An object member's name is expected.
    Key,
    /// The colon after a member's name is expected.
    Colon,
    /// A value has ended.
    After,
}

pub open spec fn skip_rank(m: SkipMode) -> int {
    if m is Opened {
        1
    } else {
        0
    }
}

pub open spec fn closes(b: u8, frame: u8) -> bool {
    (b == 0x5d && frame == 0x5b) || (b == 0x7d && frame == 0x7b)
}

/// Skips a JSON value as serde_json does for a member it does not know, with
/// `stack` holding the arrays (`[`) and objects (`{`) open around the
/// position; gives what follows the value. Whitespace is skipped between
/// tokens but not after the value.
pub open spec fn skip_value_from(s: Seq<u8>, stack: Seq<u8>, mode: SkipMode) -> Option<Seq<u8>>
    decreases s.len(), skip_rank(mode),
{
    if mode is After && stack.len() == 0 {
        Some(s)
    } else if s.len() == 0 {
        None
    } else if is_ws(s[0]) {
        skip_value_from(s.drop_first(), stack, mode)
    } else {
        match mode {
            SkipMode::Value => if s[0] == 0x5b || s[0] == 0x7b {
                skip_value_from(s.drop_first(), stack.push(s[0]), SkipMode::Opened)
            } else {
                match scalar_len(s) {
                    Some(k) => if 0 < k <= s.len() {
                        skip_value_from(s.skip(k), stack, SkipMode::After)
                    } else {
                        None
                    },
                    None => None,
                }
            },
            SkipMode::Opened => if stack.len() > 0 && closes(s[0], stack.last()) {
                skip_value_from(s.drop_first(), stack.drop_last(), SkipMode::After)
            } else if stack.len() > 0 && stack.last() == 0x5b {
                skip_value_from(s, stack, SkipMode::Value)
            } else {
                skip_value_from(s, stack, SkipMode::Key)
            },
            SkipMode::Key => if s[0] == 0x22 {
                match skip_str_len(s.drop_first()) {
                    Some(k) => if 0 < k < s.len() {
                        skip_value_from(s.skip(k + 1), stack, SkipMode::Colon)
                    } else {
                        None
                    },
                    None => None,
                }
            } else {
                None
            },
            SkipMode::Colon => if s[0] == 0x3a {
                skip_value_from(s.drop_first(), stack, SkipMode::Value)
            } else {
                None
            },
            SkipMode::After => if s[0] == 0x2c {
                skip_value_from(
                    s.drop_first(),
                    stack,
                    if stack.last() == 0x5b {
                        SkipMode::Value
                    } else {
                        SkipMode::Key
                    },
                )
            } else if closes(s[0], stack.last()) {
                skip_value_from(s.drop_first(), stack.drop_last(), SkipMode::After)
            } else {
                None
            },
        }
    }
}

/// The known members read so far.
pub struct Fields {
    pub nostr: Option<Seq<u8>>,
    pub solana: Option<Seq<u8>>,
    pub llm: Option<Seq<u8>>,
    pub customer: Option<Option<Seq<u8>>>,
}

pub open spec fn no_fields() -> Fields {
    Fields { nostr: None, solana: None, llm: None, customer: None }
}

/// A string value read as text, after optional whitespace.
pub open spec fn text_value(s: Seq<u8>) -> Option<(Seq<u8>, Seq<u8>)> {
    parse_json_string(skip_ws(s))
}

/// The member whose name starts `s`: its name, a colon and its value. A
/// known member may not come twice and must hold text (`null` too for the
/// customer key); another member's name must be UTF-8 and its value is
/// skipped. Gives the fields after it and what follows its value.
pub open spec fn member_after(s: Seq<u8>, f: Fields) -> Option<(Fields, Seq<u8>)> {
    match parse_json_string(s) {
        None => None,
        Some((k, r1)) => {
            let r2 = skip_ws(r1);
            if !(r2.len() > 0 && r2[0] == 0x3a) {
                None
            } else {
                let r3 = r2.drop_first();
                if k == field_nostr() {
                    if f.nostr is Some {
                        None
                    } else {
                        match text_value(r3) {
                            Some((v, r)) => Some((Fields { nostr: Some(v), ..f }, r)),
                            None => None,
                        }
                    }
                } else if k == field_solana() {
                    if f.solana is Some {
                        None
                    } else {
                        match text_value(r3) {
                            Some((v, r)) => Some((Fields { solana: Some(v), ..f }, r)),
                            None => None,
                        }
                    }
                } else if k == field_llm() {
                    if f.llm is Some {
                        None
                    } else {
                        match text_value(r3) {
                            Some((v, r)) => Some((Fields { llm: Some(v), ..f }, r)),
                            None => None,
                        }
                    }
                } else if k == field_customer() {
                    if f.customer is Some {
                        None
                    } else {
                        match parse_customer(skip_ws(r3)) {
                            Some((c, r)) => Some((Fields { customer: Some(c), ..f }, r)),
                            None => None,
                        }
                    }
                } else if !valid_utf8(k) {
                    None
                } else {
                    match skip_value_from(r3, Seq::empty(), SkipMode::Value) {
                        Some(r) => Some((f, r)),
                        None => None,
                    }
                }
            }
        },
    }
}

/// The bundle once the object is closed: the three keys are required, the
/// customer key is optional, and only whitespace may follow.
pub open spec fn finish_fields(f: Fields, rest: Seq<u8>) -> Option<SecretsBytes> {
    match (f.nostr, f.solana, f.llm) {
        (Some(nostr), Some(solana), Some(llm)) => if at_end(rest) {
            Some(
                SecretsBytes {
                    nostr,
                    solana,
                    llm,
                    customer: match f.customer {
                        Some(c) => c,
                        None => None,
                    },
                },
            )
        } else {
            None
        },
        _ => None,
    }
}

/// Where the reading of the object's members stands.
pub enum MapMode {
    /// Just after the opening brace.
    Opened,
    /// After a comma: a member is expected.
    Key,
    /// After a member.
    After,
}

/// Reads the members of the object, in any order, as serde_json does for
/// the bundle's struct.
pub open spec fn members_from(s: Seq<u8>, f: Fields, mode: MapMode) -> Option<SecretsBytes>
    decreases s.len(),
{
    if s.len() == 0 {
        None
    } else if is_ws(s[0]) {
        members_from(s.drop_first(), f, mode)
    } else if s[0] == 0x7d && !(mode is Key) {
        finish_fields(f, s.drop_first())
    } else if s[0] == 0x2c && mode is After {
        members_from(s.drop_first(), f, MapMode::Key)
    } else if s[0] == 0x22 && !(mode is After) {
        match member_after(s, f) {
            Some((g, r)) => if r.len() < s.len() {
                members_from(r, g, MapMode::After)
            } else {
                None
            },
            None => None,
        }
    } else {
        None
    }
}

/// Reads the bundle written as an array of its members in order, the
/// customer key optional.
pub open spec fn elements_from(s: Seq<u8>) -> Option<SecretsBytes> {
    match text_value(s) {
        None => None,
        Some((nostr, r1)) => match parse_token(r1, comma()) {
            None => None,
            Some(r2) => match text_value(r2) {
                None => None,
                Some((solana, r3)) => match parse_token(r3, comma()) {
                    None => None,
                    Some(r4) => match text_value(r4) {
                        None => None,
                        Some((llm, r5)) => {
                            let t = skip_ws(r5);
                            if t.len() > 0 && t[0] == 0x5d {
                                if at_end(t.drop_first()) {
                                    Some(SecretsBytes { nostr, solana, llm, customer: None })
                                } else {
                                    None
                                }
                            } else if t.len() > 0 && t[0] == 0x2c {
                                match parse_customer(skip_ws(t.drop_first())) {
                                    None => None,
                                    Some((customer, r6)) => {
                                        let t2 = skip_ws(r6);
                                        if t2.len() > 0 && t2[0] == 0x5d && at_end(t2.drop_first()) {
                                            Some(SecretsBytes { nostr, solana, llm, customer })
                                        } else {
                                            None
                                        }
                                    },
                                }
                            } else {
                                None
                            }
                        },
                    },
                },
            },
        },
    }
}

/// Reads the token `t` after optional whitespace.
pub open spec fn parse_token(s: Seq<u8>, t: Seq<u8>) -> Option<Seq<u8>> {
    parse_literal(skip_ws(s), t)
}

/// Reads the members of a bundle as `serde_json::from_slice` does for its
/// struct: an object with the members in any order (unknown members skipped,
/// none twice, the customer key optional) or an array of them in order;
/// whitespace between tokens and around the value.
pub open spec fn parse_bundle_bytes(s: Seq<u8>) -> Option<SecretsBytes> {
    let t = skip_ws(s);
    if t.len() > 0 && t[0] == 0x7b {
        members_from(t.drop_first(), no_fields(), MapMode::Opened)
    } else if t.len() > 0 && t[0] == 0x5b {
        elements_from(t.drop_first())
    } else {
        None
    }
}

/// The bundle a plaintext holds, if it is one: its members read and valid
/// UTF-8.
pub open spec fn parse_secrets(bytes: Seq<u8>) -> Option<SecretsView> {
    match parse_bundle_bytes(bytes) {
        None => None,
        Some(b) => if valid_utf8(b.nostr) && valid_utf8(b.solana) && valid_utf8(b.llm) && (
        b.customer matches Some(c) ==> valid_utf8(c)) {
            Some(
                SecretsView {
                    nostr_secret_key: decode_utf8(b.nostr),
                    solana_secret_key: decode_utf8(b.solana),
                    llm_api_key: decode_utf8(b.llm),
                    customer_llm_api_key: match b.customer {
                        Some(c) => Some(decode_utf8(c)),
                        None => None,
                    },
                },
            )
        } else {
            None
        },
    }
}

proof fn lemma_skip_ws_none(s: Seq<u8>)
    requires
        s.len() == 0 || !is_ws(s[0]),
    ensures
        skip_ws(s) == s,
{
}

proof fn lemma_parse_literal_complete(lit: Seq<u8>, rest: Seq<u8>)
    ensures
        parse_literal(lit + rest, lit) == Some(rest),
{
    reveal(parse_literal);
    assert((lit + rest).take(lit.len() as int) =~= lit);
    assert((lit + rest).skip(lit.len() as int) =~= rest);
}

proof fn lemma_parse_customer_complete(c: Option<Seq<u8>>, rest: Seq<u8>)
    ensures
        parse_customer(customer_bytes(c) + rest) == Some((c, rest)),
{
    reveal(parse_customer);
    reveal(customer_bytes);
    reveal(json_string);
    match c {
        None => {
            assert((null_bytes() + rest)[0] == 0x6eu8);
            lemma_parse_literal_complete(null_bytes(), rest);
        },
        Some(v) => {
            assert((json_string(v) + rest)[0] == 0x22u8);
            lemma_parse_json_string_complete(v, rest);
        },
    }
}

pub open spec fn plain_byte(b: u8) -> bool {
    0x20 <= b < 0x7f && b != 0x22 && b != 0x5c
}

proof fn lemma_escape_plain(v: Seq<u8>)
    requires
        forall|i: int| 0 <= i < v.len() ==> plain_byte(#[trigger] v[i]),
    ensures
        escape_bytes(v) == v,
    decreases v.len(),
{
    if v.len() == 0 {
        assert(escape_bytes(v) =~= v);
    } else {
        assert forall|i: int| 0 <= i < v.drop_first().len() implies plain_byte(
            #[trigger] v.drop_first()[i],
        ) by {
            assert(v.drop_first()[i] == v[i + 1]);
        }
        lemma_escape_plain(v.drop_first());
        lemma_escape_bytes_first(v);
        assert(plain_byte(v[0]));
        assert(escape_byte(v[0]) =~= seq![v[0]]);
        assert(v =~= seq![v[0]] + v.drop_first());
    }
}

/// A member name reads back as itself.
proof fn lemma_name_parse(field: Seq<u8>, rest: Seq<u8>)
    requires
        forall|i: int| 0 <= i < field.len() ==> plain_byte(#[trigger] field[i]),
    ensures
        parse_json_string(seq![0x22u8] + field + seq![0x22u8] + rest) == Some((field, rest)),
{
    reveal(json_string);
    lemma_escape_plain(field);
    assert(json_string(field) =~= seq![0x22u8] + field + seq![0x22u8]);
    lemma_parse_json_string_complete(field, rest);
}

proof fn lemma_fields_plain()
    ensures
        forall|i: int| 0 <= i < field_nostr().len() ==> plain_byte(#[trigger] field_nostr()[i]),
        forall|i: int| 0 <= i < field_solana().len() ==> plain_byte(#[trigger] field_solana()[i]),
        forall|i: int| 0 <= i < field_llm().len() ==> plain_byte(#[trigger] field_llm()[i]),
        forall|i: int|
            0 <= i < field_customer().len() ==> plain_byte(#[trigger] field_customer()[i]),
{
}

/// The fields with the text member `field` set to `v`.
pub open spec fn set_text(f: Fields, field: Seq<u8>, v: Seq<u8>) -> Fields {
    if field == field_nostr() {
        Fields { nostr: Some(v), ..f }
    } else if field == field_solana() {
        Fields { solana: Some(v), ..f }
    } else {
        Fields { llm: Some(v), ..f }
    }
}

pub open spec fn text_unset(f: Fields, field: Seq<u8>) -> bool {
    if field == field_nostr() {
        f.nostr is None
    } else if field == field_solana() {
        f.solana is None
    } else {
        f.llm is None
    }
}

proof fn lemma_text_member(f: Fields, field: Seq<u8>, v: Seq<u8>, x: Seq<u8>)
    requires
        field == field_nostr() || field == field_solana() || field == field_llm(),
        text_unset(f, field),
    ensures
        member_after(seq![0x22u8] + field + seq![0x22u8] + (colon() + (json_string(v) + x)), f)
            == Some((set_text(f, field, v), x)),
{
    reveal(json_string);
    lemma_fields_plain();
    let r3 = json_string(v) + x;
    let r1 = colon() + r3;
    let s = seq![0x22u8] + field + seq![0x22u8] + r1;
    lemma_name_parse(field, r1);
    lemma_skip_ws_none(r1);
    assert(r1.drop_first() =~= r3);
    lemma_skip_ws_none(r3);
    lemma_parse_json_string_complete(v, x);
}

proof fn lemma_customer_member(f: Fields, c: Option<Seq<u8>>, x: Seq<u8>)
    requires
        f.customer is None,
    ensures
        member_after(name_customer() + (colon() + (customer_bytes(c) + x)), f) == Some(
            (Fields { customer: Some(c), ..f }, x),
        ),
{
    reveal(json_string);
    reveal(customer_bytes);
    lemma_fields_plain();
    let r3 = customer_bytes(c) + x;
    let r1 = colon() + r3;
    assert(name_customer() + r1 =~= seq![0x22u8] + field_customer() + seq![0x22u8] + r1);
    lemma_name_parse(field_customer(), r1);
    lemma_skip_ws_none(r1);
    assert(r1.drop_first() =~= r3);
    lemma_skip_ws_none(r3);
    lemma_parse_customer_complete(c, x);
}

/// Reading back an encoding gives the members that were encoded.
pub proof fn lemma_parse_bundle_bytes_complete(b: SecretsBytes)
    ensures
        parse_bundle_bytes(encode_bundle_bytes(b)) == Some(b),
{
    let x4 = close_brace();
    let m4 = name_customer() + (colon() + (customer_bytes(b.customer) + x4));
    let x3 = comma() + m4;
    let m3 = name_llm() + (colon() + (json_string(b.llm) + x3));
    let x2 = comma() + m3;
    let m2 = name_solana() + (colon() + (json_string(b.solana) + x2));
    let x1 = comma() + m2;
    let m1 = name_nostr() + (colon() + (json_string(b.nostr) + x1));
    let s = open_brace() + m1;
    assert(encode_bundle_bytes(b) =~= s);
    lemma_skip_ws_none(s);
    assert(s.drop_first() =~= m1);
    let f0 = no_fields();
    let f1 = Fields { nostr: Some(b.nostr), ..f0 };
    let f2 = Fields { solana: Some(b.solana), ..f1 };
    let f3 = Fields { llm: Some(b.llm), ..f2 };
    let f4 = Fields { customer: Some(b.customer), ..f3 };
    assert(m1 =~= seq![0x22u8] + field_nostr() + seq![0x22u8] + (colon() + (json_string(b.nostr)
        + x1)));
    lemma_text_member(f0, field_nostr(), b.nostr, x1);
    assert(members_from(m1, f0, MapMode::Opened) == members_from(x1, f1, MapMode::After));
    assert(x1.drop_first() =~= m2);
    assert(members_from(x1, f1, MapMode::After) == members_from(m2, f1, MapMode::Key));
    assert(m2 =~= seq![0x22u8] + field_solana() + seq![0x22u8] + (colon() + (json_string(
        b.solana,
    ) + x2)));
    lemma_text_member(f1, field_solana(), b.solana, x2);
    assert(members_from(m2, f1, MapMode::Key) == members_from(x2, f2, MapMode::After));
    assert(x2.drop_first() =~= m3);
    assert(members_from(x2, f2, MapMode::After) == members_from(m3, f2, MapMode::Key));
    assert(m3 =~= seq![0x22u8] + field_llm() + seq![0x22u8] + (colon() + (json_string(b.llm)
        + x3)));
    lemma_text_member(f2, field_llm(), b.llm, x3);
    assert(members_from(m3, f2, MapMode::Key) == members_from(x3, f3, MapMode::After));
    assert(x3.drop_first() =~= m4);
    assert(members_from(x3, f3, MapMode::After) == members_from(m4, f3, MapMode::Key));
    lemma_customer_member(f3, b.customer, x4);
    assert(m4[0] == 0x22u8);
    assert(members_from(m4, f3, MapMode::Key) == members_from(x4, f4, MapMode::After));
    assert(x4.drop_first() =~= Seq::<u8>::empty());
    assert(at_end(Seq::<u8>::empty()));
    assert(members_from(x4, f4, MapMode::After) == Some(b));
}

/// The bundle read back from the encoding of a bundle is that bundle.
pub proof fn lemma_parse_secrets_encode(v: SecretsView)
    ensures
        parse_secrets(encode_secrets(v)) == Some(v),
{
    lemma_parse_bundle_bytes_complete(bundle_bytes_of(v));
    encode_utf8_valid_utf8(v.nostr_secret_key);
    encode_utf8_valid_utf8(v.solana_secret_key);
    encode_utf8_valid_utf8(v.llm_api_key);
    encode_utf8_decode_utf8(v.nostr_secret_key);
    encode_utf8_decode_utf8(v.solana_secret_key);
    encode_utf8_decode_utf8(v.llm_api_key);
    if let Some(c) = v.customer_llm_api_key {
        encode_utf8_valid_utf8(c);
        encode_utf8_decode_utf8(c);
    }
}

/// Two bundles with the same encoding are the same bundle.
pub proof fn lemma_encode_secrets_injective(v1: SecretsView, v2: SecretsView)
    requires
        encode_secrets(v1) == encode_secrets(v2),
    ensures
        v1 == v2,
{
    lemma_parse_secrets_encode(v1);
    lemma_parse_secrets_encode(v2);
}

proof fn lemma_escape_bytes_concat(a: Seq<u8>, b: Seq<u8>)
    ensures
        escape_bytes(a + b) == escape_bytes(a) + escape_bytes(b),
    decreases a.len(),
{
    if a.len() == 0 {
        assert(a + b =~= b);
        assert(escape_bytes(a) =~= Seq::<u8>::empty());
        assert(escape_bytes(a) + escape_bytes(b) =~= escape_bytes(b));
    } else {
        assert((a + b).drop_first() =~= a.drop_first() + b);
        assert((a + b)[0] == a[0]);
        lemma_escape_bytes_concat(a.drop_first(), b);
        assert(escape_bytes(a + b) =~= escape_byte(a[0]) + (escape_bytes(a.drop_first())
            + escape_bytes(b)));
    }
}

proof fn lemma_escape_bytes_single(b: u8)
    ensures
        escape_bytes(seq![b]) == escape_byte(b),
{
    let s = seq![b];
    assert(s.drop_first() =~= Seq::<u8>::empty());
    assert(escape_bytes(s.drop_first()) == Seq::<u8>::empty());
    assert(s[0] == b);
    assert(escape_bytes(s) == escape_byte(s[0]) + escape_bytes(s.drop_first()));
    assert(escape_byte(b) + Seq::<u8>::empty() =~= escape_byte(b));
}

// ---------------------------------------------------------------------------
// Executable encoder.
// ---------------------------------------------------------------------------
fn push_bytes(out: &mut Vec<u8>, src: &[u8])
    ensures
        final(out)@ == old(out)@ + src@,
{
    let mut i: usize = 0;
    while i < src.len()
        invariant
            i <= src@.len(),
            out@ == old(out)@ + src@.take(i as int),
        decreases src@.len() - i,
    {
        out.push(src[i]);
        assert(src@.take(i + 1) =~= src@.take(i as int).push(src@[i as int]));
        i = i + 1;
    }
    assert(src@.take(src@.len() as int) =~= src@);
}

fn hex_digit_exec(d: u8) -> (r: u8)
    requires
        d < 16,
    ensures
        r == hex_digit(d as int),
{
    if d < 10 {
        0x30 + d
    } else {
        0x61 + d - 10
    }
}

fn push_escaped_byte(out: &mut Vec<u8>, b: u8)
    ensures
        final(out)@ == old(out)@ + escape_byte(b),
{
    let ghost start = out@;
    if b == 0x22 || b == 0x5c || b == 0x08 || b == 0x0c || b == 0x0a || b == 0x0d || b == 0x09 {
        let c: u8 = if b == 0x22 {
            0x22
        } else if b == 0x5c {
            0x5c
        } else if b == 0x08 {
            0x62
        } else if b == 0x0c {
            0x66
        } else if b == 0x0a {
            0x6e
        } else if b == 0x0d {
            0x72
        } else {
            0x74
        };
        out.push(0x5c);
        out.push(c);
        assert(out@ =~= start + escape_byte(b));
    } else if b < 0x20 {
        out.push(0x5c);
        out.push(0x75);
        out.push(0x30);
        out.push(0x30);
        let hi = hex_digit_exec(b / 16);
        let lo = hex_digit_exec(b % 16);
        out.push(hi);
        out.push(lo);
        assert(out@ =~= start + escape_byte(b));
    } else {
        out.push(b);
        assert(out@ =~= start + escape_byte(b));
    }
}

fn push_json_string(out: &mut Vec<u8>, src: &[u8])
    ensures
        final(out)@ == old(out)@ + json_string(src@),
{
    reveal(json_string);
    let ghost start = out@;
    out.push(0x22);
    let mut i: usize = 0;
    while i < src.len()
        invariant
            i <= src@.len(),
            out@ == start + seq![quote_byte()] + escape_bytes(src@.take(i as int)),
        decreases src@.len() - i,
    {
        let ghost before = out@;
        push_escaped_byte(out, src[i]);
        proof {
            assert(src@.take(i + 1) =~= src@.take(i as int) + seq![src@[i as int]]);
            lemma_escape_bytes_concat(src@.take(i as int), seq![src@[i as int]]);
            lemma_escape_bytes_single(src@[i as int]);
        }
        i = i + 1;
    }
    out.push(0x22);
    assert(src@.take(src@.len() as int) =~= src@);
    assert(out@ =~= start + json_string(src@));
}

fn name_nostr_bytes() -> (r: Vec<u8>)
    ensures
        r@ == name_nostr(),
{
    let a: [u8; 18] = [0x22u8, 0x6eu8, 0x6fu8, 0x73u8, 0x74u8, 0x72u8, 0x5fu8, 0x73u8, 0x65u8, 0x63u8, 0x72u8, 0x65u8, 0x74u8, 0x5fu8, 0x6bu8, 0x65u8, 0x79u8, 0x22u8];
    let mut v: Vec<u8> = Vec::new();
    push_bytes(&mut v, &a);
    assert(a@ =~= name_nostr());
    v
}

fn name_solana_bytes() -> (r: Vec<u8>)
    ensures
        r@ == name_solana(),
{
    let a: [u8; 19] = [0x22u8, 0x73u8, 0x6fu8, 0x6cu8, 0x61u8, 0x6eu8, 0x61u8, 0x5fu8, 0x73u8, 0x65u8, 0x63u8, 0x72u8, 0x65u8, 0x74u8, 0x5fu8, 0x6bu8, 0x65u8, 0x79u8, 0x22u8];
    let mut v: Vec<u8> = Vec::new();
    push_bytes(&mut v, &a);
    assert(a@ =~= name_solana());
    v
}

fn name_llm_bytes() -> (r: Vec<u8>)
    ensures
        r@ == name_llm(),
{
    let a: [u8; 13] = [0x22u8, 0x6cu8, 0x6cu8, 0x6du8, 0x5fu8, 0x61u8, 0x70u8, 0x69u8, 0x5fu8, 0x6bu8, 0x65u8, 0x79u8, 0x22u8];
    let mut v: Vec<u8> = Vec::new();
    push_bytes(&mut v, &a);
    assert(a@ =~= name_llm());
    v
}

fn name_customer_bytes() -> (r: Vec<u8>)
    ensures
        r@ == name_customer(),
{
    let a: [u8; 22] = [0x22u8, 0x63u8, 0x75u8, 0x73u8, 0x74u8, 0x6fu8, 0x6du8, 0x65u8, 0x72u8, 0x5fu8, 0x6cu8, 0x6cu8, 0x6du8, 0x5fu8, 0x61u8, 0x70u8, 0x69u8, 0x5fu8, 0x6bu8, 0x65u8, 0x79u8, 0x22u8];
    let mut v: Vec<u8> = Vec::new();
    push_bytes(&mut v, &a);
    assert(a@ =~= name_customer());
    v
}

/// Appends a one-byte token.
fn push_byte(out: &mut Vec<u8>, b: u8)
    ensures
        final(out)@ == old(out)@ + seq![b],
{
    out.push(b);
}

proof fn lemma_layout(
    k1: Seq<u8>,
    j1: Seq<u8>,
    k2: Seq<u8>,
    j2: Seq<u8>,
    k3: Seq<u8>,
    j3: Seq<u8>,
    k4: Seq<u8>,
    c: Seq<u8>,
    cb: Seq<u8>,
)
    ensures
        k1 + j1 + k2 + j2 + k3 + j3 + k4 + c + cb == k1 + (j1 + (k2 + (j2 + (k3 + (j3 + (k4 + (c
            + cb))))))),
{
    assert(k1 + j1 + k2 + j2 + k3 + j3 + k4 + c + cb =~= k1 + (j1 + (k2 + (j2 + (k3 + (j3 + (k4
        + (c + cb))))))));
}

/// Encodes a bundle as the plaintext that is encrypted.
pub fn encode_secrets_json(bundle: &SecretsBundle) -> (r: Vec<u8>)
    ensures
        r@ == encode_secrets(bundle@),
{
    let ghost b = bundle_bytes_of(bundle@);
    let mut out: Vec<u8> = Vec::new();
    push_byte(&mut out, 0x7b);
    push_bytes(&mut out, name_nostr_bytes().as_slice());
    push_byte(&mut out, 0x3a);
    assert(out@ =~= key_nostr());
    push_json_string(&mut out, bundle.nostr_secret_key.as_str().as_bytes());
    let ghost a1 = out@;
    push_byte(&mut out, 0x2c);
    push_bytes(&mut out, name_solana_bytes().as_slice());
    push_byte(&mut out, 0x3a);
    assert(out@ =~= a1 + key_solana());
    push_json_string(&mut out, bundle.solana_secret_key.as_str().as_bytes());
    let ghost a2 = out@;
    push_byte(&mut out, 0x2c);
    push_bytes(&mut out, name_llm_bytes().as_slice());
    push_byte(&mut out, 0x3a);
    assert(out@ =~= a2 + key_llm());
    push_json_string(&mut out, bundle.llm_api_key.as_str().as_bytes());
    let ghost a3 = out@;
    push_byte(&mut out, 0x2c);
    push_bytes(&mut out, name_customer_bytes().as_slice());
    push_byte(&mut out, 0x3a);
    assert(out@ =~= a3 + key_customer());
    let ghost a4 = out@;
    match &bundle.customer_llm_api_key {
        Some(c) => {
            push_json_string(&mut out, c.as_str().as_bytes());
            assert(out@ == a4 + customer_bytes(b.customer)) by {
                reveal(customer_bytes);
            }
        },
        None => {
            out.push(0x6e);
            out.push(0x75);
            out.push(0x6c);
            out.push(0x6c);
            assert(out@ =~= a4 + null_bytes());
            assert(out@ == a4 + customer_bytes(b.customer)) by {
                reveal(customer_bytes);
            }
        },
    }
    let ghost a5 = out@;
    out.push(0x7d);
    proof {
        assert(out@ =~= a5 + close_brace());
        lemma_layout(
            key_nostr(),
            json_string(b.nostr),
            key_solana(),
            json_string(b.solana),
            key_llm(),
            json_string(b.llm),
            key_customer(),
            customer_bytes(b.customer),
            close_brace(),
        );
    }
    out
}


// ---------------------------------------------------------------------------
// Executable decoder.
// ---------------------------------------------------------------------------
fn match_literal(bytes: &[u8], pos: usize, lit: &[u8]) -> (r: Option<usize>)
    requires
        pos <= bytes@.len(),
    ensures
        match parse_literal(bytes@.skip(pos as int), lit@) {
            None => r is None,
            Some(rest) => r matches Some(e) && pos <= e <= bytes@.len() && rest == bytes@.skip(
                e as int,
            ),
        },
        r matches Some(e) ==> e == pos + lit@.len(),
{
    reveal(parse_literal);
    let ghost s = bytes@.skip(pos as int);
    if lit.len() > bytes.len() - pos {
        return None;
    }
    let mut i: usize = 0;
    while i < lit.len()
        invariant
            i <= lit@.len(),
            pos + lit@.len() <= bytes@.len(),
            lit.len() == lit@.len(),
            bytes.len() == bytes@.len(),
            s == bytes@.skip(pos as int),
            forall|j: int| 0 <= j < i ==> bytes@[pos + j] == lit@[j],
        decreases lit@.len() - i,
    {
        if bytes[pos + i] != lit[i] {
            assert(s.take(lit@.len() as int)[i as int] == bytes@[pos + i]);
            assert(s.take(lit@.len() as int)[i as int] != lit@[i as int]);
            reveal(parse_literal);
            return None;
        }
        i = i + 1;
    }
    assert(s.take(lit@.len() as int) =~= lit@);
    assert(s.skip(lit@.len() as int) =~= bytes@.skip(pos + lit@.len()));
    Some(pos + lit.len())
}

fn is_hex_exec(b: u8) -> (r: bool)
    ensures
        r == is_hex(b),
{
    (0x30 <= b && b <= 0x39) || (0x61 <= b && b <= 0x66) || (0x41 <= b && b <= 0x46)
}

fn hex_value_exec(b: u8) -> (r: u8)
    requires
        is_hex(b),
    ensures
        r == hex_value(b),
        r < 16,
{
    if b <= 0x39 {
        b - 0x30
    } else if b <= 0x46 {
        b - 0x41 + 10
    } else {
        b - 0x61 + 10
    }
}

/// The value of the four hexadecimal digits at `i`.
fn hex4_at(bytes: &[u8], i: usize) -> (r: Option<u32>)
    requires
        i <= bytes@.len(),
    ensures
        match hex4(bytes@.skip(i as int)) {
            None => r is None,
            Some(n) => r == Some(n as u32) && 0 <= n < 0x10000,
        },
{
    let ghost s = bytes@.skip(i as int);
    if bytes.len() - i < 4 {
        return None;
    }
    assert(s[0] == bytes@[i as int] && s[1] == bytes@[i + 1] && s[2] == bytes@[i + 2] && s[3]
        == bytes@[i + 3]);
    let (a, b, c, d) = (bytes[i], bytes[i + 1], bytes[i + 2], bytes[i + 3]);
    if is_hex_exec(a) && is_hex_exec(b) && is_hex_exec(c) && is_hex_exec(d) {
        let n: u32 = hex_value_exec(a) as u32 * 4096 + hex_value_exec(b) as u32 * 256
            + hex_value_exec(c) as u32 * 16 + hex_value_exec(d) as u32;
        Some(n)
    } else {
        None
    }
}

/// Appends the UTF-8 encoding of a code point.
fn push_scalar(out: &mut Vec<u8>, cp: u32)
    ensures
        final(out)@ == old(out)@ + encode_scalar(cp),
{
    let ghost start = out@;
    if cp <= 0x7F {
        out.push((cp & 0x7F) as u8);
    } else if cp <= 0x7FF {
        out.push(0xC0 | ((cp >> 6) & 0x1F) as u8);
        out.push(0x80 | (cp & 0x3F) as u8);
    } else if cp <= 0xFFFF && !(0xD800 <= cp && cp <= 0xDFFF) {
        out.push(0xE0 | ((cp >> 12) & 0x0F) as u8);
        out.push(0x80 | ((cp >> 6) & 0x3F) as u8);
        out.push(0x80 | (cp & 0x3F) as u8);
    } else {
        out.push(0xF0 | ((cp >> 18) & 0x7) as u8);
        out.push(0x80 | ((cp >> 12) & 0x3F) as u8);
        out.push(0x80 | ((cp >> 6) & 0x3F) as u8);
        out.push(0x80 | (cp & 0x3F) as u8);
    }
    assert(out@ =~= start + encode_scalar(cp));
}

/// Reads the content unit at `i`, appending its bytes; gives how many bytes
/// it took.
fn unescape_at(bytes: &[u8], i: usize, out: &mut Vec<u8>) -> (r: Option<usize>)
    requires
        i <= bytes@.len(),
    ensures
        match unescape_one(bytes@.skip(i as int)) {
            None => r is None,
            Some((bs, n)) => 0 < n <= bytes@.len() - i && r == Some(n as usize) && final(out)@
                == old(out)@ + bs,
        },
{
    reveal(unescape_one);
    let ghost s = bytes@.skip(i as int);
    let ghost start = out@;
    let len = bytes.len();
    if i >= len {
        return None;
    }
    assert(s[0] == bytes@[i as int]);
    let c = bytes[i];
    if c == 0x5c {
        if len - i < 2 {
            return None;
        }
        assert(s[1] == bytes@[i + 1]);
        let e = bytes[i + 1];
        let simple: u8 = if e == 0x22 {
            0x22
        } else if e == 0x5c {
            0x5c
        } else if e == 0x62 {
            0x08
        } else if e == 0x66 {
            0x0c
        } else if e == 0x6e {
            0x0a
        } else if e == 0x72 {
            0x0d
        } else if e == 0x74 {
            0x09
        } else if e == 0x2f {
            0x2f
        } else {
            0
        };
        if simple != 0 {
            out.push(simple);
            assert(out@ =~= start + seq![simple]);
            return Some(2);
        }
        if e != 0x75 {
            return None;
        }
        assert(s.skip(2) =~= bytes@.skip(i + 2));
        let n = match hex4_at(bytes, i + 2) {
            Some(n) => n,
            None => return None,
        };
        if 0xDC00 <= n && n <= 0xDFFF {
            return None;
        }
        if n < 0xD800 || n > 0xDBFF {
            push_scalar(out, n);
            return Some(6);
        }
        if len - i < 8 {
            return None;
        }
        assert(s[6] == bytes@[i + 6] && s[7] == bytes@[i + 7]);
        if bytes[i + 6] != 0x5c || bytes[i + 7] != 0x75 {
            return None;
        }
        assert(s.skip(8) =~= bytes@.skip(i + 8));
        let n2 = match hex4_at(bytes, i + 8) {
            Some(n2) => n2,
            None => return None,
        };
        if !(0xDC00 <= n2 && n2 <= 0xDFFF) {
            return None;
        }
        let cp: u32 = (n - 0xD800) * 1024 + (n2 - 0xDC00) + 0x10000;
        push_scalar(out, cp);
        Some(12)
    } else if c < 0x20 || c == 0x22 {
        None
    } else {
        out.push(c);
        assert(out@ =~= start + seq![c]);
        Some(1)
    }
}

/// Decodes the JSON string literal that starts at `pos`; gives its contents
/// and the position after the closing quote.
fn decode_json_string(bytes: &[u8], pos: usize) -> (r: Option<(Vec<u8>, usize)>)
    requires
        pos <= bytes@.len(),
    ensures
        match parse_json_string(bytes@.skip(pos as int)) {
            None => r is None,
            Some((v, rest)) => r matches Some((out, e)) && out@ == v && pos < e <= bytes@.len()
                && rest == bytes@.skip(e as int),
        },
{
    reveal(parse_json_string);
    let len = bytes.len();
    if pos >= len || bytes[pos] != 0x22 {
        return None;
    }
    assert(bytes@.skip(pos as int).drop_first() =~= bytes@.skip(pos + 1));
    assert(bytes@.skip(pos as int)[0] == bytes@[pos as int]);
    let ghost body = bytes@.skip(pos + 1);
    let mut out: Vec<u8> = Vec::new();
    let mut i: usize = pos + 1;
    loop
        invariant
            pos + 1 <= i <= len,
            len == bytes@.len(),
            body == bytes@.skip(pos + 1),
            bytes@.skip(pos as int).drop_first() == body,
            bytes@.skip(pos as int).len() > 0,
            bytes@.skip(pos as int)[0] == 0x22,
            parse_string_body(body) == prepend_decoded(
                out@,
                parse_string_body(bytes@.skip(i as int)),
            ),
        decreases len - i,
    {
        reveal(parse_json_string);
        let ghost s = bytes@.skip(i as int);
        if i >= len {
            return None;
        }
        assert(s[0] == bytes@[i as int]);
        if bytes[i] == 0x22 {
            assert(s.drop_first() =~= bytes@.skip(i + 1));
            assert(out@ + Seq::<u8>::empty() =~= out@);
            return Some((out, i + 1));
        }
        let ghost before = out@;
        match unescape_at(bytes, i, &mut out) {
            None => {
                return None;
            },
            Some(n) => {
                let ghost unit = unescape_one(s)->0;
                let ghost bs = unit.0;
                assert(s.skip(n as int) =~= bytes@.skip(i + n));
                proof {
                    assert(unescape_one(s) == Some((bs, n as int)));
                    assert(s.len() > 0 && s[0] != 0x22);
                    assert(0 < n <= s.len());
                    assert(parse_string_body(s) == prepend_decoded(
                        bs,
                        parse_string_body(bytes@.skip(i + n)),
                    ));
                    lemma_prepend_twice(before, bs, parse_string_body(bytes@.skip(i + n)));
                }
                i = i + n;
            },
        }
    }
}

fn decode_customer(bytes: &[u8], pos: usize) -> (r: Option<(Option<Vec<u8>>, usize)>)
    requires
        pos <= bytes@.len(),
    ensures
        match parse_customer(bytes@.skip(pos as int)) {
            None => r is None,
            Some((c, rest)) => r matches Some((out, e)) && pos < e <= bytes@.len() && rest
                == bytes@.skip(e as int) && match (c, out) {
                (None, None) => true,
                (Some(cv), Some(ov)) => ov@ == cv,
                _ => false,
            },
        },
{
    reveal(parse_customer);
    if pos < bytes.len() && bytes[pos] == 0x22 {
        assert(bytes@.skip(pos as int)[0] == 0x22);
        match decode_json_string(bytes, pos) {
            Some((v, e)) => Some((Some(v), e)),
            None => None,
        }
    } else {
        assert(pos < bytes@.len() ==> bytes@.skip(pos as int)[0] == bytes@[pos as int]);
        let null: [u8; 4] = [0x6e, 0x75, 0x6c, 0x6c];
        assert(null@ =~= null_bytes());
        match match_literal(bytes, pos, &null) {
            Some(e) => Some((None, e)),
            None => None,
        }
    }
}

/// The position after the whitespace that starts at `pos`.
fn skip_ws_at(bytes: &[u8], pos: usize) -> (r: usize)
    requires
        pos <= bytes@.len(),
    ensures
        pos <= r <= bytes@.len(),
        bytes@.skip(r as int) == skip_ws(bytes@.skip(pos as int)),
{
    let mut i = pos;
    while i < bytes.len() && (bytes[i] == 0x20 || bytes[i] == 0x09 || bytes[i] == 0x0a
        || bytes[i] == 0x0d)
        invariant
            pos <= i <= bytes@.len(),
            skip_ws(bytes@.skip(pos as int)) == skip_ws(bytes@.skip(i as int)),
        decreases bytes@.len() - i,
    {
        assert(bytes@.skip(i as int)[0] == bytes@[i as int]);
        assert(bytes@.skip(i as int).drop_first() =~= bytes@.skip(i + 1));
        i = i + 1;
    }
    proof {
        if i < bytes@.len() {
            assert(bytes@.skip(i as int)[0] == bytes@[i as int]);
        }
    }
    i
}

/// Reads the token `t` after optional whitespace at `pos`.
fn token_at(bytes: &[u8], pos: usize, t: &[u8]) -> (r: Option<usize>)
    requires
        pos <= bytes@.len(),
    ensures
        match parse_token(bytes@.skip(pos as int), t@) {
            None => r is None,
            Some(rest) => r matches Some(e) && e <= bytes@.len() && rest == bytes@.skip(e as int),
        },
{
    let p = skip_ws_at(bytes, pos);
    match_literal(bytes, p, t)
}

/// Whether only whitespace is left from `pos`.
fn at_end_from(bytes: &[u8], pos: usize) -> (r: bool)
    requires
        pos <= bytes@.len(),
    ensures
        r == at_end(bytes@.skip(pos as int)),
{
    let e = skip_ws_at(bytes, pos);
    e == bytes.len()
}

/// The number of ASCII digits at `i`.
fn digits_at(bytes: &[u8], i: usize) -> (r: usize)
    requires
        i <= bytes@.len(),
    ensures
        r == digits_len(bytes@.skip(i as int)),
        i + r <= bytes@.len(),
{
    let mut j = i;
    while j < bytes.len() && 0x30 <= bytes[j] && bytes[j] <= 0x39
        invariant
            i <= j <= bytes@.len(),
            digits_len(bytes@.skip(i as int)) == (j - i) + digits_len(bytes@.skip(j as int)),
        decreases bytes@.len() - j,
    {
        assert(bytes@.skip(j as int)[0] == bytes@[j as int]);
        assert(bytes@.skip(j as int).drop_first() =~= bytes@.skip(j + 1));
        j = j + 1;
    }
    proof {
        if j < bytes@.len() {
            assert(bytes@.skip(j as int)[0] == bytes@[j as int]);
        }
    }
    j - i
}

/// The end of the number at `i` whose integer part ends at `i + j`.
fn number_tail_at(bytes: &[u8], i: usize, j: usize) -> (r: Option<usize>)
    requires
        i + j <= bytes@.len(),
    ensures
        match number_tail(bytes@.skip(i as int), j as int) {
            None => r is None,
            Some(k) => j <= k <= bytes@.len() - i && r == Some(k as usize),
        },
{
    let ghost s = bytes@.skip(i as int);
    let len = bytes.len();
    let k: usize = if i + j < len && bytes[i + j] == 0x2e {
        assert(s[j as int] == bytes@[i + j]);
        assert(s.skip(j + 1) =~= bytes@.skip(i + j + 1));
        let d = digits_at(bytes, i + j + 1);
        if d == 0 {
            return None;
        }
        j + 1 + d
    } else {
        assert(i + j < len ==> s[j as int] == bytes@[i + j]);
        j
    };
    assert(number_tail(s, j as int) == (if 0 <= k < s.len() && (s[k as int] == 0x65 || s[k as int]
        == 0x45) {
        let m = if k + 1 < s.len() && (s[k + 1] == 0x2b || s[k + 1] == 0x2d) {
            k + 2
        } else {
            k + 1
        };
        let d = digits_len(s.skip(m));
        if d == 0 {
            None
        } else {
            Some(m + d)
        }
    } else {
        Some(k as int)
    }));
    if i + k < len && (bytes[i + k] == 0x65 || bytes[i + k] == 0x45) {
        assert(s[k as int] == bytes@[i + k]);
        let m: usize = if i + k + 1 < len && (bytes[i + k + 1] == 0x2b || bytes[i + k + 1] == 0x2d) {
            assert(s[k + 1] == bytes@[i + k + 1]);
            k + 2
        } else {
            assert(i + k + 1 < len ==> s[k + 1] == bytes@[i + k + 1]);
            k + 1
        };
        assert(s.skip(m as int) =~= bytes@.skip(i + m));
        let d = digits_at(bytes, i + m);
        if d == 0 {
            return None;
        }
        Some(m + d)
    } else {
        assert(i + k < len ==> s[k as int] == bytes@[i + k]);
        Some(k)
    }
}

/// The length of the JSON number at `i`.
fn number_len_at(bytes: &[u8], i: usize) -> (r: Option<usize>)
    requires
        i <= bytes@.len(),
    ensures
        match number_len(bytes@.skip(i as int)) {
            None => r is None,
            Some(k) => 0 < k <= bytes@.len() - i && r == Some(k as usize),
        },
{
    let ghost s = bytes@.skip(i as int);
    let len = bytes.len();
    let a: usize = if i < len && bytes[i] == 0x2d {
        assert(s[0] == bytes@[i as int]);
        1
    } else {
        assert(i < len ==> s[0] == bytes@[i as int]);
        0
    };
    if i + a >= len {
        return None;
    }
    assert(s[a as int] == bytes@[i + a]);
    let c = bytes[i + a];
    if c == 0x30 {
        if i + a + 1 < len && 0x30 <= bytes[i + a + 1] && bytes[i + a + 1] <= 0x39 {
            assert(s[a + 1] == bytes@[i + a + 1]);
            return None;
        }
        assert(i + a + 1 < len ==> s[a + 1] == bytes@[i + a + 1]);
        number_tail_at(bytes, i, a + 1)
    } else if 0x30 <= c && c <= 0x39 {
        assert(s.skip(a + 1) =~= bytes@.skip(i + a + 1));
        let d = digits_at(bytes, i + a + 1);
        number_tail_at(bytes, i, a + 1 + d)
    } else {
        None
    }
}

/// The length, closing quote included, of the skipped string contents at `i`.
fn skip_str_len_at(bytes: &[u8], i: usize) -> (r: Option<usize>)
    requires
        i <= bytes@.len(),
    ensures
        match skip_str_len(bytes@.skip(i as int)) {
            None => r is None,
            Some(k) => 0 < k <= bytes@.len() - i && r == Some(k as usize),
        },
{
    let len = bytes.len();
    let mut j = i;
    loop
        invariant
            i <= j <= len,
            len == bytes@.len(),
            skip_str_len(bytes@.skip(i as int)) == plus_opt(j - i, skip_str_len(bytes@.skip(j as int))),
        decreases len - j,
    {
        let ghost s = bytes@.skip(j as int);
        if j >= len {
            return None;
        }
        assert(s[0] == bytes@[j as int]);
        let c = bytes[j];
        if c == 0x22 {
            return Some(j + 1 - i);
        }
        if c == 0x5c {
            if len - j < 2 {
                return None;
            }
            assert(s[1] == bytes@[j + 1]);
            let e = bytes[j + 1];
            if e == 0x22 || e == 0x5c || e == 0x2f || e == 0x62 || e == 0x66 || e == 0x6e || e
                == 0x72 || e == 0x74 {
                assert(s.skip(2) =~= bytes@.skip(j + 2));
                j = j + 2;
            } else if e == 0x75 && len - j >= 6 {
                assert(s.skip(2) =~= bytes@.skip(j + 2));
                match hex4_at(bytes, j + 2) {
                    Some(_) => {
                        assert(s.skip(6) =~= bytes@.skip(j + 6));
                        j = j + 6;
                    },
                    None => return None,
                }
            } else {
                return None;
            }
        } else if c < 0x20 {
            return None;
        } else {
            assert(s.drop_first() =~= bytes@.skip(j + 1));
            j = j + 1;
        }
    }
}

/// The length of the scalar value at `i`.
fn scalar_len_at(bytes: &[u8], i: usize) -> (r: Option<usize>)
    requires
        i <= bytes@.len(),
    ensures
        match scalar_len(bytes@.skip(i as int)) {
            None => r is None,
            Some(k) => 0 < k <= bytes@.len() - i && r == Some(k as usize),
        },
{
    let ghost s = bytes@.skip(i as int);
    if i >= bytes.len() {
        return None;
    }
    assert(s[0] == bytes@[i as int]);
    let c = bytes[i];
    if c == 0x6e {
        let lit: [u8; 4] = [0x6e, 0x75, 0x6c, 0x6c];
        assert(lit@ =~= null_bytes());
        match match_literal(bytes, i, &lit) {
            Some(_) => Some(4),
            None => None,
        }
    } else if c == 0x74 {
        let lit: [u8; 4] = [0x74, 0x72, 0x75, 0x65];
        assert(lit@ =~= true_bytes());
        match match_literal(bytes, i, &lit) {
            Some(_) => Some(4),
            None => None,
        }
    } else if c == 0x66 {
        let lit: [u8; 5] = [0x66, 0x61, 0x6c, 0x73, 0x65];
        assert(lit@ =~= false_bytes());
        match match_literal(bytes, i, &lit) {
            Some(_) => Some(5),
            None => None,
        }
    } else if c == 0x2d || (0x30 <= c && c <= 0x39) {
        number_len_at(bytes, i)
    } else if c == 0x22 {
        assert(s.drop_first() =~= bytes@.skip(i + 1));
        match skip_str_len_at(bytes, i + 1) {
            Some(k) => Some(k + 1),
            None => None,
        }
    } else {
        None
    }
}

/// Skips the JSON value at `pos`; gives the position after it.
#[verifier::rlimit(40)]
fn skip_value_at(bytes: &[u8], pos: usize) -> (r: Option<usize>)
    requires
        pos <= bytes@.len(),
    ensures
        match skip_value_from(bytes@.skip(pos as int), Seq::empty(), SkipMode::Value) {
            None => r is None,
            Some(rest) => r matches Some(e) && pos < e <= bytes@.len() && rest == bytes@.skip(
                e as int,
            ),
        },
{
    let len = bytes.len();
    let mut stack: Vec<u8> = Vec::new();
    let mut mode = SkipMode::Value;
    let mut i = pos;
    assert(stack@ =~= Seq::<u8>::empty());
    loop
        invariant
            pos <= i <= len,
            len == bytes@.len(),
            skip_value_from(bytes@.skip(pos as int), Seq::empty(), SkipMode::Value)
                == skip_value_from(bytes@.skip(i as int), stack@, mode),
            (mode is Value && stack@.len() == 0) || i > pos,
        decreases len - i, skip_rank(mode),
    {
        let ghost s = bytes@.skip(i as int);
        if stack.len() == 0 && matches!(mode, SkipMode::After) {
            return Some(i);
        }
        if i >= len {
            return None;
        }
        assert(s[0] == bytes@[i as int]);
        assert(s.drop_first() =~= bytes@.skip(i + 1));
        let c = bytes[i];
        if c == 0x20 || c == 0x09 || c == 0x0a || c == 0x0d {
            i = i + 1;
        } else {
            match mode {
                SkipMode::Value => {
                    if c == 0x5b || c == 0x7b {
                        stack.push(c);
                        mode = SkipMode::Opened;
                        i = i + 1;
                    } else {
                        match scalar_len_at(bytes, i) {
                            Some(k) => {
                                assert(s.skip(k as int) =~= bytes@.skip(i + k));
                                mode = SkipMode::After;
                                i = i + k;
                            },
                            None => return None,
                        }
                    }
                },
                SkipMode::Opened => {
                    let n = stack.len();
                    if n > 0 && ((c == 0x5d && stack[n - 1] == 0x5b) || (c == 0x7d && stack[n - 1]
                        == 0x7b)) {
                        stack.pop();
                        mode = SkipMode::After;
                        i = i + 1;
                    } else if n > 0 && stack[n - 1] == 0x5b {
                        mode = SkipMode::Value;
                    } else {
                        mode = SkipMode::Key;
                    }
                },
                SkipMode::Key => {
                    if c != 0x22 {
                        return None;
                    }
                    match skip_str_len_at(bytes, i + 1) {
                        Some(k) => {
                            if k + 1 > len - i {
                                return None;
                            }
                            assert(s.skip(k + 1) =~= bytes@.skip(i + k + 1));
                            mode = SkipMode::Colon;
                            i = i + k + 1;
                        },
                        None => return None,
                    }
                },
                SkipMode::Colon => {
                    if c != 0x3a {
                        return None;
                    }
                    mode = SkipMode::Value;
                    i = i + 1;
                },
                SkipMode::After => {
                    let n = stack.len();
                    if c == 0x2c {
                        mode = if stack[n - 1] == 0x5b {
                            SkipMode::Value
                        } else {
                            SkipMode::Key
                        };
                        i = i + 1;
                    } else if (c == 0x5d && stack[n - 1] == 0x5b) || (c == 0x7d && stack[n - 1]
                        == 0x7b) {
                        stack.pop();
                        i = i + 1;
                    } else {
                        return None;
                    }
                },
            }
        }
    }
}

/// Whether two byte strings are equal.
fn bytes_equal(a: &[u8], b: &[u8]) -> (r: bool)
    ensures
        r == (a@ == b@),
{
    if a.len() != b.len() {
        return false;
    }
    let mut i: usize = 0;
    while i < a.len()
        invariant
            i <= a@.len(),
            a@.len() == b@.len(),
            forall|k: int| 0 <= k < i ==> a@[k] == b@[k],
        decreases a@.len() - i,
    {
        if a[i] != b[i] {
            return false;
        }
        i = i + 1;
    }
    assert(a@ =~= b@);
    true
}

/// The known members read so far, as bytes.
pub struct FieldBytes {
    pub nostr: Option<Vec<u8>>,
    pub solana: Option<Vec<u8>>,
    pub llm: Option<Vec<u8>>,
    pub customer: Option<Option<Vec<u8>>>,
}

pub open spec fn opt_bytes(o: Option<Vec<u8>>) -> Option<Seq<u8>> {
    match o {
        Some(v) => Some(v@),
        None => None,
    }
}

impl View for FieldBytes {
    type V = Fields;

    open spec fn view(&self) -> Fields {
        Fields {
            nostr: opt_bytes(self.nostr),
            solana: opt_bytes(self.solana),
            llm: opt_bytes(self.llm),
            customer: match self.customer {
                Some(c) => Some(opt_bytes(c)),
                None => None,
            },
        }
    }
}

/// Whether bytes are UTF-8.
fn is_utf8(bytes: &Vec<u8>) -> (r: bool)
    ensures
        r == valid_utf8(bytes@),
{
    let copy = bytes.clone();
    assert(copy@ == bytes@);
    string_from_utf8(copy).is_some()
}

fn field_nostr_bytes() -> (r: Vec<u8>)
    ensures
        r@ == field_nostr(),
{
    let a: [u8; 16] = [0x6eu8, 0x6fu8, 0x73u8, 0x74u8, 0x72u8, 0x5fu8, 0x73u8, 0x65u8, 0x63u8, 0x72u8, 0x65u8, 0x74u8, 0x5fu8, 0x6bu8, 0x65u8, 0x79u8];
    let mut v: Vec<u8> = Vec::new();
    push_bytes(&mut v, &a);
    assert(a@ =~= field_nostr());
    v
}

fn field_solana_bytes() -> (r: Vec<u8>)
    ensures
        r@ == field_solana(),
{
    let a: [u8; 17] = [0x73u8, 0x6fu8, 0x6cu8, 0x61u8, 0x6eu8, 0x61u8, 0x5fu8, 0x73u8, 0x65u8, 0x63u8, 0x72u8, 0x65u8, 0x74u8, 0x5fu8, 0x6bu8, 0x65u8, 0x79u8];
    let mut v: Vec<u8> = Vec::new();
    push_bytes(&mut v, &a);
    assert(a@ =~= field_solana());
    v
}

fn field_llm_bytes() -> (r: Vec<u8>)
    ensures
        r@ == field_llm(),
{
    let a: [u8; 11] = [0x6cu8, 0x6cu8, 0x6du8, 0x5fu8, 0x61u8, 0x70u8, 0x69u8, 0x5fu8, 0x6bu8, 0x65u8, 0x79u8];
    let mut v: Vec<u8> = Vec::new();
    push_bytes(&mut v, &a);
    assert(a@ =~= field_llm());
    v
}

fn field_customer_bytes() -> (r: Vec<u8>)
    ensures
        r@ == field_customer(),
{
    let a: [u8; 20] = [0x63u8, 0x75u8, 0x73u8, 0x74u8, 0x6fu8, 0x6du8, 0x65u8, 0x72u8, 0x5fu8, 0x6cu8, 0x6cu8, 0x6du8, 0x5fu8, 0x61u8, 0x70u8, 0x69u8, 0x5fu8, 0x6bu8, 0x65u8, 0x79u8];
    let mut v: Vec<u8> = Vec::new();
    push_bytes(&mut v, &a);
    assert(a@ =~= field_customer());
    v
}

/// Reads the member whose name is at `i` (a quote).
#[verifier::rlimit(40)]
fn member_at(bytes: &[u8], i: usize, f: FieldBytes) -> (r: Option<(FieldBytes, usize)>)
    requires
        i <= bytes@.len(),
    ensures
        match member_after(bytes@.skip(i as int), f@) {
            None => r is None,
            Some((g, rest)) => r matches Some((h, e)) && h@ == g && i < e <= bytes@.len() && rest
                == bytes@.skip(e as int),
        },
{
    let (k, p1) = match decode_json_string(bytes, i) {
        Some(x) => x,
        None => return None,
    };
    let p2 = skip_ws_at(bytes, p1);
    if !(p2 < bytes.len() && bytes[p2] == 0x3a) {
        proof {
            if p2 < bytes@.len() {
                assert(bytes@.skip(p2 as int)[0] == bytes@[p2 as int]);
            }
        }
        return None;
    }
    assert(bytes@.skip(p2 as int)[0] == bytes@[p2 as int]);
    assert(bytes@.skip(p2 as int).drop_first() =~= bytes@.skip(p2 + 1));
    let p3 = p2 + 1;
    let nostr = field_nostr_bytes();
    let solana = field_solana_bytes();
    let llm = field_llm_bytes();
    let customer = field_customer_bytes();
    if bytes_equal(k.as_slice(), nostr.as_slice()) {
        if f.nostr.is_some() {
            return None;
        }
        let p4 = skip_ws_at(bytes, p3);
        match decode_json_string(bytes, p4) {
            Some((v, e)) => Some((FieldBytes { nostr: Some(v), ..f }, e)),
            None => None,
        }
    } else if bytes_equal(k.as_slice(), solana.as_slice()) {
        if f.solana.is_some() {
            return None;
        }
        let p4 = skip_ws_at(bytes, p3);
        match decode_json_string(bytes, p4) {
            Some((v, e)) => Some((FieldBytes { solana: Some(v), ..f }, e)),
            None => None,
        }
    } else if bytes_equal(k.as_slice(), llm.as_slice()) {
        if f.llm.is_some() {
            return None;
        }
        let p4 = skip_ws_at(bytes, p3);
        match decode_json_string(bytes, p4) {
            Some((v, e)) => Some((FieldBytes { llm: Some(v), ..f }, e)),
            None => None,
        }
    } else if bytes_equal(k.as_slice(), customer.as_slice()) {
        if f.customer.is_some() {
            return None;
        }
        let p4 = skip_ws_at(bytes, p3);
        match decode_customer(bytes, p4) {
            Some((c, e)) => Some((FieldBytes { customer: Some(c), ..f }, e)),
            None => None,
        }
    } else if !is_utf8(&k) {
        None
    } else {
        match skip_value_at(bytes, p3) {
            Some(e) => Some((f, e)),
            None => None,
        }
    }
}

/// The bundle once the object is closed at `i`.
fn finish_at(bytes: &[u8], i: usize, f: FieldBytes) -> (r: Option<(Vec<u8>, Vec<u8>, Vec<u8>, Option<Vec<u8>>)>)
    requires
        i <= bytes@.len(),
    ensures
        match finish_fields(f@, bytes@.skip(i as int)) {
            None => r is None,
            Some(b) => r matches Some((n, s, l, c)) && n@ == b.nostr && s@ == b.solana && l@
                == b.llm && opt_bytes(c) == b.customer,
        },
{
    if !at_end_from(bytes, i) {
        return None;
    }
    match (f.nostr, f.solana, f.llm) {
        (Some(n), Some(s), Some(l)) => {
            let c = match f.customer {
                Some(c) => c,
                None => None,
            };
            Some((n, s, l, c))
        },
        _ => None,
    }
}

/// Reads the object's members, starting just after its opening brace.
#[verifier::rlimit(40)]
fn members_at(bytes: &[u8], pos: usize) -> (r: Option<(Vec<u8>, Vec<u8>, Vec<u8>, Option<Vec<u8>>)>)
    requires
        pos <= bytes@.len(),
    ensures
        match members_from(bytes@.skip(pos as int), no_fields(), MapMode::Opened) {
            None => r is None,
            Some(b) => r matches Some((n, s, l, c)) && n@ == b.nostr && s@ == b.solana && l@
                == b.llm && opt_bytes(c) == b.customer,
        },
{
    let len = bytes.len();
    let mut f = FieldBytes { nostr: None, solana: None, llm: None, customer: None };
    let mut mode = MapMode::Opened;
    let mut i = pos;
    loop
        invariant
            pos <= i <= len,
            len == bytes@.len(),
            members_from(bytes@.skip(pos as int), no_fields(), MapMode::Opened) == members_from(
                bytes@.skip(i as int),
                f@,
                mode,
            ),
        decreases len - i,
    {
        let ghost s = bytes@.skip(i as int);
        if i >= len {
            return None;
        }
        assert(s[0] == bytes@[i as int]);
        assert(s.drop_first() =~= bytes@.skip(i + 1));
        let c = bytes[i];
        if c == 0x20 || c == 0x09 || c == 0x0a || c == 0x0d {
            i = i + 1;
        } else if c == 0x7d && !matches!(mode, MapMode::Key) {
            return finish_at(bytes, i + 1, f);
        } else if c == 0x2c && matches!(mode, MapMode::After) {
            mode = MapMode::Key;
            i = i + 1;
        } else if c == 0x22 && !matches!(mode, MapMode::After) {
            match member_at(bytes, i, f) {
                Some((g, e)) => {
                    f = g;
                    mode = MapMode::After;
                    i = e;
                },
                None => return None,
            }
        } else {
            return None;
        }
    }
}

/// Reads the bundle written as an array, starting just after its bracket.
#[verifier::rlimit(40)]
fn elements_at(bytes: &[u8], pos: usize) -> (r: Option<(Vec<u8>, Vec<u8>, Vec<u8>, Option<Vec<u8>>)>)
    requires
        pos <= bytes@.len(),
    ensures
        match elements_from(bytes@.skip(pos as int)) {
            None => r is None,
            Some(b) => r matches Some((n, s, l, c)) && n@ == b.nostr && s@ == b.solana && l@
                == b.llm && opt_bytes(c) == b.customer,
        },
{
    let comma_byte: [u8; 1] = [0x2c];
    assert(comma_byte@ =~= comma());
    let q1 = skip_ws_at(bytes, pos);
    let (nostr, p1) = match decode_json_string(bytes, q1) {
        Some(x) => x,
        None => return None,
    };
    let p2 = match token_at(bytes, p1, &comma_byte) {
        Some(e) => e,
        None => return None,
    };
    let q3 = skip_ws_at(bytes, p2);
    let (solana, p3) = match decode_json_string(bytes, q3) {
        Some(x) => x,
        None => return None,
    };
    let p4 = match token_at(bytes, p3, &comma_byte) {
        Some(e) => e,
        None => return None,
    };
    let q5 = skip_ws_at(bytes, p4);
    let (llm, p5) = match decode_json_string(bytes, q5) {
        Some(x) => x,
        None => return None,
    };
    let t = skip_ws_at(bytes, p5);
    if t < bytes.len() {
        assert(bytes@.skip(t as int)[0] == bytes@[t as int]);
        assert(bytes@.skip(t as int).drop_first() =~= bytes@.skip(t + 1));
    }
    if t < bytes.len() && bytes[t] == 0x5d {
        if at_end_from(bytes, t + 1) {
            Some((nostr, solana, llm, None))
        } else {
            None
        }
    } else if t < bytes.len() && bytes[t] == 0x2c {
        let q6 = skip_ws_at(bytes, t + 1);
        let (customer, p6) = match decode_customer(bytes, q6) {
            Some(x) => x,
            None => return None,
        };
        let t2 = skip_ws_at(bytes, p6);
        if t2 < bytes.len() {
            assert(bytes@.skip(t2 as int)[0] == bytes@[t2 as int]);
            assert(bytes@.skip(t2 as int).drop_first() =~= bytes@.skip(t2 + 1));
        }
        if t2 < bytes.len() && bytes[t2] == 0x5d && at_end_from(bytes, t2 + 1) {
            Some((nostr, solana, llm, customer))
        } else {
            None
        }
    } else {
        None
    }
}

/// The members of a bundle decoded from `bytes`, still as bytes.
fn decode_bundle_bytes(bytes: &[u8]) -> (r: Option<(Vec<u8>, Vec<u8>, Vec<u8>, Option<Vec<u8>>)>)
    ensures
        match parse_bundle_bytes(bytes@) {
            None => r is None,
            Some(b) => r matches Some((n, s, l, c)) && n@ == b.nostr && s@ == b.solana && l@
                == b.llm && opt_bytes(c) == b.customer,
        },
{
    assert(bytes@.skip(0) =~= bytes@);
    let t = skip_ws_at(bytes, 0);
    if t >= bytes.len() {
        return None;
    }
    assert(bytes@.skip(t as int)[0] == bytes@[t as int]);
    assert(bytes@.skip(t as int).drop_first() =~= bytes@.skip(t + 1));
    if bytes[t] == 0x7b {
        members_at(bytes, t + 1)
    } else if bytes[t] == 0x5b {
        elements_at(bytes, t + 1)
    } else {
        None
    }
}

/// `String::from_utf8`: succeeds exactly when the bytes are valid UTF-8, and
/// the string then holds the characters that the bytes encode.
#[verifier::external_body]
fn string_from_utf8(bytes: Vec<u8>) -> (r: Option<String>)
    ensures
        r is Some <==> valid_utf8(bytes@),
        r matches Some(s) ==> s@ == decode_utf8(bytes@),
{
    match String::from_utf8(bytes) {
        Ok(s) => Some(s),
        Err(_) => None,
    }
}

/// Decodes the plaintext of a secrets bundle as `serde_json::from_slice` reads
/// the bundle's struct: an object whose members come in any order (unknown
/// ones skipped, none twice, the customer key optional) or an array of the
/// members in order, with whitespace between tokens. Gives exactly the
/// bundle `parse_secrets` reads.
pub fn decode_secrets_json(bytes: &[u8]) -> (r: Option<SecretsBundle>)
    ensures
        match parse_secrets(bytes@) {
            None => r is None,
            Some(v) => r matches Some(b) && b@ == v,
        },
{
    let (n, s, l, c) = match decode_bundle_bytes(bytes) {
        Some(x) => x,
        None => return None,
    };
    let ghost bb = parse_bundle_bytes(bytes@)->0;
    let nostr = match string_from_utf8(n) {
        Some(x) => x,
        None => return None,
    };
    let solana = match string_from_utf8(s) {
        Some(x) => x,
        None => return None,
    };
    let llm = match string_from_utf8(l) {
        Some(x) => x,
        None => return None,
    };
    let customer = match c {
        None => None,
        Some(cv) => match string_from_utf8(cv) {
            Some(x) => Some(x),
            None => return None,
        },
    };
    Some(
        SecretsBundle {
            nostr_secret_key: nostr,
            solana_secret_key: solana,
            llm_api_key: llm,
            customer_llm_api_key: customer,
        },
    )
}

/// Decoding the encoding of a bundle gives the bundle back, and no two
/// bundles have the same encoding.
pub proof fn lemma_secrets_json_roundtrip(v: SecretsView)
    ensures
        parse_secrets(encode_secrets(v)) == Some(v),
        forall|w: SecretsView| encode_secrets(w) == encode_secrets(v) ==> w == v,
{
    lemma_parse_secrets_encode(v);
    assert forall|w: SecretsView| encode_secrets(w) == encode_secrets(v) implies w == v by {
        lemma_encode_secrets_injective(w, v);
    }
}

} // verus!
