//! The encrypted form ("weapi") the web API takes its requests in, and what
//! decides whether a response was accepted.
//!
//! A request's JSON text is encrypted twice with AES-128-CBC and encoded in
//! base64, first under a fixed key and then under a random key made of 16
//! base-62 characters; that key, reversed and zero-padded, is encrypted with
//! the service's RSA public key without padding. The body carries both parts
//! as a URL query string.
use vstd::prelude::*;
use base64::Engine;
use crate::text;
use crate::json;
use crate::json::{Json, spec_get, spec_value_as_u64, spec_value_child_string};

verus! {

/// The initialisation vector of both AES passes.
pub const WEAPI_IV: &'static str = "0102030405060708";
/// The key of the first AES pass.
pub const WEAPI_PRESET_KEY: &'static str = "0CoJUm6Qyw8W8jud";
/// The characters a random key is made of.
pub const WEAPI_BASE62: &'static str = "abcdefghijklmnopqrstuvwxyzABCDEFGHIJKLMNOPQRSTUVWXYZ0123456789";
/// The service's RSA public key.
pub const WEAPI_RSA_PUBLIC_KEY: &'static str = "-----BEGIN PUBLIC KEY-----\nMIGfMA0GCSqGSIb3DQEBAQUAA4GNADCBiQKBgQDgtQn2JZ34ZC28NWYpAUd98iZ37BUrX/aKzmFbt7clFSs6sXqHauqKWqdtLkF2KexO40H1YTX8z2lSgBBOAxLsvaklV8k4cBFK9snQXE9/DDaFt6Rr7iVZMldczhC0JNgTz+SHXT6CBHuX3e9SdB1Ua44oncaTWz7OBGLbCiK45wIDAQAB\n-----END PUBLIC KEY-----";

/// The error stack OpenSSL reports a failure with.
#[verifier::external_type_specification]
#[verifier::external_body]
pub struct ExErrorStack(openssl::error::ErrorStack);

/// Why a web API request or its response was refused.
#[derive(Debug, Clone, PartialEq, Eq)]
pub enum WeapiError {
    /// An OpenSSL operation failed while the body was encrypted.
    Crypto,
    /// The service answered with a code other than 200, and this message.
    Api { code: u64, message: String },
}

/// The base64 digit of a six-bit value (standard alphabet).
pub open spec fn base64_digit(n: nat) -> char {
    if n < 26 {
        (('A' as u32) + n) as char
    } else if n < 52 {
        (('a' as u32) + (n - 26)) as char
    } else if n < 62 {
        (('0' as u32) + (n - 52)) as char
    } else if n == 62 {
        '+'
    } else {
        '/'
    }
}

/// Base64 with the standard alphabet and '=' padding (RFC 4648).
pub open spec fn base64_standard(d: Seq<u8>) -> Seq<char>
    decreases d.len(),
{
    if d.len() == 0 {
        Seq::empty()
    } else if d.len() == 1 {
        seq![base64_digit(d[0] as nat / 4), base64_digit((d[0] as nat % 4) * 16), '=', '=']
    } else if d.len() == 2 {
        seq![
            base64_digit(d[0] as nat / 4),
            base64_digit((d[0] as nat % 4) * 16 + d[1] as nat / 16),
            base64_digit((d[1] as nat % 16) * 4),
            '=',
        ]
    } else {
        seq![
            base64_digit(d[0] as nat / 4),
            base64_digit((d[0] as nat % 4) * 16 + d[1] as nat / 16),
            base64_digit((d[1] as nat % 16) * 4 + d[2] as nat / 64),
            base64_digit(d[2] as nat % 64),
        ] + base64_standard(d.skip(3))
    }
}

/// `base64::engine::general_purpose::STANDARD.encode`: the claim is that it
/// writes RFC 4648 base64 with the standard alphabet and padding.
#[verifier::external_body]
fn base64_encode(data: &[u8]) -> (r: String)
    requires
        data@.len() <= 0x3fff_ffff,
    ensures
        r@ == base64_standard(data@),
{
    base64::engine::general_purpose::STANDARD.encode(data)
}

/// Two lower-case hexadecimal digits per byte.
pub open spec fn hex_lower(d: Seq<u8>) -> Seq<char>
    decreases d.len(),
{
    if d.len() == 0 {
        Seq::empty()
    } else {
        hex_lower(d.drop_last()) + seq![
            json::hex_lower_digit(d.last() as nat / 16),
            json::hex_lower_digit(d.last() as nat % 16),
        ]
    }
}

/// `hex::encode`: the claim is that it writes two lower-case hexadecimal
/// digits per byte, in order.
#[verifier::external_body]
fn hex_encode(data: &[u8]) -> (r: String)
    ensures
        r@ == hex_lower(data@),
{
    hex::encode(data)
}

/// The AES-128-CBC encryption (PKCS#7 padding) of `data` under `key` and `iv`.
pub uninterp spec fn aes_128_cbc_encrypt(key: Seq<u8>, iv: Seq<u8>, data: Seq<u8>) -> Seq<u8>;

/// `openssl::symm::encrypt` with `Cipher::aes_128_cbc()`: the contract names
/// the ciphertext it returns, gives its length (PKCS#7 padding fills the last
/// 16-byte block, adding a whole block when the data fills its own), and says
/// nothing of when it fails. Key and IV
/// must be 16 bytes, and the lengths must fit OpenSSL's `int`.
#[verifier::external_body]
fn aes_128_cbc(key: &[u8], iv: &[u8], data: &[u8]) -> (r: Result<Vec<u8>, openssl::error::ErrorStack>)
    requires
        key@.len() == 16,
        iv@.len() == 16,
        data@.len() < 0x7fff_0000,
    ensures
        r matches Ok(c) ==> c@ == aes_128_cbc_encrypt(key@, iv@, data@) && c@.len() == (data@.len() / 16 + 1) * 16,
{
    openssl::symm::encrypt(openssl::symm::Cipher::aes_128_cbc(), key, Some(iv), data)
}

/// The raw (unpadded) RSA encryption of `data` with the public key of a PEM
/// document.
pub uninterp spec fn rsa_public_encrypt_raw(pem: Seq<u8>, data: Seq<u8>) -> Seq<u8>;

/// `Rsa::public_key_from_pem` followed by `public_encrypt` with
/// `Padding::NONE` into a buffer of the key's size, cut to the length
/// written: the contract names the ciphertext and says nothing of when it
/// fails.
#[verifier::external_body]
fn rsa_encrypt_no_padding(pem: &[u8], data: &[u8]) -> (r: Result<Vec<u8>, openssl::error::ErrorStack>)
    requires
        pem@.len() < 0x7fff_0000,
        data@.len() < 0x7fff_0000,
    ensures
        r matches Ok(c) ==> c@ == rsa_public_encrypt_raw(pem@, data@),
{
    let rsa = openssl::rsa::Rsa::public_key_from_pem(pem)?;
    let mut buf = vec![0u8; rsa.size() as usize];
    let size = rsa.public_encrypt(data, &mut buf, openssl::rsa::Padding::NONE)?;
    buf.truncate(size);
    Ok(buf)
}

/// `openssl::rand::rand_bytes` into a 16-byte buffer: the contract says only
/// that a success gives 16 bytes.
#[verifier::external_body]
fn random_16_bytes() -> (r: Result<Vec<u8>, openssl::error::ErrorStack>)
    ensures
        r matches Ok(b) ==> b@.len() == 16,
{
    let mut buf = [0u8; 16];
    openssl::rand::rand_bytes(&mut buf)?;
    Ok(buf.to_vec())
}

/// The bytes a URL query keeps as they are: ASCII letters and digits and
/// `* - . _ ' ~ ! ( )`.
pub open spec fn url_keeps(b: u8) -> bool {
    (0x30 <= b <= 0x39) || (0x41 <= b <= 0x5a) || (0x61 <= b <= 0x7a) || b == 0x2a || b == 0x2d
        || b == 0x2e || b == 0x5f || b == 0x27 || b == 0x7e || b == 0x21 || b == 0x28 || b == 0x29
}

/// An upper-case hexadecimal digit.
pub open spec fn hex_upper_digit(n: nat) -> char {
    if n < 10 { text::digit_char(n) } else { (('A' as u32) + (n - 10)) as char }
}

/// Bytes escaped for a URL query: kept bytes as they are, any other as `%`
/// and two upper-case hexadecimal digits.
pub open spec fn url_escape(d: Seq<u8>) -> Seq<char>
    decreases d.len(),
{
    if d.len() == 0 {
        Seq::empty()
    } else {
        let b = d.last();
        url_escape(d.drop_last()) + if url_keeps(b) {
            seq![b as char]
        } else {
            seq!['%', hex_upper_digit(b as nat / 16), hex_upper_digit(b as nat % 16)]
        }
    }
}

/// A URL query string of key-value pairs in order, each followed by '&';
/// an empty value is written as the bare key.
pub open spec fn query_string(pairs: Seq<(Seq<char>, Seq<char>)>) -> Seq<char>
    decreases pairs.len(),
{
    if pairs.len() == 0 {
        Seq::empty()
    } else {
        let p = pairs.last();
        query_string(pairs.drop_last()) + url_escape(vstd::utf8::encode_utf8(p.0)) + (if p.1.len() == 0 {
            Seq::empty()
        } else {
            seq!['='] + url_escape(vstd::utf8::encode_utf8(p.1))
        }) + seq!['&']
    }
}

/// `urlqstring::QueryParams::from(pairs).stringify()`: the claim is that it
/// writes the pairs in order as `key=value&` (`key&` for an empty value),
/// escaping each UTF-8 byte outside the kept set as `%XX`.
#[verifier::external_body]
fn query_stringify(pairs: &Vec<(String, String)>) -> (r: String)
    ensures
        r@ == query_string(json::pairs_view(pairs@)),
{
    let v: Vec<(&str, &str)> = pairs.iter().map(|p| (p.0.as_str(), p.1.as_str())).collect();
    urlqstring::QueryParams::from(v).stringify()
}

/// The bytes of a string.
pub open spec fn utf8(s: Seq<char>) -> Seq<u8> {
    vstd::utf8::encode_utf8(s)
}

/// The random key of the second AES pass: each random byte picks the base-62
/// character at its value modulo 62.
pub open spec fn weapi_key(secret: Seq<u8>) -> Seq<u8> {
    secret.map_values(|b: u8| utf8(WEAPI_BASE62@)[(b % 62) as int])
}

/// AES-128-CBC under `key` and the fixed IV, then base64.
pub open spec fn spec_aes_base64(data: Seq<u8>, key: Seq<u8>) -> Seq<char> {
    base64_standard(aes_128_cbc_encrypt(key, utf8(WEAPI_IV@), data))
}

/// The RSA part: the text, zero-padded on the left to 128 bytes, encrypted
/// with the service's public key and written in lower-case hexadecimal.
pub open spec fn spec_rsa_hex(data: Seq<u8>) -> Seq<char> {
    let pad: nat = if data.len() < 128 { (128 - data.len()) as nat } else { 0 };
    hex_lower(rsa_public_encrypt_raw(utf8(WEAPI_RSA_PUBLIC_KEY@), Seq::new(pad, |i: int| 0u8) + data))
}

/// The number a byte string stands for, most significant byte first.
pub open spec fn be_value(d: Seq<u8>) -> nat
    decreases d.len(),
{
    if d.len() == 0 { 0 } else { be_value(d.drop_last()) * 256 + d.last() as nat }
}

proof fn lemma_be_value_zeros(k: nat)
    ensures
        be_value(Seq::new(k, |i: int| 0u8)) == 0,
    decreases k,
{
    if k > 0 {
        assert(Seq::new(k, |i: int| 0u8).drop_last() =~= Seq::new((k - 1) as nat, |i: int| 0u8));
        lemma_be_value_zeros((k - 1) as nat);
    }
}

proof fn lemma_be_value_leading_zeros(k: nat, d: Seq<u8>)
    ensures
        be_value(Seq::new(k, |i: int| 0u8) + d) == be_value(d),
    decreases d.len(),
{
    let z = Seq::new(k, |i: int| 0u8);
    if d.len() == 0 {
        assert(z + d =~= z);
        lemma_be_value_zeros(k);
    } else {
        assert((z + d).drop_last() =~= z + d.drop_last());
        lemma_be_value_leading_zeros(k, d.drop_last());
    }
}

proof fn lemma_be_value_injective(a: Seq<u8>, b: Seq<u8>)
    requires
        a.len() == b.len(),
        be_value(a) == be_value(b),
    ensures
        a == b,
    decreases a.len(),
{
    if a.len() > 0 {
        let x = be_value(a.drop_last());
        let y = be_value(b.drop_last());
        let p = a.last() as int;
        let q = b.last() as int;
        assert(x * 256 + p == y * 256 + q);
        assert(x == y && p == q) by (nonlinear_arith)
            requires
                x * 256 + p == y * 256 + q,
                0 <= p < 256,
                0 <= q < 256,
                x >= 0,
                y >= 0,
        {
            if x < y {
                assert(x * 256 + 256 <= y * 256);
            } else if y < x {
                assert(y * 256 + 256 <= x * 256);
            }
        }
        lemma_be_value_injective(a.drop_last(), b.drop_last());
        assert(a =~= a.drop_last().push(a.last()));
        assert(b =~= b.drop_last().push(b.last()));
    }
}

/// The key part of a request body is the service's public key applied, with
/// no padding scheme, to the 128-byte block that stands for the same number
/// as the text (at most 128 bytes), so that decrypting it gives the text
/// back: for every 128-byte block of that value, the hexadecimal text is
/// that of its encryption.
pub proof fn law_rsa_block_value(data: Seq<u8>, block: Seq<u8>)
    requires
        data.len() <= 128,
        block.len() == 128,
        be_value(block) == be_value(data),
    ensures
        spec_rsa_hex(data) == hex_lower(rsa_public_encrypt_raw(utf8(WEAPI_RSA_PUBLIC_KEY@), block)),
{
    let pad: nat = if data.len() < 128 { (128 - data.len()) as nat } else { 0 };
    let padded = Seq::new(pad, |i: int| 0u8) + data;
    lemma_be_value_leading_zeros(pad, data);
    lemma_be_value_injective(padded, block);
}

/// The request body for a JSON text and 16 random bytes.
pub open spec fn spec_weapi_body(text: Seq<char>, secret: Seq<u8>) -> Seq<char> {
    let key = weapi_key(secret);
    let first = spec_aes_base64(utf8(text), utf8(WEAPI_PRESET_KEY@));
    let params = spec_aes_base64(utf8(first), key);
    let enc_sec_key = spec_rsa_hex(key.reverse());
    query_string(seq![("params"@, params), ("encSecKey"@, enc_sec_key)])
}

proof fn lemma_ascii_literals()
    ensures
        utf8(WEAPI_IV@).len() == 16,
        utf8(WEAPI_PRESET_KEY@).len() == 16,
        utf8(WEAPI_BASE62@).len() == 62,
        forall|i: int| 0 <= i < 62 ==> utf8(WEAPI_BASE62@)[i] < 0x80,
{
    reveal_strlit("0102030405060708");
    reveal_strlit("0CoJUm6Qyw8W8jud");
    reveal_strlit("abcdefghijklmnopqrstuvwxyzABCDEFGHIJKLMNOPQRSTUVWXYZ0123456789");
    assert(vstd::utf8::is_ascii_chars(WEAPI_IV@));
    assert(vstd::utf8::is_ascii_chars(WEAPI_PRESET_KEY@));
    assert(vstd::utf8::is_ascii_chars(WEAPI_BASE62@));
    vstd::utf8::is_ascii_chars_encode_utf8(WEAPI_IV@);
    vstd::utf8::is_ascii_chars_encode_utf8(WEAPI_PRESET_KEY@);
    vstd::utf8::is_ascii_chars_encode_utf8(WEAPI_BASE62@);
    assert forall|i: int| 0 <= i < 62 implies utf8(WEAPI_BASE62@)[i] < 0x80 by {
        assert(WEAPI_BASE62@[i] as u8 == utf8(WEAPI_BASE62@)[i]);
    }
}

/// AES-128-CBC under `key` and the fixed IV, then base64.
pub fn weapi_aes_base64(data: &str, key: &[u8]) -> (r: Result<String, WeapiError>)
    requires
        key@.len() == 16,
        utf8(data@).len() < 0x3fff_0000,
    ensures
        match r {
            Ok(s) => s@ == spec_aes_base64(utf8(data@), key@)
                && s@.len() == ((utf8(data@).len() / 16 + 1) * 16 + 2) / 3 * 4,
            Err(e) => e == WeapiError::Crypto,
        },
{
    proof { lemma_ascii_literals(); }
    let iv = WEAPI_IV.as_bytes();
    match aes_128_cbc(key, iv, data.as_bytes()) {
        Ok(cipher_text) => {
            proof { lemma_base64_ascii(cipher_text@); }
            Ok(base64_encode(cipher_text.as_slice()))
        },
        Err(_) => Err(WeapiError::Crypto),
    }
}

/// The RSA part of a request body for a (short) text.
pub fn weapi_rsa_encrypt(data: &str) -> (r: Result<String, WeapiError>)
    requires
        utf8(data@).len() < 0x7000_0000,
    ensures
        match r {
            Ok(s) => s@ == spec_rsa_hex(utf8(data@)),
            Err(e) => e == WeapiError::Crypto,
        },
{
    let bytes = data.as_bytes();
    let pad: usize = 128usize.saturating_sub(bytes.len());
    let mut padded: Vec<u8> = Vec::new();
    let mut i: usize = 0;
    while i < pad
        invariant
            i <= pad,
            padded@ == Seq::new(i as nat, |j: int| 0u8),
        decreases pad - i,
    {
        padded.push(0u8);
        i += 1;
        assert(padded@ =~= Seq::new(i as nat, |j: int| 0u8));
    }
    let mut k: usize = 0;
    while k < bytes.len()
        invariant
            k <= bytes.len(),
            padded@ == Seq::new(pad as nat, |j: int| 0u8) + bytes@.take(k as int),
        decreases bytes.len() - k,
    {
        padded.push(bytes[k]);
        k += 1;
        assert(padded@ =~= Seq::new(pad as nat, |j: int| 0u8) + bytes@.take(k as int));
    }
    assert(bytes@.take(bytes.len() as int) =~= bytes@);
    proof {
        reveal_strlit("-----BEGIN PUBLIC KEY-----\nMIGfMA0GCSqGSIb3DQEBAQUAA4GNADCBiQKBgQDgtQn2JZ34ZC28NWYpAUd98iZ37BUrX/aKzmFbt7clFSs6sXqHauqKWqdtLkF2KexO40H1YTX8z2lSgBBOAxLsvaklV8k4cBFK9snQXE9/DDaFt6Rr7iVZMldczhC0JNgTz+SHXT6CBHuX3e9SdB1Ua44oncaTWz7OBGLbCiK45wIDAQAB\n-----END PUBLIC KEY-----");
        assert(vstd::utf8::is_ascii_chars(WEAPI_RSA_PUBLIC_KEY@));
        vstd::utf8::is_ascii_chars_encode_utf8(WEAPI_RSA_PUBLIC_KEY@);
    }
    let pem = WEAPI_RSA_PUBLIC_KEY.as_bytes();
    match rsa_encrypt_no_padding(pem, padded.as_slice()) {
        Ok(c) => Ok(hex_encode(c.as_slice())),
        Err(_) => Err(WeapiError::Crypto),
    }
}

/// The request body for a JSON text, given the 16 random bytes its second key
/// is made from.
pub fn weapi_body_with_secret(text: &str, secret: &[u8]) -> (r: Result<String, WeapiError>)
    requires
        secret@.len() == 16,
        utf8(text@).len() < 0x2000_0000,
    ensures
        match r {
            Ok(s) => s@ == spec_weapi_body(text@, secret@),
            Err(e) => e == WeapiError::Crypto,
        },
{
    proof { lemma_ascii_literals(); }
    let table = WEAPI_BASE62.as_bytes();
    let mut key: Vec<u8> = Vec::new();
    let mut i: usize = 0;
    while i < secret.len()
        invariant
            i <= secret.len() == 16,
            table@ == utf8(WEAPI_BASE62@),
            table@.len() == 62,
            key@ == weapi_key(secret@.take(i as int)),
        decreases secret.len() - i,
    {
        key.push(table[(secret[i] % 62) as usize]);
        i += 1;
        assert(key@ =~= weapi_key(secret@.take(i as int)));
    }
    assert(secret@.take(16) =~= secret@);
    let first = match weapi_aes_base64(text, WEAPI_PRESET_KEY.as_bytes()) {
        Ok(s) => s,
        Err(e) => return Err(e),
    };
    proof {
        lemma_base64_ascii(aes_128_cbc_encrypt(utf8(WEAPI_PRESET_KEY@), utf8(WEAPI_IV@), utf8(text@)));
        let n = utf8(text@).len();
        assert(((n / 16 + 1) * 16 + 2) / 3 * 4 < 0x3fff_0000) by (nonlinear_arith)
            requires n < 0x2000_0000;
    }
    let params = match weapi_aes_base64(first.as_str(), key.as_slice()) {
        Ok(s) => s,
        Err(e) => return Err(e),
    };
    let mut reversed: Vec<char> = Vec::new();
    let mut j: usize = key.len();
    while j > 0
        invariant
            j <= key.len() == 16,
            key@ == weapi_key(secret@),
            forall|x: int| 0 <= x < 16 ==> key@[x] < 0x80,
            reversed@.len() == 16 - j,
            forall|x: int| 0 <= x < 16 - j ==> reversed@[x] == key@[15 - x] as char,
        decreases j,
    {
        j -= 1;
        reversed.push(key[j] as char);
    }
    let rev_text = text::string_from_chars(reversed.as_slice());
    proof {
        assert(vstd::utf8::is_ascii_chars(rev_text@));
        vstd::utf8::is_ascii_chars_encode_utf8(rev_text@);
        assert(utf8(rev_text@) =~= key@.reverse());
    }
    let enc_sec_key = match weapi_rsa_encrypt(rev_text.as_str()) {
        Ok(s) => s,
        Err(e) => return Err(e),
    };
    let mut pairs: Vec<(String, String)> = Vec::new();
    pairs.push((String::from_str("params"), params));
    pairs.push((String::from_str("encSecKey"), enc_sec_key));
    assert(json::pairs_view(pairs@) =~= seq![("params"@, spec_aes_base64(utf8(first@), key@)), ("encSecKey"@, spec_rsa_hex(key@.reverse()))]);
    Ok(query_stringify(&pairs))
}

proof fn lemma_base64_ascii(d: Seq<u8>)
    ensures
        vstd::utf8::is_ascii_chars(base64_standard(d)),
        utf8(base64_standard(d)).len() == base64_standard(d).len(),
        base64_standard(d).len() == (d.len() + 2) / 3 * 4,
    decreases d.len(),
{
    if d.len() >= 3 {
        lemma_base64_ascii(d.skip(3));
    }
    vstd::utf8::is_ascii_chars_encode_utf8(base64_standard(d));
}

/// The request body for a JSON text: 16 random bytes are drawn for the second
/// key. Whatever they are, a success is the body for those bytes.
pub fn weapi_body(text: &str) -> (r: Result<String, WeapiError>)
    requires
        utf8(text@).len() < 0x2000_0000,
    ensures
        match r {
            Ok(s) => exists|secret: Seq<u8>| secret.len() == 16 && s@ == spec_weapi_body(text@, secret),
            Err(e) => e == WeapiError::Crypto,
        },
{
    let secret = match random_16_bytes() {
        Ok(b) => b,
        Err(_) => return Err(WeapiError::Crypto),
    };
    let r = weapi_body_with_secret(text, secret.as_slice());
    proof {
        if r is Ok {
            assert(secret@.len() == 16 && r->Ok_0@ == spec_weapi_body(text@, secret@));
        }
    }
    r
}

/// The position of the first pair under `key`, from `k` on.
pub open spec fn first_key_from(pairs: Seq<(Seq<char>, Seq<char>)>, key: Seq<char>, k: int) -> Option<int>
    decreases pairs.len() - k,
{
    if k < 0 || k >= pairs.len() {
        None
    } else if pairs[k].0 == key {
        Some(k)
    } else {
        first_key_from(pairs, key, k + 1)
    }
}

/// A parameter list with `key` set to `value`: the first pair under the key
/// takes the value, or the pair is added at the end.
pub open spec fn with_param(pairs: Seq<(Seq<char>, Seq<char>)>, key: Seq<char>, value: Seq<char>) -> Seq<(Seq<char>, Seq<char>)> {
    match first_key_from(pairs, key, 0) {
        Some(i) => pairs.update(i, (key, value)),
        None => pairs.push((key, value)),
    }
}

proof fn lemma_first_key_from(pairs: Seq<(Seq<char>, Seq<char>)>, key: Seq<char>, k: int)
    ensures
        first_key_from(pairs, key, k) matches Some(i) ==> k <= i < pairs.len() && pairs[i].0 == key,
        (0 <= k && first_key_from(pairs, key, k) is None) ==> forall|j: int| k <= j < pairs.len() ==> pairs[j].0 != key,
    decreases pairs.len() - k,
{
    if 0 <= k < pairs.len() && pairs[k].0 != key {
        lemma_first_key_from(pairs, key, k + 1);
    }
}

/// Setting a parameter keeps the names of a parameter list distinct.
proof fn lemma_with_param_distinct(pairs: Seq<(Seq<char>, Seq<char>)>, key: Seq<char>, value: Seq<char>)
    requires
        json::keys_distinct(pairs),
    ensures
        json::keys_distinct(with_param(pairs, key, value)),
{
    lemma_first_key_from(pairs, key, 0);
    let w = with_param(pairs, key, value);
    assert forall|i: int, j: int| 0 <= i < j < w.len() implies #[trigger] w[i].0 != #[trigger] w[j].0 by {
        if j < pairs.len() {
            assert(w[i].0 == pairs[i].0 && w[j].0 == pairs[j].0);
        }
    }
}

/// The JSON text a request's parameters are sent as, with `csrf_token` set
/// to the session's token.
pub fn weapi_params_json(params: &Vec<(String, String)>, csrf: &str) -> (r: String)
    requires
        json::keys_distinct(json::pairs_view(params@)),
    ensures
        r@ == json::json_object_text(with_param(json::pairs_view(params@), "csrf_token"@, csrf@)),
{
    let ghost pv = json::pairs_view(params@);
    let key = "csrf_token";
    let mut found: Option<usize> = None;
    let mut i: usize = 0;
    while i < params.len()
        invariant_except_break
            found is None,
        invariant
            i <= params.len(),
            pv == json::pairs_view(params@),
            first_key_from(pv, key@, 0) == first_key_from(pv, key@, i as int),
        ensures
            match found {
                Some(f) => f < params.len() && first_key_from(pv, key@, 0) == Some(f as int),
                None => first_key_from(pv, key@, 0) is None,
            },
        decreases params.len() - i,
    {
        assert(pv[i as int].0 == params@[i as int].0@);
        if text::str_eq(params[i].0.as_str(), key) {
            found = Some(i);
            break;
        }
        i += 1;
    }
    let mut out: Vec<(String, String)> = Vec::new();
    let mut j: usize = 0;
    while j < params.len()
        invariant
            j <= params.len(),
            pv == json::pairs_view(params@),
            json::pairs_view(out@) == pv.take(j as int),
        decreases params.len() - j,
    {
        let ghost prev = json::pairs_view(out@);
        out.push((text::str_to_string(params[j].0.as_str()), text::str_to_string(params[j].1.as_str())));
        assert(json::pairs_view(out@) =~= prev.push(pv[j as int]));
        j += 1;
        assert(pv.take(j as int) =~= pv.take(j - 1).push(pv[j - 1]));
    }
    assert(pv.take(params.len() as int) =~= pv);
    let ghost before = json::pairs_view(out@);
    match found {
        Some(f) => {
            out.set(f, (text::str_to_string(key), text::str_to_string(csrf)));
            assert(json::pairs_view(out@) =~= before.update(f as int, (key@, csrf@)));
        },
        None => {
            out.push((text::str_to_string(key), text::str_to_string(csrf)));
            assert(json::pairs_view(out@) =~= before.push((key@, csrf@)));
        },
    }
    proof { lemma_with_param_distinct(pv, key@, csrf@); }
    json::string_object_to_json(&out)
}

/// A response's code (200 when it has none) and, when it is not 200, its
/// `message` (or `msg` when that is empty).
pub open spec fn spec_response_error(v: Json) -> Option<(u64, Seq<char>)> {
    let code = match spec_get(v, "code"@) {
        Some(x) => match spec_value_as_u64(x) {
            Some(n) => n,
            None => 200,
        },
        None => 200,
    };
    if code == 200 {
        None
    } else {
        let message = spec_value_child_string(v, "message"@);
        Some((code, if message.len() > 0 { message } else { spec_value_child_string(v, "msg"@) }))
    }
}

/// Accepts a response whose code is 200 (or missing); refuses any other with
/// its code and message.
pub fn check_weapi_response(value: &Json) -> (r: Result<(), WeapiError>)
    ensures
        match spec_response_error(*value) {
            None => r is Ok,
            Some(e) => r matches Err(WeapiError::Api { code, message }) && code == e.0 && message@ == e.1,
        },
{
    let code: u64 = match json::child_u64(value, "code") {
        Some(n) => n,
        None => 200,
    };
    if code == 200 {
        return Ok(());
    }
    let message = json::value_child_string(value, "message");
    let message = if message.as_str().unicode_len() > 0 { message } else { json::value_child_string(value, "msg") };
    Err(WeapiError::Api { code, message })
}

/// The text of a refused request: `网易云接口返回 code <code>: <message>`.
pub fn weapi_error_text(e: &WeapiError) -> (r: String)
    ensures
        match e {
            WeapiError::Api { code, message } => r@ == "网易云接口返回 code "@ + text::decimal(*code as nat) + ": "@ + message@,
            WeapiError::Crypto => r@ == "加密请求失败"@,
        },
{
    match e {
        WeapiError::Api { code, message } => {
            let mut out = String::from_str("网易云接口返回 code ");
            let digits = text::u64_to_string(*code);
            out.append(digits.as_str());
            out.append(": ");
            out.append(message.as_str());
            out
        },
        WeapiError::Crypto => String::from_str("加密请求失败"),
    }
}

} // verus!
