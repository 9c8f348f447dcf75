//! Obfuscation for securely stored files: the text is masked with a
//! keystream drawn from a digest of the secret, and written as hexadecimal
//! digits. Masking twice with the same secret gives the text back, which is
//! proved below; the digits hide the plain text from a casual reader.

use vstd::prelude::*;
use crate::text::string_from_utf8;
use vstd::utf8::{encode_utf8, decode_utf8, valid_utf8, is_ascii_chars, is_ascii_chars_encode_utf8,
    encode_utf8_valid_utf8, encode_utf8_decode_utf8};
use sha2::Digest;

verus! {

/// What the SHA-256 digest of a byte sequence is; it depends on the bytes
/// alone.
pub uninterp spec fn sha256_of(bytes: Seq<u8>) -> Seq<u8>;

/// Relies on `sha2::Sha256::digest`: a function of the input bytes alone,
/// 32 bytes long.
#[verifier::external_body]
fn sha256(bytes: &Vec<u8>) -> (r: Vec<u8>)
    ensures
        r@ == sha256_of(bytes@),
        r@.len() == 32,
{
    sha2::Sha256::digest(bytes.as_slice()).to_vec()
}

/// Bytes masked against a repeating key.
pub open spec fn xor_with(data: Seq<u8>, key: Seq<u8>) -> Seq<u8>
    recommends
        key.len() > 0,
{
    Seq::new(data.len(), |i: int| data[i] ^ key[i % (key.len() as int)])
}

/// Masks bytes against a repeating key.
#[verifier::loop_isolation(false)]
fn xor_with_key(data: &Vec<u8>, key: &Vec<u8>) -> (r: Vec<u8>)
    requires
        key@.len() > 0,
    ensures
        r@ == xor_with(data@, key@),
{
    let n = data.len();
    let klen = key.len();
    let mut out: Vec<u8> = Vec::new();
    let mut i: usize = 0;
    while i < n
        invariant
            i <= n,
            out@.len() == i,
            forall|t: int| 0 <= t < i ==> out@[t] == data@[t] ^ key@[t % (klen as int)],
        decreases n - i,
    {
        out.push(data[i] ^ key[i % klen]);
        i = i + 1;
    }
    proof {
        assert(out@ =~= xor_with(data@, key@));
    }
    out
}

/// Masking twice with one key gives the bytes back.
pub proof fn lemma_xor_involutive(data: Seq<u8>, key: Seq<u8>)
    ensures
        xor_with(xor_with(data, key), key) == data,
{
    assert forall|i: int| 0 <= i < data.len() implies xor_with(xor_with(data, key), key)[i]
        == data[i] by {
        let d = data[i];
        let k = key[i % (key.len() as int)];
        assert((d ^ k) ^ k == d) by (bit_vector);
    }
    assert(xor_with(xor_with(data, key), key) =~= data);
}

/// The hexadecimal digit for a value below sixteen, as its byte.
pub open spec fn hex_digit_byte(n: u8) -> u8
    recommends
        n < 16,
{
    if n < 10 {
        (48 + n) as u8
    } else {
        (87 + n) as u8
    }
}

/// The hexadecimal digit for a value below sixteen, as a character.
pub open spec fn hex_digit(n: u8) -> char
    recommends
        n < 16,
{
    hex_digit_byte(n) as char
}

/// A byte sequence written out as lowercase hexadecimal digits.
pub open spec fn hex_of(bytes: Seq<u8>) -> Seq<char> {
    Seq::new(
        2 * bytes.len(),
        |j: int|
            if j % 2 == 0 {
                hex_digit(bytes[j / 2] / 16)
            } else {
                hex_digit(bytes[j / 2] % 16)
            },
    )
}

/// The value a hexadecimal digit stands for, if it is one.
pub open spec fn hex_val(c: char) -> Option<u8> {
    if '0' <= c <= '9' {
        Some((c as u8 - 48) as u8)
    } else if 'a' <= c <= 'f' {
        Some((c as u8 - 87) as u8)
    } else if 'A' <= c <= 'F' {
        Some((c as u8 - 55) as u8)
    } else {
        None
    }
}

/// The bytes a text of hexadecimal digits stands for, if every character is
/// a digit and their count is even.
pub open spec fn unhex(s: Seq<char>) -> Option<Seq<u8>> {
    if s.len() % 2 == 0 && (forall|i: int| 0 <= i < s.len() ==> hex_val(#[trigger] s[i]) is Some) {
        Some(
            Seq::new(
                s.len() / 2,
                |t: int| (16 * hex_val(s[2 * t]).unwrap() + hex_val(s[2 * t + 1]).unwrap()) as u8,
            ),
        )
    } else {
        None
    }
}

/// Every value below sixteen reads back from its digit.
pub proof fn lemma_hex_digit_val(n: u8)
    requires
        n < 16,
    ensures
        hex_val(hex_digit(n)) == Some(n),
{
}

/// Reading hexadecimal digits back gives the original bytes.
pub proof fn lemma_unhex_hex(bytes: Seq<u8>)
    ensures
        unhex(hex_of(bytes)) == Some(bytes),
{
    let s = hex_of(bytes);
    assert forall|i: int| 0 <= i < s.len() implies hex_val(#[trigger] s[i]) is Some by {
        if i % 2 == 0 {
            lemma_hex_digit_val(bytes[i / 2] / 16);
        } else {
            lemma_hex_digit_val(bytes[i / 2] % 16);
        }
    }
    let decoded = unhex(s).unwrap();
    assert forall|t: int| 0 <= t < bytes.len() implies decoded[t] == bytes[t] by {
        assert(s[2 * t] == hex_digit(bytes[t] / 16));
        assert(s[2 * t + 1] == hex_digit(bytes[t] % 16));
        lemma_hex_digit_val(bytes[t] / 16);
        lemma_hex_digit_val(bytes[t] % 16);
    }
    assert(decoded =~= bytes);
}

/// The digit for a value below sixteen.
fn hex_digit_exec(n: u8) -> (r: u8)
    requires
        n < 16,
    ensures
        r == hex_digit_byte(n),
{
    if n < 10 {
        48 + n
    } else {
        87 + n
    }
}

/// The value of a hexadecimal digit character, if it is one.
fn hex_val_exec(c: char) -> (r: Option<u8>)
    ensures
        r == hex_val(c),
        r matches Some(v) ==> v < 16,
{
    if c >= '0' && c <= '9' {
        Some(c as u8 - 48)
    } else if c >= 'a' && c <= 'f' {
        Some(c as u8 - 87)
    } else if c >= 'A' && c <= 'F' {
        Some(c as u8 - 55)
    } else {
        None
    }
}

/// Writes bytes out as lowercase hexadecimal digits.
#[verifier::loop_isolation(false)]
pub fn hex_encode(bytes: &Vec<u8>) -> (r: String)
    ensures
        r@ == hex_of(bytes@),
{
    let n = bytes.len();
    let mut out: Vec<u8> = Vec::new();
    let mut i: usize = 0;
    while i < n
        invariant
            i <= n,
            out@.len() == 2 * i,
            forall|t: int| 0 <= t < i ==> out@[2 * t] == hex_digit_byte(bytes@[t] / 16),
            forall|t: int| 0 <= t < i ==> out@[2 * t + 1] == hex_digit_byte(bytes@[t] % 16),
        decreases n - i,
    {
        let b = bytes[i];
        out.push(hex_digit_exec(b / 16));
        out.push(hex_digit_exec(b % 16));
        i = i + 1;
    }
    let ghost cs = hex_of(bytes@);
    proof {
        assert forall|j: int| 0 <= j < cs.len() implies '\0' <= #[trigger] cs[j] <= '\u{7f}' by {
            if j % 2 == 0 {
                assert(cs[j] == hex_digit(bytes@[j / 2] / 16));
            } else {
                assert(cs[j] == hex_digit(bytes@[j / 2] % 16));
            }
        }
        assert(is_ascii_chars(cs));
        is_ascii_chars_encode_utf8(cs);
        assert forall|j: int| 0 <= j < cs.len() implies encode_utf8(cs)[j] == out@[j] by {
            if j % 2 == 0 {
                assert(cs[j] == hex_digit(bytes@[j / 2] / 16));
                assert(out@[j] == hex_digit_byte(bytes@[j / 2] / 16));
            } else {
                assert(cs[j] == hex_digit(bytes@[j / 2] % 16));
                assert(out@[j] == hex_digit_byte(bytes@[j / 2] % 16));
            }
        }
        assert(out@ =~= encode_utf8(cs));
        encode_utf8_valid_utf8(cs);
    }
    match string_from_utf8(out) {
        Some(s) => {
            proof {
                encode_utf8_decode_utf8(cs);
            }
            s
        },
        None => {
            proof {
                assert(false);
            }
            String::new()
        },
    }
}

/// Reads lowercase or uppercase hexadecimal digits back into bytes.
#[verifier::loop_isolation(false)]
pub fn hex_decode(s: &str) -> (r: Option<Vec<u8>>)
    ensures
        r matches Some(v) ==> unhex(s@) == Some(v@),
        r is None ==> unhex(s@) is None,
{
    let n = s.unicode_len();
    if n % 2 != 0 {
        return None;
    }
    let half = n / 2;
    let mut out: Vec<u8> = Vec::new();
    let mut t: usize = 0;
    while t < half
        invariant
            t <= half,
            out@.len() == t,
            forall|j: int| 0 <= j < 2 * t ==> hex_val(#[trigger] s@[j]) is Some,
            forall|j: int| 0 <= j < t ==> out@[j] == (16 * hex_val(s@[2 * j]).unwrap() + hex_val(
                s@[2 * j + 1],
            ).unwrap()) as u8,
        decreases half - t,
    {
        let c1 = s.get_char(2 * t);
        let c2 = s.get_char(2 * t + 1);
        let v1 = match hex_val_exec(c1) {
            Some(v) => v,
            None => {
                return None;
            },
        };
        let v2 = match hex_val_exec(c2) {
            Some(v) => v,
            None => {
                return None;
            },
        };
        out.push(16 * v1 + v2);
        t = t + 1;
    }
    proof {
        let dec = unhex(s@);
        assert(dec matches Some(v) && v =~= out@);
    }
    Some(out)
}

/// The obfuscated form of a text under a secret: its bytes masked against
/// the digest of the secret's bytes, written as hexadecimal digits.
pub open spec fn obfuscated(plain: Seq<char>, secret: Seq<char>) -> Seq<char> {
    hex_of(xor_with(encode_utf8(plain), sha256_of(encode_utf8(secret))))
}

/// What reading an obfuscated text back under a secret yields: the masked
/// bytes unmasked, where they decode as text at all.
pub open spec fn deobfuscated(cipher: Seq<char>, secret: Seq<char>) -> Option<Seq<char>> {
    match unhex(cipher) {
        Some(x) => {
            let bytes = xor_with(x, sha256_of(encode_utf8(secret)));
            if valid_utf8(bytes) {
                Some(decode_utf8(bytes))
            } else {
                None
            }
        },
        None => None,
    }
}

/// Obfuscates a text under a secret.
pub fn obfuscate(plain: &str, secret: &str) -> (r: String)
    ensures
        r@ == obfuscated(plain@, secret@),
{
    let secret_bytes = secret.as_bytes_vec();
    let key = sha256(&secret_bytes);
    let data = plain.as_bytes_vec();
    let masked = xor_with_key(&data, &key);
    hex_encode(&masked)
}

/// Reads an obfuscated text back under a secret; digits that are no
/// hexadecimal text, or bytes that unmask to no text, read as nothing.
pub fn deobfuscate(cipher: &str, secret: &str) -> (r: Option<String>)
    ensures
        r matches Some(s) ==> deobfuscated(cipher@, secret@) == Some(s@),
        r is None <==> deobfuscated(cipher@, secret@) is None,
{
    let raw = match hex_decode(cipher) {
        Some(v) => v,
        None => {
            return None;
        },
    };
    let secret_bytes = secret.as_bytes_vec();
    let key = sha256(&secret_bytes);
    let unmasked = xor_with_key(&raw, &key);
    string_from_utf8(unmasked)
}

/// Obfuscating and then reading back under one secret gives the text back.
pub proof fn lemma_obfuscate_round_trip(plain: Seq<char>, secret: Seq<char>)
    ensures
        deobfuscated(obfuscated(plain, secret), secret) == Some(plain),
{
    let key = sha256_of(encode_utf8(secret));
    let masked = xor_with(encode_utf8(plain), key);
    lemma_unhex_hex(masked);
    lemma_xor_involutive(encode_utf8(plain), key);
    encode_utf8_valid_utf8(plain);
    encode_utf8_decode_utf8(plain);
}

} // verus!
