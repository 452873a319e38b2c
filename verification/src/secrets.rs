//! Secrets: comparing them, hashing them and drawing new ones.

use base64::Engine;
use rand::RngCore;
use sha2::Digest;
use vstd::arithmetic::div_mod::*;
use vstd::prelude::*;
use vstd::utf8::*;

verus! {

/// The SHA-256 digest of some bytes.
pub uninterp spec fn sha256(data: Seq<u8>) -> Seq<u8>;

/// Calls `sha2::Sha256::digest`. The digest depends on the data alone.
#[verifier::external_body]
fn sha256_digest(data: &[u8]) -> (digest: [u8; 32])
    ensures
        digest@ == sha256(data@),
{
    sha2::Sha256::digest(data).into()
}

/// The digest under which a token is kept.
pub open spec fn token_digest(token: Seq<char>) -> Seq<u8> {
    sha256(encode_utf8(token))
}

/// Hashes a token.
pub fn hash_token(token: &str) -> (digest: [u8; 32])
    ensures
        digest@ == token_digest(token@),
{
    sha256_digest(token.as_bytes())
}

/// Compares two byte strings. Where the lengths agree, every byte is looked at, wherever the
/// first difference is.
pub fn constant_time_eq(left: &[u8], right: &[u8]) -> (same: bool)
    ensures
        same == (left@ == right@),
{
    if left.len() != right.len() {
        return false;
    }
    let mut diff: u8 = 0;
    assert(left@.take(0) =~= right@.take(0));
    for i in 0..left.len()
        invariant
            left@.len() == right@.len(),
            diff == 0 <==> left@.take(i as int) == right@.take(i as int),
    {
        let a: u8 = left[i];
        let b: u8 = right[i];
        let ghost before = diff;
        diff = diff | (a ^ b);
        proof {
            assert((before | (a ^ b)) == 0 <==> before == 0 && a == b) by (bit_vector);
            let l = left@.take(i + 1);
            let r = right@.take(i + 1);
            assert(l =~= left@.take(i as int).push(a));
            assert(r =~= right@.take(i as int).push(b));
            assert(l.drop_last() =~= left@.take(i as int));
            assert(r.drop_last() =~= right@.take(i as int));
            assert(l.last() == a && r.last() == b);
        }
    }
    assert(left@.take(left@.len() as int) =~= left@);
    assert(right@.take(right@.len() as int) =~= right@);
    diff == 0
}

/// The `i`-th group of six bits of `bytes`, with zeros behind the last byte.
pub open spec fn sextet(bytes: Seq<u8>, i: int) -> int {
    let at = 6 * i / 8;
    let next = if at + 1 < bytes.len() {
        bytes[at + 1] as int
    } else {
        0
    };
    let window = bytes[at] * 256 + next;
    let offset = 6 * i % 8;
    if offset == 0 {
        window / 1024 % 64
    } else if offset == 2 {
        window / 256 % 64
    } else if offset == 4 {
        window / 64 % 64
    } else {
        window / 16 % 64
    }
}

/// The character for a group of six bits: letters, digits, `-` and `_`.
pub open spec fn url_safe_char(sextet: int) -> char {
    if sextet < 26 {
        (65 + sextet) as char
    } else if sextet < 52 {
        (97 + sextet - 26) as char
    } else if sextet < 62 {
        (48 + sextet - 52) as char
    } else if sextet == 62 {
        '-'
    } else {
        '_'
    }
}

/// The number of characters that encode `n` bytes.
pub open spec fn encoded_len(n: nat) -> nat {
    (4 * n + 2) / 3
}

/// The URL-safe base64 encoding of `bytes`, without padding.
pub open spec fn url_safe_encoding(bytes: Seq<u8>) -> Seq<char> {
    Seq::new(encoded_len(bytes.len()), |i: int| url_safe_char(sextet(bytes, i)))
}

/// Calls `base64::engine::general_purpose::URL_SAFE_NO_PAD.encode`: six bits to a character of
/// the alphabet `A`-`Z`, `a`-`z`, `0`-`9`, `-`, `_`, the last group filled up with zeros, and no
/// padding characters. The encoding must fit in memory.
#[verifier::external_body]
fn encode_url_safe(bytes: &[u8]) -> (text: String)
    requires
        encoded_len(bytes@.len()) <= isize::MAX,
    ensures
        text@ == url_safe_encoding(bytes@),
{
    base64::engine::general_purpose::URL_SAFE_NO_PAD.encode(bytes)
}

/// Calls `fill_bytes` on `rand::rng()`, the generator of the thread, which overwrites every byte
/// of the buffer. Of the bytes nothing is known. Where the system has no entropy to seed the
/// generator with, it panics; no argument decides that.
#[verifier::external_body]
fn fill_random(buffer: &mut Vec<u8>)
    ensures
        final(buffer)@.len() == old(buffer)@.len(),
{
    rand::rng().fill_bytes(buffer);
}

/// Whether `text` encodes `count` bytes.
pub open spec fn is_secret(text: Seq<char>, count: nat) -> bool {
    exists|bytes: Seq<u8>| bytes.len() == count && text == #[trigger] url_safe_encoding(bytes)
}

/// Draws `bytes` random bytes and encodes them.
pub fn random_secret(bytes: usize) -> (secret: String)
    requires
        encoded_len(bytes as nat) <= isize::MAX,
    ensures
        is_secret(secret@, bytes as nat),
{
    let mut random: Vec<u8> = vec![0u8; bytes];
    fill_random(&mut random);
    encode_secret(&random)
}

/// Encodes the bytes of a secret as text that is safe in URLs and cookies.
pub fn encode_secret(bytes: &Vec<u8>) -> (secret: String)
    requires
        encoded_len(bytes@.len()) <= isize::MAX,
    ensures
        secret@ == url_safe_encoding(bytes@),
{
    encode_url_safe(bytes.as_slice())
}

/// Whether `c` is one of the characters that encodings are made of.
pub open spec fn is_url_safe(c: char) -> bool {
    ||| 'A' <= c <= 'Z'
    ||| 'a' <= c <= 'z'
    ||| '0' <= c <= '9'
    ||| c == '-'
    ||| c == '_'
}

/// Whether `text` is made of letters, digits, `-` and `_` alone.
pub open spec fn all_url_safe(text: Seq<char>) -> bool {
    forall|i: int| 0 <= i < text.len() ==> is_url_safe(#[trigger] text[i])
}

/// A secret of `count` bytes has a fixed length and holds only characters that are safe in URLs
/// and cookies.
pub proof fn law_secret_is_url_safe(text: Seq<char>, count: nat)
    requires
        is_secret(text, count),
    ensures
        text.len() == encoded_len(count),
        all_url_safe(text),
{
    let bytes = choose|bytes: Seq<u8>|
        bytes.len() == count && text == #[trigger] url_safe_encoding(bytes);
    assert forall|i: int| 0 <= i < text.len() implies is_url_safe(#[trigger] text[i]) by {
        assert(0 <= sextet(bytes, i) < 64);
    }
}

/// The value of a character of an encoding: the group of six bits that it stands for.
pub open spec fn six_bits(c: char) -> int {
    if 'A' <= c <= 'Z' {
        c as int - 65
    } else if 'a' <= c <= 'z' {
        c as int - 71
    } else if '0' <= c <= '9' {
        c as int + 4
    } else if c == '-' {
        62
    } else {
        63
    }
}

proof fn lemma_six_bits(bytes: Seq<u8>, i: int)
    requires
        0 <= i < encoded_len(bytes.len()),
    ensures
        0 <= sextet(bytes, i) < 64,
        six_bits(url_safe_encoding(bytes)[i]) == sextet(bytes, i),
{
    let s = sextet(bytes, i);
    assert(0 <= s < 64);
    assert(url_safe_encoding(bytes)[i] == url_safe_char(s));
}

#[verifier::spinoff_prover]
proof fn lemma_first_window(b: int, n: int)
    requires
        0 <= b < 256,
        0 <= n < 256,
    ensures
        (b * 256 + n) / 1024 % 64 == b / 4,
        (b * 256 + n) / 16 % 64 / 16 == b % 4,
{
    let (q, r) = (b / 4, b % 4);
    let (h, l) = (n / 16, n % 16);
    lemma_fundamental_div_mod_converse(b * 256 + n, 1024, q, r * 256 + n);
    lemma_fundamental_div_mod_converse(b * 256 + n, 16, b * 16 + h, l);
    lemma_fundamental_div_mod_converse(b * 16 + h, 64, q, r * 16 + h);
    lemma_fundamental_div_mod_converse(r * 16 + h, 16, r, h);
}

#[verifier::spinoff_prover]
proof fn lemma_second_window(p: int, b: int, n: int)
    requires
        0 <= p < 256,
        0 <= b < 256,
        0 <= n < 256,
    ensures
        (p * 256 + b) / 16 % 64 % 16 == b / 16,
        (b * 256 + n) / 64 % 64 / 4 == b % 16,
{
    let (u, v) = (p / 4, p % 4);
    let (q, r) = (b / 16, b % 16);
    let (h, l) = (n / 64, n % 64);
    lemma_fundamental_div_mod_converse(p * 256 + b, 16, p * 16 + q, r);
    lemma_fundamental_div_mod_converse(p * 16 + q, 64, u, v * 16 + q);
    lemma_fundamental_div_mod_converse(v * 16 + q, 16, v, q);
    lemma_fundamental_div_mod_converse(b * 256 + n, 64, b * 4 + h, l);
    lemma_fundamental_div_mod_converse(b * 4 + h, 64, q, r * 4 + h);
    lemma_fundamental_div_mod_converse(r * 4 + h, 4, r, h);
}

#[verifier::spinoff_prover]
proof fn lemma_third_window(p: int, b: int, n: int)
    requires
        0 <= p < 256,
        0 <= b < 256,
        0 <= n < 256,
    ensures
        (p * 256 + b) / 64 % 64 % 4 == b / 64,
        (b * 256 + n) / 256 % 64 == b % 64,
{
    let (u, v) = (p / 16, p % 16);
    let (q, r) = (b / 64, b % 64);
    lemma_fundamental_div_mod_converse(p * 256 + b, 64, p * 4 + q, r);
    lemma_fundamental_div_mod_converse(p * 4 + q, 64, u, v * 4 + q);
    lemma_fundamental_div_mod_converse(v * 4 + q, 4, v, q);
    lemma_fundamental_div_mod_converse(b * 256 + n, 256, b, n);
}

#[verifier::spinoff_prover]
proof fn lemma_place(j: int)
    requires
        0 <= j,
    ensures
        ({
            let at = 4 * j / 3;
            &&& j % 3 == 0 ==> 6 * at / 8 == j && 6 * at % 8 == 0 && 6 * (at + 1) / 8 == j && 6 * (at
                + 1) % 8 == 6
            &&& j % 3 == 1 ==> 6 * at / 8 == j - 1 && 6 * at % 8 == 6 && 6 * (at + 1) / 8 == j && 6
                * (at + 1) % 8 == 4
            &&& j % 3 == 2 ==> 6 * at / 8 == j - 1 && 6 * at % 8 == 4 && 6 * (at + 1) / 8 == j && 6
                * (at + 1) % 8 == 2
        }),
{
    let q = j / 3;
    let r = j % 3;
    let at = 4 * q + r;
    lemma_fundamental_div_mod_converse(4 * j, 3, at, r);
    if r == 0 {
        lemma_fundamental_div_mod_converse(6 * at, 8, j, 0);
        lemma_fundamental_div_mod_converse(6 * (at + 1), 8, j, 6);
    } else if r == 1 {
        lemma_fundamental_div_mod_converse(6 * at, 8, j - 1, 6);
        lemma_fundamental_div_mod_converse(6 * (at + 1), 8, j, 4);
    } else {
        lemma_fundamental_div_mod_converse(6 * at, 8, j - 1, 4);
        lemma_fundamental_div_mod_converse(6 * (at + 1), 8, j, 2);
    }
}

/// No bit of a secret is lost in its encoding: every byte can be read back from two characters that
/// stand next to each other. So different bytes have different encodings.
pub proof fn law_encoding_can_be_read_back(bytes: Seq<u8>, j: int)
    requires
        0 <= j < bytes.len(),
    ensures
        ({
            let text = url_safe_encoding(bytes);
            let at = 4 * j / 3;
            let left = six_bits(text[at]);
            let right = six_bits(text[at + 1]);
            &&& at + 1 < text.len()
            &&& j % 3 == 0 ==> bytes[j] == left * 4 + right / 16
            &&& j % 3 == 1 ==> bytes[j] == left % 16 * 16 + right / 4
            &&& j % 3 == 2 ==> bytes[j] == left % 4 * 64 + right
        }),
{
    let at = 4 * j / 3;
    assert(at + 1 < encoded_len(bytes.len()));
    lemma_six_bits(bytes, at);
    lemma_six_bits(bytes, at + 1);
    let before = if j > 0 {
        bytes[j - 1] as int
    } else {
        0
    };
    let next = if j + 1 < bytes.len() {
        bytes[j + 1] as int
    } else {
        0
    };
    lemma_place(j);
    let b = bytes[j] as int;
    if j % 3 == 0 {
        lemma_first_window(b, next);
    } else if j % 3 == 1 {
        lemma_second_window(before, b, next);
    } else {
        lemma_third_window(before, b, next);
    }
}

/// An encoding is as short as six bits to a character allow, and a secret is an encoding of as many
/// bytes as were drawn.
pub proof fn law_secrets_are_as_long_as_was_asked(text: Seq<char>, count: nat) -> (bytes: Seq<u8>)
    requires
        is_secret(text, count),
    ensures
        bytes.len() == count,
        text == url_safe_encoding(bytes),
        8 * count <= 6 * text.len() < 8 * count + 6,
{
    choose|bytes: Seq<u8>| bytes.len() == count && text == #[trigger] url_safe_encoding(bytes)
}

/// The digest of a token is that of its UTF-8 bytes, all of them.
pub proof fn law_token_digest_is_that_of_the_whole_token(token: Seq<char>)
    ensures
        token_digest(token) == sha256(encode_utf8(token)),
{
}

} // verus!
