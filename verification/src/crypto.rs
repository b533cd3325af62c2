//! Encryption of session logs at rest: PBKDF2-derived AES-256-GCM keys,
//! and a text envelope `hex(salt):hex(nonce):hex(ciphertext)`.

use vstd::prelude::*;
use vstd::utf8::{decode_utf8, encode_utf8, is_char_boundary, valid_utf8};
use ring::rand::SecureRandom;
use crate::ai_bridge::pieces_whole;
use crate::text::{digit_char, push_str};

verus! {

/// Iterations of PBKDF2 in key derivation.
pub const PBKDF2_ITERATIONS: u32 = 100000;
/// Length of the random salt, in bytes.
pub const SALT_LEN: usize = 32;
/// Length of the random nonce, in bytes.
pub const NONCE_LEN: usize = 12;
/// Length of a derived key, in bytes.
pub const KEY_LEN: usize = 32;

// ---------------------------------------------------------------------
// Outside primitives.
// ---------------------------------------------------------------------

/// The key that PBKDF2 with HMAC-SHA512 derives from `secret` and `salt`
/// in `iterations` rounds, `len` bytes long.
pub uninterp spec fn pbkdf2_hmac_sha512(iterations: u32, salt: Seq<u8>, secret: Seq<u8>, len: usize) -> Seq<u8>;

/// The AES-256-GCM sealing of `plaintext` under `key` and `nonce` with no
/// additional data: the ciphertext followed by the tag.
pub uninterp spec fn aes256_gcm_sealed(key: Seq<u8>, nonce: Seq<u8>, plaintext: Seq<u8>) -> Seq<u8>;

/// What `{:?}` prints for the error of `String::from_utf8` on `bytes`.
pub uninterp spec fn utf8_error_debug(bytes: Seq<u8>) -> Seq<char>;

/// Calls `ring::pbkdf2::derive` with `PBKDF2_HMAC_SHA512` into a buffer of
/// `len` bytes. The key is named by `pbkdf2_hmac_sha512` of the arguments;
/// its length is `len`. `derive` panics for a zero iteration count (here
/// excluded) and for outputs beyond `u32::MAX` digest lengths.
#[verifier::external_body]
fn pbkdf2_sha512(iterations: u32, salt: &[u8], secret: &[u8], len: usize) -> (key: Vec<u8>)
    requires
        iterations > 0,
        len <= 64,
    ensures
        key@ == pbkdf2_hmac_sha512(iterations, salt@, secret@, len),
        key@.len() == len,
{
    let mut out = vec![0u8; len];
    ring::pbkdf2::derive(
        ring::pbkdf2::PBKDF2_HMAC_SHA512,
        std::num::NonZeroU32::new(iterations).unwrap(),
        salt,
        secret,
        &mut out,
    );
    out
}

/// Calls `ring::rand::SystemRandom::fill` on a buffer of `len` bytes.
/// The bytes are random: only their number is stated; `None` stands for
/// the generator's error.
#[verifier::external_body]
fn random_bytes(len: usize) -> (r: Option<Vec<u8>>)
    ensures
        r matches Some(v) ==> v@.len() == len,
{
    let mut out = vec![0u8; len];
    match ring::rand::SystemRandom::new().fill(&mut out) {
        Ok(()) => Some(out),
        Err(_) => None,
    }
}

/// The longest plaintext that ring seals with AES-GCM in one call:
/// `(2^32 - 2)` blocks of 16 bytes (its `MAX_IN_OUT_LEN`).
pub open spec fn aes_gcm_max_input() -> nat {
    68719476704
}

/// Calls `LessSafeKey::seal_in_place_append_tag` for AES-256-GCM with the
/// key `key`, the nonce `nonce` and empty additional data. A result is
/// the sealing named by `aes256_gcm_sealed`, 16 bytes (the tag) longer
/// than the plaintext. `None` stands for ring's error, which comes only
/// for a key that is not 32 bytes long or a plaintext beyond
/// `aes_gcm_max_input`. Distinct
/// plaintexts never seal to the same bytes under one key and nonce (the
/// counter-mode cipher is a bijection).
#[verifier::external_body]
fn aes256_gcm_seal(key: &[u8], nonce: &[u8], plaintext: &[u8]) -> (r: Option<Vec<u8>>)
    requires
        nonce@.len() == 12,
    ensures
        r matches Some(c) ==> c@ == aes256_gcm_sealed(key@, nonce@, plaintext@) && c@.len()
            == plaintext@.len() + 16,
        r matches Some(c) ==> forall|q: Seq<u8>| aes256_gcm_sealed(key@, nonce@, q) == c@ ==> q == plaintext@,
        key@.len() != 32 ==> r is None,
        key@.len() == 32 && plaintext@.len() <= aes_gcm_max_input() ==> r is Some,
{
    let unbound = match ring::aead::UnboundKey::new(&ring::aead::AES_256_GCM, key) {
        Ok(k) => k,
        Err(_) => return None,
    };
    let sealing = ring::aead::LessSafeKey::new(unbound);
    let n = ring::aead::Nonce::assume_unique_for_key(nonce.try_into().unwrap());
    let mut in_out = plaintext.to_vec();
    match sealing.seal_in_place_append_tag(n, ring::aead::Aad::empty(), &mut in_out) {
        Ok(()) => Some(in_out),
        Err(_) => None,
    }
}

/// Calls `LessSafeKey::open_in_place` for AES-256-GCM with the key `key`,
/// the nonce `nonce` and empty additional data. Opening succeeds exactly
/// on a sealing under the same 32-byte key and nonce, and gives back the
/// plaintext that was sealed: the tag authenticates the ciphertext, and
/// the counter-mode cipher is a bijection for a given key and nonce.
#[verifier::external_body]
fn aes256_gcm_open(key: &[u8], nonce: &[u8], ciphertext: &[u8]) -> (r: Option<Vec<u8>>)
    requires
        nonce@.len() == 12,
    ensures
        r matches Some(q) ==> key@.len() == 32 && ciphertext@ == aes256_gcm_sealed(key@, nonce@, q@),
        r matches Some(q) ==> forall|p: Seq<u8>| ciphertext@ == aes256_gcm_sealed(key@, nonce@, p) ==> p == q@,
        r is None && key@.len() == 32 ==> forall|p: Seq<u8>| ciphertext@ != aes256_gcm_sealed(key@, nonce@, p),
{
    let unbound = match ring::aead::UnboundKey::new(&ring::aead::AES_256_GCM, key) {
        Ok(k) => k,
        Err(_) => return None,
    };
    let opening = ring::aead::LessSafeKey::new(unbound);
    let n = ring::aead::Nonce::assume_unique_for_key(nonce.try_into().unwrap());
    let mut in_out = ciphertext.to_vec();
    match opening.open_in_place(n, ring::aead::Aad::empty(), &mut in_out) {
        Ok(plain) => Some(plain.to_vec()),
        Err(_) => None,
    }
}

/// Calls `String::from_utf8`: a string exactly when the bytes are valid
/// UTF-8, holding the characters they encode; otherwise the error's
/// `{:?}` text, named by `utf8_error_debug`.
#[verifier::external_body]
pub(crate) fn string_from_utf8(bytes: Vec<u8>) -> (r: Result<String, String>)
    ensures
        r is Ok <==> valid_utf8(bytes@),
        r matches Ok(s) ==> s@ == decode_utf8(bytes@),
        r matches Err(e) ==> e@ == utf8_error_debug(bytes@),
{
    match String::from_utf8(bytes) {
        Ok(s) => Ok(s),
        Err(e) => Err(format!("{:?}", e)),
    }
}

// ---------------------------------------------------------------------
// Hex text.
// ---------------------------------------------------------------------

/// The lower-case hex digit for `d < 16`.
pub open spec fn hex_digit(d: nat) -> char {
    if d < 10 {
        digit_char(d)
    } else if d == 10 {
        'a'
    } else if d == 11 {
        'b'
    } else if d == 12 {
        'c'
    } else if d == 13 {
        'd'
    } else if d == 14 {
        'e'
    } else {
        'f'
    }
}

/// Two lower-case hex digits per byte, high nibble first.
pub open spec fn hex_of(b: Seq<u8>) -> Seq<char>
    decreases b.len(),
{
    if b.len() == 0 {
        Seq::empty()
    } else {
        hex_of(b.drop_last()) + seq![hex_digit(b.last() as nat / 16), hex_digit(b.last() as nat % 16)]
    }
}

/// The value of a hex digit byte (either case).
pub open spec fn hex_value(c: u8) -> Option<nat> {
    if '0' as u8 <= c && c <= '9' as u8 {
        Some((c - '0' as u8) as nat)
    } else if 'a' as u8 <= c && c <= 'f' as u8 {
        Some((c - 'a' as u8 + 10) as nat)
    } else if 'A' as u8 <= c && c <= 'F' as u8 {
        Some((c - 'A' as u8 + 10) as nat)
    } else {
        None
    }
}

/// The byte that a two-byte piece reads as in base 16: two hex digits,
/// or a `+` sign and one digit (as `u8::from_str_radix` allows).
pub open spec fn pair_value(b0: u8, b1: u8) -> Option<u8> {
    if b0 == '+' as u8 {
        match hex_value(b1) {
            Some(v) => Some(v as u8),
            None => None,
        }
    } else {
        match (hex_value(b0), hex_value(b1)) {
            (Some(h), Some(l)) => Some((16 * h + l) as u8),
            _ => None,
        }
    }
}

/// The bytes that consecutive two-byte pieces read as, if all of them do.
pub open spec fn decode_pairs(b: Seq<u8>) -> Option<Seq<u8>>
    decreases b.len(),
{
    if b.len() < 2 {
        Some(Seq::empty())
    } else {
        match pair_value(b[0], b[1]) {
            None => None,
            Some(v) => match decode_pairs(b.skip(2)) {
                Some(r) => Some(seq![v] + r),
                None => None,
            },
        }
    }
}

pub open spec fn hex_error_message() -> Seq<char> {
    "Hex error: ParseIntError { kind: InvalidDigit }"@
}

/// What hex text (given by its UTF-8 bytes) decodes to, or the message.
pub open spec fn hex_decoded(b: Seq<u8>) -> Result<Seq<u8>, Seq<char>> {
    if b.len() % 2 != 0 {
        Err("Invalid hex length"@)
    } else {
        match decode_pairs(b) {
            Some(r) => Ok(r),
            None => Err(hex_error_message()),
        }
    }
}

/// Whether hex text can be cut into two-byte pieces without cutting a
/// character: decoding takes the text apart at every even byte offset.
pub open spec fn hex_pieces_whole(b: Seq<u8>) -> bool {
    b.len() % 2 != 0 || forall|i: int| 0 <= i <= b.len() && i % 2 == 0 ==> is_char_boundary(b, i)
}

fn hex_nibble(d: u8) -> (c: char)
    requires
        d < 16,
    ensures
        c == hex_digit(d as nat),
{
    if d < 10 {
        if d == 0 {
            '0'
        } else if d == 1 {
            '1'
        } else if d == 2 {
            '2'
        } else if d == 3 {
            '3'
        } else if d == 4 {
            '4'
        } else if d == 5 {
            '5'
        } else if d == 6 {
            '6'
        } else if d == 7 {
            '7'
        } else if d == 8 {
            '8'
        } else {
            '9'
        }
    } else if d == 10 {
        'a'
    } else if d == 11 {
        'b'
    } else if d == 12 {
        'c'
    } else if d == 13 {
        'd'
    } else if d == 14 {
        'e'
    } else {
        'f'
    }
}

/// Lower-case hex text of `bytes`, two digits per byte.
pub fn hex_encode(bytes: &[u8]) -> (s: String)
    ensures
        s@ == hex_of(bytes@),
{
    let mut s = String::new();
    let mut i: usize = 0;
    assert(bytes@.take(0) =~= Seq::<u8>::empty());
    while i < bytes.len()
        invariant
            i <= bytes@.len(),
            s@ == hex_of(bytes@.take(i as int)),
        decreases bytes@.len() - i,
    {
        let b = bytes[i];
        s.push(hex_nibble(b / 16));
        s.push(hex_nibble(b % 16));
        assert(bytes@.take(i + 1).drop_last() =~= bytes@.take(i as int));
        assert(s@ =~= hex_of(bytes@.take(i + 1)));
        i = i + 1;
    }
    assert(bytes@.take(bytes@.len() as int) =~= bytes@);
    s
}

fn hex_value_exec(c: u8) -> (r: Option<u8>)
    ensures
        match hex_value(c) {
            Some(v) => r matches Some(x) && x as nat == v,
            None => r is None,
        },
{
    if 48 <= c && c <= 57 {
        Some(c - 48)
    } else if 97 <= c && c <= 102 {
        Some(c - 87)
    } else if 65 <= c && c <= 70 {
        Some(c - 55)
    } else {
        None
    }
}

pub fn pair_value_exec(b0: u8, b1: u8) -> (r: Option<u8>)
    ensures
        r == pair_value(b0, b1),
{
    if b0 == 43 {
        hex_value_exec(b1)
    } else {
        match (hex_value_exec(b0), hex_value_exec(b1)) {
            (Some(h), Some(l)) => Some(16 * h + l),
            _ => None,
        }
    }
}

/// Decodes hex text (either case) into bytes; `+d` reads as the single
/// digit `d`, as `u8::from_str_radix` has it. The text must split into
/// two-byte pieces at character boundaries, where slicing `&str` at those
/// offsets would otherwise panic.
pub fn hex_decode(hex: &str) -> (r: Result<Vec<u8>, String>)
    requires
        hex_pieces_whole(encode_utf8(hex@)),
    ensures
        match hex_decoded(encode_utf8(hex@)) {
            Ok(v) => r matches Ok(x) && x@ == v,
            Err(e) => r matches Err(m) && m@ == e,
        },
{
    let b = hex.as_bytes();
    hex_decode_bytes(b)
}

fn hex_decode_bytes(b: &[u8]) -> (r: Result<Vec<u8>, String>)
    ensures
        match hex_decoded(b@) {
            Ok(v) => r matches Ok(x) && x@ == v,
            Err(e) => r matches Err(m) && m@ == e,
        },
{
    let n = b.len();
    if n % 2 != 0 {
        return Err("Invalid hex length".to_owned());
    }
    let mut out: Vec<u8> = Vec::new();
    let mut i: usize = 0;
    assert(b@.skip(0) =~= b@);
    while i < n
        invariant
            n == b@.len(),
            n % 2 == 0,
            i <= n,
            i % 2 == 0,
            decode_pairs(b@) == match decode_pairs(b@.skip(i as int)) {
                Some(r) => Some(out@ + r),
                None => None,
            },
        decreases n - i,
    {
        let ghost rest = b@.skip(i as int);
        assert(rest[0] == b@[i as int] && rest[1] == b@[i + 1]);
        assert(rest.skip(2) =~= b@.skip(i + 2));
        match pair_value_exec(b[i], b[i + 1]) {
            None => {
                return Err("Hex error: ParseIntError { kind: InvalidDigit }".to_owned());
            },
            Some(v) => {
                let ghost before = out@;
                out.push(v);
                proof {
                    match decode_pairs(b@.skip(i + 2)) {
                        Some(r) => {
                            assert(before + (seq![v] + r) =~= out@ + r);
                        },
                        None => {},
                    }
                }
                i = i + 2;
            },
        }
    }
    assert(b@.skip(n as int) =~= Seq::<u8>::empty());
    assert(out@ + Seq::<u8>::empty() =~= out@);
    Ok(out)
}

// ---------------------------------------------------------------------
// The envelope.
// ---------------------------------------------------------------------

/// The pieces of `b` between occurrences of `sep` (as `str::split`).
pub open spec fn split_on(b: Seq<u8>, sep: u8) -> Seq<Seq<u8>>
    decreases b.len(),
{
    if b.len() == 0 {
        seq![Seq::empty()]
    } else {
        let r = split_on(b.drop_last(), sep);
        if b.last() == sep {
            r.push(Seq::empty())
        } else {
            r.update(r.len() - 1, r.last().push(b.last()))
        }
    }
}

pub proof fn lemma_split_on_nonempty(b: Seq<u8>, sep: u8)
    ensures
        split_on(b, sep).len() >= 1,
    decreases b.len(),
{
    if b.len() > 0 {
        lemma_split_on_nonempty(b.drop_last(), sep);
    }
}

pub open spec fn byte_parts(v: Seq<Vec<u8>>) -> Seq<Seq<u8>> {
    v.map_values(|x: Vec<u8>| x@)
}

fn split_bytes(b: &[u8], sep: u8) -> (parts: Vec<Vec<u8>>)
    ensures
        byte_parts(parts@) == split_on(b@, sep),
{
    let mut parts: Vec<Vec<u8>> = Vec::new();
    let mut cur: Vec<u8> = Vec::new();
    let mut i: usize = 0;
    assert(b@.take(0) =~= Seq::<u8>::empty());
    while i < b.len()
        invariant
            i <= b@.len(),
            byte_parts(parts@).push(cur@) =~= split_on(b@.take(i as int), sep),
        decreases b@.len() - i,
    {
        proof {
            lemma_split_on_nonempty(b@.take(i as int), sep);
            assert(b@.take(i + 1).drop_last() =~= b@.take(i as int));
        }
        let ghost before_parts = byte_parts(parts@);
        let ghost before_cur = cur@;
        if b[i] == sep {
            let done = cur;
            parts.push(done);
            cur = Vec::new();
            assert(byte_parts(parts@) =~= before_parts.push(before_cur));
        } else {
            cur.push(b[i]);
        }
        i = i + 1;
    }
    assert(b@.take(b@.len() as int) =~= b@);
    let ghost before_parts = byte_parts(parts@);
    parts.push(cur);
    assert(byte_parts(parts@) =~= before_parts.push(cur@));
    parts
}

/// The secret that session-log keys are derived from.
pub open spec fn session_secret_text() -> Seq<char> {
    "vibi_core_2025:session_log_key_v1:internal_log_encrypt_key_x7k9m2p4q8r3t6w1"@
}

/// The key derived from `salt` for session logs.
pub open spec fn session_key(salt: Seq<u8>) -> Seq<u8> {
    pbkdf2_hmac_sha512(PBKDF2_ITERATIONS, salt, encode_utf8(session_secret_text()), KEY_LEN)
}

/// Derives the session-log key for `salt` (PBKDF2 with HMAC-SHA512).
fn derive_key(salt: &[u8]) -> (key: Vec<u8>)
    ensures
        key@ == session_key(salt@),
        key@.len() == KEY_LEN,
{
    let secret = "vibi_core_2025:session_log_key_v1:internal_log_encrypt_key_x7k9m2p4q8r3t6w1";
    pbkdf2_sha512(PBKDF2_ITERATIONS, salt, secret.as_bytes(), KEY_LEN)
}

/// The envelope text for a salt, a nonce and a ciphertext.
pub open spec fn envelope(salt: Seq<u8>, nonce: Seq<u8>, ct: Seq<u8>) -> Seq<char> {
    hex_of(salt) + seq![':'] + hex_of(nonce) + seq![':'] + hex_of(ct)
}

/// Whether `ct` seals `p` under the key for `salt` and `nonce`, and seals
/// nothing else.
pub open spec fn seals_only(salt: Seq<u8>, nonce: Seq<u8>, ct: Seq<u8>, p: Seq<u8>) -> bool {
    &&& ct == aes256_gcm_sealed(session_key(salt), nonce, p)
    &&& forall|q: Seq<u8>| aes256_gcm_sealed(session_key(salt), nonce, q) == ct ==> q == p
}

/// Whether `s` is an encryption of `plaintext`: the envelope of a
/// 32-byte salt, a 12-byte nonce, and the sealing of the plaintext's
/// UTF-8 bytes under the key derived from the salt.
pub open spec fn is_encryption_of(s: Seq<char>, plaintext: Seq<char>) -> bool {
    exists|salt: Seq<u8>, nonce: Seq<u8>, ct: Seq<u8>|
        salt.len() == SALT_LEN && nonce.len() == NONCE_LEN && seals_only(
            salt,
            nonce,
            ct,
            encode_utf8(plaintext),
        ) && s == #[trigger] envelope(salt, nonce, ct)
}

/// Encrypts `plaintext` for storage: fresh random salt and nonce, a key
/// derived from the salt, AES-256-GCM. The salt and nonce are random, so
/// the contract states what holds of every result; it fails only when the
/// random generator does, or for a plaintext too long for AES-GCM.
pub fn encrypt_session_data(plaintext: &str) -> (r: Result<String, String>)
    ensures
        r matches Ok(s) ==> is_encryption_of(s@, plaintext@),
        r matches Err(e) ==> e@ == "RNG error: Unspecified"@ || (e@ == "Encryption error: Unspecified"@
            && encode_utf8(plaintext@).len() > aes_gcm_max_input()),
{
    let salt = match random_bytes(SALT_LEN) {
        Some(v) => v,
        None => return Err("RNG error: Unspecified".to_owned()),
    };
    let key = derive_key(salt.as_slice());
    let nonce = match random_bytes(NONCE_LEN) {
        Some(v) => v,
        None => return Err("RNG error: Unspecified".to_owned()),
    };
    let ct = match aes256_gcm_seal(key.as_slice(), nonce.as_slice(), plaintext.as_bytes()) {
        Some(c) => c,
        None => return Err("Encryption error: Unspecified".to_owned()),
    };
    let mut out = hex_encode(salt.as_slice());
    out.push(':');
    push_str(&mut out, hex_encode(nonce.as_slice()).as_str());
    out.push(':');
    push_str(&mut out, hex_encode(ct.as_slice()).as_str());
    assert(out@ =~= envelope(salt@, nonce@, ct@));
    assert(seals_only(salt@, nonce@, ct@, encode_utf8(plaintext@)));
    Ok(out)
}

pub open spec fn tampered_message() -> Seq<char> {
    "🔒 FILE TAMPERED — Cannot decrypt. This session log has been modified externally."@
}

/// What decrypting the bytes `b` of an envelope gives: the plaintext, or
/// the message of the first check that fails.
pub open spec fn decrypted(b: Seq<u8>) -> Result<Seq<char>, Seq<char>> {
    let parts = split_on(b, ':' as u8);
    if parts.len() != 3 {
        Err("Invalid format"@)
    } else {
        match hex_decoded(parts[0]) {
            Err(e) => Err(e),
            Ok(salt) => match hex_decoded(parts[1]) {
                Err(e) => Err(e),
                Ok(nonce) => match hex_decoded(parts[2]) {
                    Err(e) => Err(e),
                    Ok(ct) => if nonce.len() != NONCE_LEN {
                        Err("Invalid nonce length"@)
                    } else if !(exists|p: Seq<u8>| ct == aes256_gcm_sealed(session_key(salt), nonce, p)) {
                        Err(tampered_message())
                    } else {
                        let p = choose|p: Seq<u8>| ct == aes256_gcm_sealed(session_key(salt), nonce, p);
                        if valid_utf8(p) {
                            Ok(decode_utf8(p))
                        } else {
                            Err("UTF-8 error: "@ + utf8_error_debug(p))
                        }
                    },
                },
            },
        }
    }
}

/// Whether decrypting the bytes `b` slices every hex field it reads only
/// at character boundaries (slicing elsewhere would panic).
pub open spec fn envelope_fields_whole(b: Seq<u8>) -> bool {
    let parts = split_on(b, ':' as u8);
    parts.len() != 3 || (hex_pieces_whole(parts[0]) && (hex_decoded(parts[0]) is Err || (
    hex_pieces_whole(parts[1]) && (hex_decoded(parts[1]) is Err || hex_pieces_whole(parts[2])))))
}

/// Text whose first piece `a` is free of `sep` splits into `a` and the
/// pieces of what follows the first `sep`.
proof fn lemma_split_on_first(a: Seq<u8>, sep: u8, c: Seq<u8>)
    requires
        free_of(a, sep),
    ensures
        split_on(a + seq![sep] + c, sep) == seq![a] + split_on(c, sep),
    decreases c.len(),
{
    let s = a + seq![sep] + c;
    if c.len() == 0 {
        assert(s.drop_last() =~= a);
        lemma_split_free(a, sep);
        assert(split_on(c, sep) =~= seq![Seq::<u8>::empty()]);
    } else {
        assert(s.drop_last() =~= a + seq![sep] + c.drop_last());
        lemma_split_on_first(a, sep, c.drop_last());
        lemma_split_on_nonempty(c.drop_last(), sep);
        let r = split_on(c.drop_last(), sep);
        assert(s.last() == c.last());
        if c.last() == sep {
            assert((seq![a] + r).push(Seq::empty()) =~= seq![a] + r.push(Seq::empty()));
        } else {
            assert((seq![a] + r).update(r.len() as int, r.last().push(c.last())) =~= seq![a] + r.update(
                r.len() - 1,
                r.last().push(c.last()),
            ));
        }
    }
}

/// The position of the first `sep` in `b`, if there is one.
fn find_byte(b: &[u8], sep: u8) -> (r: Option<usize>)
    ensures
        match r {
            Some(i) => i < b@.len() && b@[i as int] == sep && free_of(b@.take(i as int), sep),
            None => free_of(b@, sep),
        },
{
    let mut i: usize = 0;
    while i < b.len()
        invariant
            i <= b@.len(),
            free_of(b@.take(i as int), sep),
        decreases b@.len() - i,
    {
        if b[i] == sep {
            return Some(i);
        }
        assert(b@.take(i + 1) =~= b@.take(i as int).push(b@[i as int]));
        i = i + 1;
    }
    assert(b@.take(i as int) =~= b@);
    None
}

/// Cuts `s` around the `:` at byte `i`: the text before it and the text
/// after it.
fn cut_at_colon(s: &str, i: usize) -> (r: (&str, &str))
    requires
        i < encode_utf8(s@).len(),
        encode_utf8(s@)[i as int] == 58,
    ensures
        encode_utf8(r.0@) == encode_utf8(s@).take(i as int),
        encode_utf8(r.1@) == encode_utf8(s@).skip(i + 1),
{
    let ghost b = encode_utf8(s@);
    proof {
        vstd::utf8::encode_utf8_valid_utf8(s@);
        vstd::utf8::is_char_boundary_iff_is_leading_byte(b, i as int);
        assert(vstd::utf8::is_leading_byte_width_1(b[i as int]));
    }
    let (before, rest) = s.split_at(i);
    proof {
        let rb = encode_utf8(rest@);
        vstd::utf8::valid_utf8_split(b, i as int);
        assert(rb =~= b.subrange(i as int, b.len() as int));
        assert(rb[0] == 58);
        assert(vstd::utf8::is_leading_byte_width_1(rb[0]));
        reveal_with_fuel(vstd::utf8::is_char_boundary, 2);
        reveal_with_fuel(vstd::utf8::valid_utf8, 2);
        vstd::utf8::is_char_boundary_start_end_of_seq(vstd::utf8::pop_first_scalar(rb));
    }
    let (_colon, after) = rest.split_at(1);
    assert(encode_utf8(before@) =~= b.take(i as int));
    assert(encode_utf8(after@) =~= b.skip(i + 1));
    (before, after)
}

/// Whether `decrypt_session_data` can read `encrypted` without cutting a
/// character inside a hex field (see `envelope_fields_whole`); callers
/// test it before decrypting.
pub fn can_decrypt(encrypted: &str) -> (ok: bool)
    ensures
        ok == envelope_fields_whole(encode_utf8(encrypted@)),
{
    let b = encrypted.as_bytes();
    proof {
        reveal_strlit(":");
        assert(':' as u8 == 58u8);
    }
    let i = match find_byte(b, 58) {
        None => {
            proof {
                lemma_split_free(b@, 58);
            }
            return true;
        },
        Some(i) => i,
    };
    let (p0, r1) = cut_at_colon(encrypted, i);
    proof {
        assert(b@ =~= b@.take(i as int) + seq![58u8] + b@.skip(i + 1));
        lemma_split_on_first(b@.take(i as int), 58, b@.skip(i + 1));
    }
    let b1 = r1.as_bytes();
    let j = match find_byte(b1, 58) {
        None => {
            proof {
                lemma_split_free(b1@, 58);
            }
            return true;
        },
        Some(j) => j,
    };
    let (p1, p2) = cut_at_colon(r1, j);
    proof {
        assert(b1@ =~= b1@.take(j as int) + seq![58u8] + b1@.skip(j + 1));
        lemma_split_on_first(b1@.take(j as int), 58, b1@.skip(j + 1));
    }
    let b2 = p2.as_bytes();
    match find_byte(b2, 58) {
        Some(k) => {
            proof {
                assert(b2@ =~= b2@.take(k as int) + seq![58u8] + b2@.skip(k + 1));
                lemma_split_on_first(b2@.take(k as int), 58, b2@.skip(k + 1));
                lemma_split_on_nonempty(b2@.skip(k + 1), 58);
            }
            return true;
        },
        None => {
            proof {
                lemma_split_free(b2@, 58);
            }
        },
    }
    let ghost parts = split_on(b@, 58);
    assert(parts =~= seq![encode_utf8(p0@), encode_utf8(p1@), encode_utf8(p2@)]);
    if !pieces_whole(p0) {
        return false;
    }
    if hex_decode(p0).is_err() {
        return true;
    }
    if !pieces_whole(p1) {
        return false;
    }
    if hex_decode(p1).is_err() {
        return true;
    }
    pieces_whole(p2)
}

/// Decrypts an envelope made by `encrypt_session_data`; fails with a
/// message when the text is malformed or has been tampered with.
pub fn decrypt_session_data(encrypted: &str) -> (r: Result<String, String>)
    requires
        envelope_fields_whole(encode_utf8(encrypted@)),
    ensures
        match decrypted(encode_utf8(encrypted@)) {
            Ok(p) => r matches Ok(s) && s@ == p,
            Err(e) => r matches Err(m) && m@ == e,
        },
{
    let parts = split_bytes(encrypted.as_bytes(), 58);
    proof {
        reveal_strlit(":");
        assert(':' as u8 == 58u8);
    }
    if parts.len() != 3 {
        return Err("Invalid format".to_owned());
    }
    assert(parts@[0]@ == byte_parts(parts@)[0]);
    assert(parts@[1]@ == byte_parts(parts@)[1]);
    assert(parts@[2]@ == byte_parts(parts@)[2]);
    let salt = hex_decode_bytes(parts[0].as_slice())?;
    let nonce = hex_decode_bytes(parts[1].as_slice())?;
    let ct = hex_decode_bytes(parts[2].as_slice())?;
    if nonce.len() != NONCE_LEN {
        return Err("Invalid nonce length".to_owned());
    }
    let key = derive_key(salt.as_slice());
    let plain = match aes256_gcm_open(key.as_slice(), nonce.as_slice(), ct.as_slice()) {
        Some(p) => p,
        None => {
            return Err(
                "🔒 FILE TAMPERED — Cannot decrypt. This session log has been modified externally.".to_owned(),
            );
        },
    };
    match string_from_utf8(plain) {
        Ok(s) => Ok(s),
        Err(e) => {
            let mut m = "UTF-8 error: ".to_owned();
            push_str(&mut m, e.as_str());
            Err(m)
        },
    }
}

// ---------------------------------------------------------------------
// Decryption undoes encryption.
// ---------------------------------------------------------------------

proof fn lemma_hex_digit(d: nat)
    requires
        d < 16,
    ensures
        '\0' <= hex_digit(d) <= '\u{7f}',
        hex_digit(d) as u8 != 58,
        hex_digit(d) as u8 != 43,
        hex_value(hex_digit(d) as u8) == Some(d),
{
}

proof fn lemma_hex_of_index(x: Seq<u8>)
    ensures
        hex_of(x).len() == 2 * x.len(),
        forall|i: int|
            #![trigger x[i]]
            0 <= i < x.len() ==> hex_of(x)[2 * i] == hex_digit(x[i] as nat / 16) && hex_of(x)[2 * i
                + 1] == hex_digit(x[i] as nat % 16),
    decreases x.len(),
{
    if x.len() > 0 {
        lemma_hex_of_index(x.drop_last());
        assert forall|i: int| #![trigger x[i]] 0 <= i < x.len() implies hex_of(x)[2 * i] == hex_digit(
            x[i] as nat / 16,
        ) && hex_of(x)[2 * i + 1] == hex_digit(x[i] as nat % 16) by {
            if i < x.len() - 1 {
                assert(x.drop_last()[i] == x[i]);
            }
        }
    }
}

proof fn lemma_hex_of_ascii(x: Seq<u8>)
    ensures
        vstd::utf8::is_ascii_chars(hex_of(x)),
        forall|i: int| 0 <= i < hex_of(x).len() ==> (#[trigger] hex_of(x)[i]) as u8 != 58,
{
    lemma_hex_of_index(x);
    assert forall|k: int| 0 <= k < hex_of(x).len() implies '\0' <= #[trigger] hex_of(x)[k] <= '\u{7f}'
        && hex_of(x)[k] as u8 != 58 by {
        let i = k / 2;
        assert(x[i] == x[i]);
        lemma_hex_digit(x[i] as nat / 16);
        lemma_hex_digit(x[i] as nat % 16);
        if k % 2 == 0 {
            assert(k == 2 * i);
        } else {
            assert(k == 2 * i + 1);
        }
    }
}

pub open spec fn hex_bytes_of(b: Seq<u8>, x: Seq<u8>) -> bool {
    &&& b.len() == 2 * x.len()
    &&& forall|i: int|
        #![trigger x[i]]
        0 <= i < x.len() ==> b[2 * i] == hex_digit(x[i] as nat / 16) as u8 && b[2 * i + 1]
            == hex_digit(x[i] as nat % 16) as u8
}

proof fn lemma_decode_pairs_hex(b: Seq<u8>, x: Seq<u8>)
    requires
        hex_bytes_of(b, x),
    ensures
        decode_pairs(b) == Some(x),
    decreases x.len(),
{
    if x.len() == 0 {
        assert(x =~= Seq::<u8>::empty());
    } else {
        let b2 = b.skip(2);
        let x2 = x.skip(1);
        assert forall|i: int| #![trigger x2[i]] 0 <= i < x2.len() implies b2[2 * i] == hex_digit(
            x2[i] as nat / 16,
        ) as u8 && b2[2 * i + 1] == hex_digit(x2[i] as nat % 16) as u8 by {
            assert(x2[i] == x[i + 1]);
            assert(b2[2 * i] == b[2 * (i + 1)]);
            assert(b2[2 * i + 1] == b[2 * (i + 1) + 1]);
        }
        lemma_decode_pairs_hex(b2, x2);
        let x0 = x[0];
        assert(x0 == x[0]);
        lemma_hex_digit(x0 as nat / 16);
        lemma_hex_digit(x0 as nat % 16);
        assert(b[0] == hex_digit(x0 as nat / 16) as u8);
        assert(b[1] == hex_digit(x0 as nat % 16) as u8);
        assert(16 * (x0 as nat / 16) + x0 as nat % 16 == x0 as nat);
        assert(pair_value(b[0], b[1]) == Some(x0));
        assert(seq![x0] + x2 =~= x);
    }
}

proof fn lemma_encode_concat(a: Seq<char>, b: Seq<char>)
    ensures
        encode_utf8(a + b) == encode_utf8(a) + encode_utf8(b),
    decreases a.len(),
{
    if a.len() == 0 {
        assert(a + b =~= b);
        assert(encode_utf8(a) =~= Seq::<u8>::empty());
        assert(Seq::<u8>::empty() + encode_utf8(b) =~= encode_utf8(b));
    } else {
        assert((a + b).drop_first() =~= a.drop_first() + b);
        assert((a + b)[0] == a[0]);
        lemma_encode_concat(a.drop_first(), b);
        assert(encode_utf8(a + b) =~= encode_utf8(a) + encode_utf8(b));
    }
}

/// The UTF-8 bytes of hex text are its hex bytes, free of `:`, and every
/// even offset in them is a character boundary.
proof fn lemma_hex_text_bytes(x: Seq<u8>)
    ensures
        hex_bytes_of(encode_utf8(hex_of(x)), x),
        hex_pieces_whole(encode_utf8(hex_of(x))),
        forall|i: int| 0 <= i < encode_utf8(hex_of(x)).len() ==> #[trigger] encode_utf8(hex_of(x))[i] != 58,
        hex_decoded(encode_utf8(hex_of(x))) == Result::<Seq<u8>, Seq<char>>::Ok(x),
{
    let h = hex_of(x);
    let b = encode_utf8(h);
    lemma_hex_of_index(x);
    lemma_hex_of_ascii(x);
    vstd::utf8::is_ascii_chars_encode_utf8(h);
    assert forall|i: int| #![trigger x[i]] 0 <= i < x.len() implies b[2 * i] == hex_digit(
        x[i] as nat / 16,
    ) as u8 && b[2 * i + 1] == hex_digit(x[i] as nat % 16) as u8 by {
        assert(h[2 * i] as u8 == b[2 * i]);
        assert(h[2 * i + 1] as u8 == b[2 * i + 1]);
    }
    assert forall|i: int| 0 <= i < b.len() implies #[trigger] b[i] != 58 by {
        assert(h[i] as u8 == b[i]);
    }
    vstd::utf8::encode_utf8_valid_utf8(h);
    assert forall|i: int| 0 <= i <= b.len() && i % 2 == 0 implies is_char_boundary(b, i) by {
        if i == b.len() {
            vstd::utf8::is_char_boundary_start_end_of_seq(b);
        } else {
            assert(h[i] as u8 == b[i]);
            assert('\0' <= h[i] <= '\u{7f}');
            vstd::utf8::is_char_boundary_iff_is_leading_byte(b, i);
        }
    }
    lemma_decode_pairs_hex(b, x);
}

pub open spec fn free_of(b: Seq<u8>, sep: u8) -> bool {
    forall|i: int| 0 <= i < b.len() ==> b[i] != sep
}

proof fn lemma_split_free(b: Seq<u8>, sep: u8)
    requires
        free_of(b, sep),
    ensures
        split_on(b, sep) == seq![b],
    decreases b.len(),
{
    if b.len() == 0 {
        assert(b =~= Seq::<u8>::empty());
    } else {
        lemma_split_free(b.drop_last(), sep);
        assert(b.drop_last().push(b.last()) =~= b);
        assert(split_on(b, sep) =~= seq![b]);
    }
}

proof fn lemma_split_join(p: Seq<u8>, y: Seq<u8>, sep: u8)
    requires
        free_of(y, sep),
    ensures
        split_on(p + seq![sep] + y, sep) == split_on(p, sep).push(y),
    decreases y.len(),
{
    let z = p + seq![sep] + y;
    if y.len() == 0 {
        assert(z.drop_last() =~= p);
        assert(y =~= Seq::<u8>::empty());
    } else {
        lemma_split_join(p, y.drop_last(), sep);
        assert(z.drop_last() =~= p + seq![sep] + y.drop_last());
        assert(z.last() == y.last());
        let r = split_on(p, sep).push(y.drop_last());
        assert(y.drop_last().push(y.last()) =~= y);
        assert(r.update(r.len() - 1, r.last().push(y.last())) =~= split_on(p, sep).push(y));
    }
}

/// Hex decoding undoes hex encoding: the text `hex_encode` makes of any
/// bytes can be cut into pieces safely and `hex_decode` reads it back as
/// those bytes.
pub proof fn law_hex_decode_undoes_encode(bytes: Seq<u8>)
    ensures
        hex_pieces_whole(encode_utf8(hex_of(bytes))),
        hex_decoded(encode_utf8(hex_of(bytes))) == Result::<Seq<u8>, Seq<char>>::Ok(bytes),
{
    lemma_hex_text_bytes(bytes);
}

/// Decryption undoes encryption: every text that `encrypt_session_data`
/// returns for a plaintext is accepted by `decrypt_session_data` and
/// decrypts back to that plaintext.
#[verifier::spinoff_prover]
pub proof fn law_decrypt_undoes_encrypt(s: Seq<char>, plaintext: Seq<char>)
    requires
        is_encryption_of(s, plaintext),
    ensures
        envelope_fields_whole(encode_utf8(s)),
        decrypted(encode_utf8(s)) == Result::<Seq<char>, Seq<char>>::Ok(plaintext),
{
    let (salt, nonce, ct) = choose|salt: Seq<u8>, nonce: Seq<u8>, ct: Seq<u8>|
        salt.len() == SALT_LEN && nonce.len() == NONCE_LEN && seals_only(
            salt,
            nonce,
            ct,
            encode_utf8(plaintext),
        ) && s == #[trigger] envelope(salt, nonce, ct);
    let (ha, hb, hc) = (hex_of(salt), hex_of(nonce), hex_of(ct));
    let colon: Seq<char> = seq![':'];
    lemma_hex_text_bytes(salt);
    lemma_hex_text_bytes(nonce);
    lemma_hex_text_bytes(ct);
    vstd::utf8::is_ascii_chars_encode_utf8(colon);
    assert(encode_utf8(colon) =~= seq![58u8]);
    lemma_encode_concat(ha + colon + hb + colon, hc);
    lemma_encode_concat(ha + colon + hb, colon);
    lemma_encode_concat(ha + colon, hb);
    lemma_encode_concat(ha, colon);
    let (ba, bb, bc) = (encode_utf8(ha), encode_utf8(hb), encode_utf8(hc));
    let bytes = encode_utf8(s);
    assert(bytes =~= (ba + seq![58u8] + bb) + seq![58u8] + bc);
    lemma_split_free(ba, 58);
    lemma_split_join(ba, bb, 58);
    lemma_split_join(ba + seq![58u8] + bb, bc, 58);
    assert(':' as u8 == 58u8);
    assert(split_on(bytes, 58) =~= seq![ba, bb, bc]);
    let key = session_key(salt);
    let p = encode_utf8(plaintext);
    assert(ct == aes256_gcm_sealed(key, nonce, p));
    let q = choose|p: Seq<u8>| ct == aes256_gcm_sealed(session_key(salt), nonce, p);
    assert(q == p);
    vstd::utf8::encode_utf8_valid_utf8(plaintext);
    vstd::utf8::encode_utf8_decode_utf8(plaintext);
    let parts = split_on(bytes, ':' as u8);
    assert(parts.len() == 3);
    assert(hex_decoded(parts[0]) == Result::<Seq<u8>, Seq<char>>::Ok(salt));
    assert(hex_decoded(parts[1]) == Result::<Seq<u8>, Seq<char>>::Ok(nonce));
    assert(hex_decoded(parts[2]) == Result::<Seq<u8>, Seq<char>>::Ok(ct));
    assert(exists|p: Seq<u8>| ct == aes256_gcm_sealed(session_key(salt), nonce, p));
    assert(valid_utf8(q));
    assert(decode_utf8(q) == plaintext);
    assert(decrypted(bytes) == Result::<Seq<char>, Seq<char>>::Ok(decode_utf8(q)));
}

} // verus!
