//! Encryption of stored secrets (API keys) with AES-256-GCM under a master
//! key. A sealed secret is the 12-byte nonce followed by the ciphertext and
//! its 16-byte tag; for storage it is written in base64.
//!
//! The cipher, the random numbers and base64 are `ring`'s and `base64`'s;
//! keeping the master key in the system keychain is left to the caller.
use vstd::prelude::*;
use vstd::utf8::{decode_utf8, encode_utf8, valid_utf8};
use crate::error::{AppError, CryptoError};
use crate::text::{concat2, utf8_len};

verus! {

// ============================================================================
// Outside calls
// ============================================================================

/// The longest plaintext, in bytes, that AES-GCM seals under one nonce:
/// `2^32 - 2` blocks of 16 bytes.
pub const MAX_SEALED_LEN: u64 = 68_719_476_704;

/// The ciphertext followed by the tag that AES-256-GCM gives for `plain`
/// under `key` and `nonce`, without additional data.
pub uninterp spec fn aes_gcm_sealed(key: Seq<u8>, nonce: Seq<u8>, plain: Seq<u8>) -> Seq<u8>;

/// What AES-256-GCM opening of `data` (ciphertext followed by tag) under
/// `key` and `nonce`, without additional data, gives: the plaintext, or
/// nothing when the tag does not authenticate it.
pub uninterp spec fn aes_gcm_opened(key: Seq<u8>, nonce: Seq<u8>, data: Seq<u8>) -> Option<Seq<u8>>;

/// Seals with `ring::aead` (`UnboundKey::new` on `AES_256_GCM`,
/// `LessSafeKey::seal_in_place_append_tag`, no additional data). The
/// contract names the result `aes_gcm_sealed` and states the property of
/// authenticated encryption that `ring` documents: opening it under the same
/// key and nonce gives the plaintext back; the result is the plaintext's
/// length plus the 16-byte tag. A 32-byte key and a 12-byte nonce are always
/// accepted, and sealing succeeds for every plaintext of at most
/// `MAX_SEALED_LEN` bytes, `ring`'s limit for AES-GCM (`MAX_IN_OUT_LEN`).
#[verifier::external_body]
fn aes_gcm_seal(key: &Vec<u8>, nonce: &Vec<u8>, plain: &[u8]) -> (r: Option<Vec<u8>>)
    requires
        key@.len() == 32,
        nonce@.len() == 12,
    ensures
        plain@.len() <= MAX_SEALED_LEN ==> r is Some,
        r matches Some(c) ==> c@ == aes_gcm_sealed(key@, nonce@, plain@)
            && c@.len() == plain@.len() + 16
            && aes_gcm_opened(key@, nonce@, c@) == Some(plain@),
{
    let k = ring::aead::LessSafeKey::new(ring::aead::UnboundKey::new(&ring::aead::AES_256_GCM, key).ok()?);
    let n = ring::aead::Nonce::try_assume_unique_for_key(nonce).ok()?;
    let mut in_out = plain.to_vec();
    k.seal_in_place_append_tag(n, ring::aead::Aad::empty(), &mut in_out).ok()?;
    Some(in_out)
}

/// Opens with `ring::aead` (`UnboundKey::new` on `AES_256_GCM`,
/// `LessSafeKey::open_in_place`, no additional data): the result is
/// `aes_gcm_opened` of the data.
#[verifier::external_body]
fn aes_gcm_open(key: &Vec<u8>, nonce: &[u8], data: &[u8]) -> (r: Option<Vec<u8>>)
    requires
        key@.len() == 32,
        nonce@.len() == 12,
    ensures
        match r {
            Some(p) => aes_gcm_opened(key@, nonce@, data@) == Some(p@),
            None => aes_gcm_opened(key@, nonce@, data@) is None,
        },
{
    let k = ring::aead::LessSafeKey::new(ring::aead::UnboundKey::new(&ring::aead::AES_256_GCM, key).ok()?);
    let n = ring::aead::Nonce::try_assume_unique_for_key(nonce).ok()?;
    let mut in_out = data.to_vec();
    let plain = k.open_in_place(n, ring::aead::Aad::empty(), &mut in_out).ok()?;
    Some(plain.to_vec())
}

/// `n` random bytes from `ring::rand::SystemRandom::fill`; nothing is stated
/// of them but their number, nor whether the system gives them.
#[verifier::external_body]
fn random_bytes(n: usize) -> (r: Option<Vec<u8>>)
    ensures
        r matches Some(b) ==> b@.len() == n,
{
    let mut bytes = vec![0u8; n];
    ring::rand::SecureRandom::fill(&ring::rand::SystemRandom::new(), &mut bytes).ok()?;
    Some(bytes)
}

/// The standard base64 text (with padding) of the bytes.
pub uninterp spec fn base64_text(bytes: Seq<u8>) -> Seq<char>;

/// What standard base64 decoding of a text gives: the bytes, or nothing when
/// it is not base64.
pub uninterp spec fn base64_bytes(text: Seq<char>) -> Option<Seq<u8>>;

/// The message of the error that standard base64 decoding of a text gives.
pub uninterp spec fn base64_error_text(text: Seq<char>) -> Seq<char>;

/// `base64::engine::general_purpose::STANDARD.encode`: the result is
/// `base64_text` of the bytes, and decoding it gives the bytes back.
#[verifier::external_body]
fn base64_encode(bytes: &[u8]) -> (s: String)
    ensures
        s@ == base64_text(bytes@),
        base64_bytes(s@) == Some(bytes@),
{
    base64::Engine::encode(&base64::engine::general_purpose::STANDARD, bytes)
}

/// `base64::engine::general_purpose::STANDARD.decode`: the bytes
/// `base64_bytes` of the text, or the error's message.
#[verifier::external_body]
fn base64_decode(text: &str) -> (r: Result<Vec<u8>, String>)
    ensures
        match r {
            Ok(b) => base64_bytes(text@) == Some(b@),
            Err(m) => base64_bytes(text@) is None && m@ == base64_error_text(text@),
        },
{
    match base64::Engine::decode(&base64::engine::general_purpose::STANDARD, text) {
        Ok(b) => Ok(b),
        Err(e) => Err(e.to_string()),
    }
}

/// The message of the error that `String::from_utf8` gives for bytes.
pub uninterp spec fn utf8_error_text(bytes: Seq<u8>) -> Seq<char>;

/// `String::from_utf8`: text exactly when the bytes are valid UTF-8, then
/// the text those bytes encode; else the error's message.
#[verifier::external_body]
fn utf8_decode(bytes: Vec<u8>) -> (r: Result<String, String>)
    ensures
        r is Ok <==> valid_utf8(bytes@),
        match r {
            Ok(s) => encode_utf8(s@) == bytes@,
            Err(m) => m@ == utf8_error_text(bytes@),
        },
{
    match String::from_utf8(bytes) {
        Ok(s) => Ok(s),
        Err(e) => Err(e.to_string()),
    }
}

/// The bytes of a string (`str::as_bytes`, copied).
fn utf8_bytes(s: &str) -> (b: Vec<u8>)
    ensures
        b@ == encode_utf8(s@),
{
    let sl = s.as_bytes();
    let mut v: Vec<u8> = Vec::new();
    let mut i: usize = 0;
    while i < sl.len()
        invariant
            i <= sl@.len(),
            sl@ == encode_utf8(s@),
            v@ == sl@.subrange(0, i as int),
        decreases sl@.len() - i,
    {
        v.push(sl[i]);
        i = i + 1;
        assert(v@ =~= sl@.subrange(0, i as int));
    }
    assert(sl@.subrange(0, sl@.len() as int) =~= sl@);
    v
}

// ============================================================================
// The service
// ============================================================================

/// The sealed form of `plain` under `key` with `nonce`: the nonce, then the
/// ciphertext and tag.
pub open spec fn sealed_message(key: Seq<u8>, nonce: Seq<u8>, plain: Seq<u8>) -> Seq<u8> {
    nonce + aes_gcm_sealed(key, nonce, plain)
}

/// What opening a sealed message gives under `key`: refused when shorter
/// than nonce and tag or when it does not authenticate, else the bytes.
pub open spec fn opened_message(key: Seq<u8>, msg: Seq<u8>) -> Option<Seq<u8>> {
    if msg.len() < 28 {
        None
    } else {
        aes_gcm_opened(key, msg.subrange(0, 12), msg.subrange(12, msg.len() as int))
    }
}

/// Encrypts and decrypts secrets under a 32-byte master key.
pub struct CryptoService {
    master_key: Vec<u8>,
}

impl CryptoService {
    #[verifier::type_invariant]
    spec fn key_size(&self) -> bool {
        self.master_key@.len() == 32
    }

    /// The master key.
    pub closed spec fn key(&self) -> Seq<u8> {
        self.master_key@
    }

    /// A service with the given master key.
    pub fn from_key(master_key: Vec<u8>) -> (c: Self)
        requires
            master_key@.len() == 32,
        ensures
            c.key() == master_key@,
    {
        CryptoService { master_key }
    }

    /// Encrypts with a random nonce: the nonce followed by the ciphertext and
    /// tag. Fails with `Failed to generate nonce` when no random bytes can be
    /// had, and with `Encryption failed` when the text is longer than the
    /// cipher takes.
    pub fn encrypt(&self, plaintext: &str) -> (r: Result<Vec<u8>, AppError>)
        ensures
            r matches Ok(c) ==> exists|nonce: Seq<u8>| nonce.len() == 12
                && c@ == #[trigger] sealed_message(self.key(), nonce, encode_utf8(plaintext@)),
            r matches Ok(c) ==> opened_message(self.key(), c@) == Some(encode_utf8(plaintext@)),
            r matches Err(e) ==> (e matches AppError::Crypto(CryptoError::EncryptionFailed(m))
                && (m@ == "Failed to generate nonce"@
                    || (m@ == "Encryption failed"@ && utf8_len(plaintext@) > MAX_SEALED_LEN))),
    {
        proof { use_type_invariant(self); }
        let nonce = match random_bytes(12) {
            Some(n) => n,
            None => {
                return Err(AppError::Crypto(CryptoError::EncryptionFailed(String::from_str("Failed to generate nonce"))));
            },
        };
        self.encrypt_with_nonce(plaintext, nonce)
    }

    /// Encrypts with the given nonce (see `encrypt`).
    pub fn encrypt_with_nonce(&self, plaintext: &str, nonce: Vec<u8>) -> (r: Result<Vec<u8>, AppError>)
        requires
            nonce@.len() == 12,
        ensures
            r matches Ok(c) ==> c@ == sealed_message(self.key(), nonce@, encode_utf8(plaintext@)),
            r matches Ok(c) ==> opened_message(self.key(), c@) == Some(encode_utf8(plaintext@)),
            r matches Err(e) ==> (e matches AppError::Crypto(CryptoError::EncryptionFailed(m))
                && m@ == "Encryption failed"@),
            utf8_len(plaintext@) <= MAX_SEALED_LEN ==> r is Ok,
    {
        proof { use_type_invariant(self); }
        let bytes = utf8_bytes(plaintext);
        match aes_gcm_seal(&self.master_key, &nonce, bytes.as_slice()) {
            Some(sealed) => {
                let mut out = nonce;
                let mut i: usize = 0;
                let ghost n0 = out@;
                while i < sealed.len()
                    invariant
                        i <= sealed@.len(),
                        out@ == n0 + sealed@.subrange(0, i as int),
                    decreases sealed@.len() - i,
                {
                    out.push(sealed[i]);
                    i = i + 1;
                    assert(out@ =~= n0 + sealed@.subrange(0, i as int));
                }
                assert(sealed@.subrange(0, sealed@.len() as int) =~= sealed@);
                proof {
                    let m = out@;
                    assert(m.subrange(0, 12) =~= nonce@);
                    assert(m.subrange(12, m.len() as int) =~= sealed@);
                }
                Ok(out)
            },
            None => Err(AppError::Crypto(CryptoError::EncryptionFailed(String::from_str("Encryption failed")))),
        }
    }

    /// Decrypts a sealed secret: refused with `Ciphertext too short` below 28
    /// bytes, with `Decryption failed` when it does not authenticate under the
    /// master key, and with `Invalid UTF-8 in decrypted data: ...` when the
    /// plaintext is not text.
    pub fn decrypt(&self, ciphertext: &[u8]) -> (r: Result<String, AppError>)
        ensures
            match opened_message(self.key(), ciphertext@) {
                Some(p) => if valid_utf8(p) {
                    r matches Ok(s) && s@ == decode_utf8(p)
                } else {
                    r matches Err(AppError::Crypto(CryptoError::DecryptionFailed(m)))
                        && m@ == "Invalid UTF-8 in decrypted data: "@ + utf8_error_text(p)
                },
                None => r matches Err(AppError::Crypto(CryptoError::DecryptionFailed(m))) && (if ciphertext@.len() < 28 {
                    m@ == "Ciphertext too short"@
                } else {
                    m@ == "Decryption failed"@
                }),
            },
    {
        proof { use_type_invariant(self); }
        let n = ciphertext.len();
        if n < 28 {
            return Err(AppError::Crypto(CryptoError::DecryptionFailed(String::from_str("Ciphertext too short"))));
        }
        let nonce = slice_range(ciphertext, 0, 12);
        let data = slice_range(ciphertext, 12, n);
        match aes_gcm_open(&self.master_key, nonce.as_slice(), data.as_slice()) {
            Some(plain) => {
                let ghost p = plain@;
                match utf8_decode(plain) {
                    Ok(s) => {
                        proof { vstd::utf8::encode_utf8_decode_utf8(s@); }
                        Ok(s)
                    },
                    Err(m) => Err(AppError::Crypto(CryptoError::DecryptionFailed(
                        concat2("Invalid UTF-8 in decrypted data: ", m.as_str()),
                    ))),
                }
            },
            None => Err(AppError::Crypto(CryptoError::DecryptionFailed(String::from_str("Decryption failed")))),
        }
    }

    /// Encrypts and writes the result in base64 (see `encrypt`).
    pub fn encrypt_to_base64(&self, plaintext: &str) -> (r: Result<String, AppError>)
        ensures
            r matches Ok(s) ==> exists|nonce: Seq<u8>| nonce.len() == 12
                && s@ == base64_text(#[trigger] sealed_message(self.key(), nonce, encode_utf8(plaintext@))),
            r matches Ok(s) ==> (base64_bytes(s@) matches Some(c)
                && opened_message(self.key(), c) == Some(encode_utf8(plaintext@))),
            r matches Err(e) ==> (e matches AppError::Crypto(CryptoError::EncryptionFailed(m))
                && (m@ == "Failed to generate nonce"@
                    || (m@ == "Encryption failed"@ && utf8_len(plaintext@) > MAX_SEALED_LEN))),
    {
        match self.encrypt(plaintext) {
            Ok(c) => Ok(base64_encode(c.as_slice())),
            Err(e) => Err(e),
        }
    }

    /// Reads base64 and decrypts (see `decrypt`); text that is not base64 is
    /// refused with `Failed to decode base64: ...`.
    pub fn decrypt_from_base64(&self, base64_ciphertext: &str) -> (r: Result<String, AppError>)
        ensures
            base64_bytes(base64_ciphertext@) is None ==> (r matches Err(AppError::Crypto(CryptoError::DecryptionFailed(m)))
                && m@ == "Failed to decode base64: "@ + base64_error_text(base64_ciphertext@)),
            base64_bytes(base64_ciphertext@) matches Some(c) ==> match opened_message(self.key(), c) {
                Some(p) => valid_utf8(p) ==> (r matches Ok(s) && s@ == decode_utf8(p)),
                None => r is Err,
            },
    {
        match base64_decode(base64_ciphertext) {
            Ok(c) => self.decrypt(c.as_slice()),
            Err(m) => Err(AppError::Crypto(CryptoError::DecryptionFailed(concat2("Failed to decode base64: ", m.as_str())))),
        }
    }
}

/// Reads a master key kept (in the keychain) as base64: refused with
/// `Failed to decode master key: ...` when it is not base64, and with
/// `Invalid master key length in keychain` when it is not 32 bytes.
pub fn decode_master_key(stored: &str) -> (r: Result<Vec<u8>, CryptoError>)
    ensures
        match base64_bytes(stored@) {
            None => r matches Err(CryptoError::InvalidKeyFormat(m))
                && m@ == "Failed to decode master key: "@ + base64_error_text(stored@),
            Some(b) => if b.len() == 32 {
                r matches Ok(k) && k@ == b
            } else {
                r matches Err(CryptoError::InvalidKeyFormat(m)) && m@ == "Invalid master key length in keychain"@
            },
        },
{
    match base64_decode(stored) {
        Ok(b) => {
            if b.len() != 32 {
                Err(CryptoError::InvalidKeyFormat(String::from_str("Invalid master key length in keychain")))
            } else {
                Ok(b)
            }
        },
        Err(m) => Err(CryptoError::InvalidKeyFormat(concat2("Failed to decode master key: ", m.as_str()))),
    }
}

/// A new random master key, and its base64 text to keep in the keychain;
/// refused with `Failed to generate random key` when no random bytes can be
/// had.
pub fn generate_master_key() -> (r: Result<(Vec<u8>, String), CryptoError>)
    ensures
        r matches Ok(kt) ==> kt.0@.len() == 32 && kt.1@ == base64_text(kt.0@) && base64_bytes(kt.1@) == Some(kt.0@),
        r matches Err(e) ==> (e matches CryptoError::KeyGenerationFailed(m) && m@ == "Failed to generate random key"@),
{
    match random_bytes(32) {
        Some(k) => {
            let t = base64_encode(k.as_slice());
            Ok((k, t))
        },
        None => Err(CryptoError::KeyGenerationFailed(String::from_str("Failed to generate random key"))),
    }
}

/// The bytes `s[from..to]`, copied.
fn slice_range(s: &[u8], from: usize, to: usize) -> (r: Vec<u8>)
    requires
        from <= to <= s@.len(),
    ensures
        r@ == s@.subrange(from as int, to as int),
{
    let mut v: Vec<u8> = Vec::new();
    let mut i: usize = from;
    while i < to
        invariant
            from <= i <= to,
            to <= s@.len(),
            v@ == s@.subrange(from as int, i as int),
        decreases to - i,
    {
        v.push(s[i]);
        i = i + 1;
        assert(v@ =~= s@.subrange(from as int, i as int));
    }
    v
}

// ============================================================================
// Laws
// ============================================================================

/// Whatever `encrypt` gives back, `decrypt` under the same key turns into
/// the plaintext again: the bytes the message opens to are the plaintext's
/// UTF-8 bytes, which are valid UTF-8 and decode to the plaintext.
pub proof fn lemma_encrypt_then_decrypt(key: Seq<u8>, message: Seq<u8>, plain: Seq<char>)
    requires
        opened_message(key, message) == Some(encode_utf8(plain)),
    ensures
        valid_utf8(encode_utf8(plain)),
        decode_utf8(encode_utf8(plain)) == plain,
{
    vstd::utf8::encode_utf8_valid_utf8(plain);
    vstd::utf8::encode_utf8_decode_utf8(plain);
}

} // verus!
