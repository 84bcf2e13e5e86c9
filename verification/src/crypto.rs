//! The crypto layer: the masking key, format-preserving encryption of
//! record payloads, password hashing and the generation of secrets.

use vstd::prelude::*;
use vstd::utf8::*;

verus! {

/// Width of the masking key in bytes.
pub const KEY_WIDTH: usize = 32;

/// Shortest payload, in bytes, that the cipher accepts.
pub const MIN_PAYLOAD_LEN: usize = 3;

/// Longest payload, in bytes, that the cipher accepts.
pub const MAX_PAYLOAD_LEN: usize = 536_870_911;

/// Length of a password hash in bytes.
pub const HASH_LEN: usize = 60;

/// The ciphertext of a payload under a key, as the FF1 cipher over AES-256
/// with radix 2 and an empty tweak computes it.
pub uninterp spec fn ff1_encrypt(key: Seq<u8>, plaintext: Seq<u8>) -> Seq<u8>;

/// The payload that a ciphertext opens to under a key, by the same cipher.
pub uninterp spec fn ff1_decrypt(key: Seq<u8>, ciphertext: Seq<u8>) -> Seq<u8>;

/// Whether bcrypt accepts a password for a stored hash.
pub uninterp spec fn bcrypt_verify(password: Seq<u8>, hash: Seq<char>) -> bool;

/// The secret widened or cut to the key width: byte `i` of the key is byte
/// `i` of the secret, and zero past its end.
pub open spec fn padded_secret(secret: Seq<u8>) -> Seq<u8> {
    Seq::new(KEY_WIDTH as nat, |i: int| if i < secret.len() { secret[i] } else { 0u8 })
}

/// Whether a payload of this many bytes lies in the cipher's domain.
pub open spec fn in_cipher_domain(len: nat) -> bool {
    MIN_PAYLOAD_LEN <= len <= MAX_PAYLOAD_LEN
}

/// Whether a byte is a printable, non-blank ASCII character.
pub open spec fn is_printable(byte: u8) -> bool {
    33 <= byte <= 126
}

/// Whether every byte is a blank or a printable ASCII character: the bytes
/// that a password hash is written in.
pub open spec fn is_hash_text(hash: Seq<u8>) -> bool {
    forall|i: int| 0 <= i < hash.len() ==> 0x20 <= #[trigger] hash[i] <= 0x7e
}

/// Whether a stored hash accepts a password: it is hash text and bcrypt
/// accepts the password's bytes for it.
pub open spec fn accepts(hash: Seq<char>, password: Seq<char>) -> bool {
    is_hash_text(encode_utf8(hash)) && bcrypt_verify(encode_utf8(password), hash)
}

/// Why the crypto layer refused a payload.
#[derive(Clone, Copy, Debug, PartialEq, Eq, Structural)]
pub enum CryptoError {
    /// The payload is shorter or longer than the cipher accepts.
    OutOfDomain,
    /// The opened payload is not UTF-8 text.
    NotText,
    /// The opened payload is not a record of the expected kind.
    NotARecord,
}

/// The 256-bit key under which every durable record is masked.
pub struct MaskingKey {
    bytes: Vec<u8>,
}

impl View for MaskingKey {
    type V = Seq<u8>;

    closed spec fn view(&self) -> Seq<u8> {
        self.bytes@
    }
}

impl MaskingKey {
    #[verifier::type_invariant]
    spec fn well_formed(&self) -> bool {
        self.bytes@.len() == KEY_WIDTH
    }

    /// A copy of the key.
    pub fn duplicate(&self) -> (copy: Self)
        ensures
            copy@ == self@,
    {
        proof {
            use_type_invariant(self);
        }
        MaskingKey { bytes: self.bytes.clone() }
    }

    /// The bytes of the key: always as many as the key width.
    pub fn to_bytes(&self) -> (bytes: Vec<u8>)
        ensures
            bytes@ == self@,
            bytes@.len() == KEY_WIDTH,
    {
        proof {
            use_type_invariant(self);
        }
        self.bytes.clone()
    }
}

/// Derives the masking key from the operator's secret: the secret's bytes,
/// cut to the key width or filled up with zeros. An empty secret gives no key.
pub fn rtp_take_key(key: &String) -> (taken: Option<MaskingKey>)
    ensures
        taken is None <==> key@.len() == 0,
        taken matches Some(k) ==> k@ == padded_secret(encode_utf8(key@)),
{
    let text = key.as_str();
    if text.is_empty() {
        return None;
    }
    let raw = text.as_bytes();
    let mut bytes: Vec<u8> = Vec::new();
    let mut i: usize = 0;
    while i < KEY_WIDTH
        invariant
            i <= KEY_WIDTH,
            bytes@.len() == i,
            raw@ == encode_utf8(key@),
            forall|j: int| 0 <= j < i ==> bytes@[j] == padded_secret(raw@)[j],
        decreases KEY_WIDTH - i,
    {
        let byte: u8 = if i < raw.len() { raw[i] } else { 0 };
        bytes.push(byte);
        i += 1;
    }
    assert(bytes@ =~= padded_secret(encode_utf8(key@)));
    Some(MaskingKey { bytes })
}

/// Calls `FF1::<Aes256>::new(key, 2)` and `encrypt` with an empty tweak on the
/// bytes as a `BinaryNumeralString`. The cipher takes payloads of 20 to
/// 2^32 - 1 bits, keeps the length, and `decrypt` undoes it under the same key.
#[verifier::external_body]
fn ff1_seal(key: &Vec<u8>, plaintext: &Vec<u8>) -> (sealed: Option<Vec<u8>>)
    requires
        key@.len() == KEY_WIDTH,
    ensures
        sealed is Some <==> in_cipher_domain(plaintext@.len()),
        sealed matches Some(ct) ==> ct@ == ff1_encrypt(key@, plaintext@) && ct@.len()
            == plaintext@.len() && ff1_decrypt(key@, ct@) == plaintext@,
{
    let cipher = fpe::ff1::FF1::<aes::Aes256>::new(key.as_slice(), 2).ok()?;
    let numerals = fpe::ff1::BinaryNumeralString::from_bytes_le(plaintext.as_slice());
    match cipher.encrypt(&[], &numerals) {
        Ok(sealed) => Some(sealed.to_bytes_le()),
        Err(_) => None,
    }
}

/// Calls `FF1::<Aes256>::new(key, 2)` and `decrypt` with an empty tweak on the
/// bytes as a `BinaryNumeralString`. The cipher takes ciphertexts of 20 to
/// 2^32 - 1 bits, keeps the length, and `encrypt` undoes it under the same key.
#[verifier::external_body]
fn ff1_open(key: &Vec<u8>, ciphertext: &Vec<u8>) -> (opened: Option<Vec<u8>>)
    requires
        key@.len() == KEY_WIDTH,
    ensures
        opened is Some <==> in_cipher_domain(ciphertext@.len()),
        opened matches Some(pt) ==> pt@ == ff1_decrypt(key@, ciphertext@) && pt@.len()
            == ciphertext@.len() && ff1_encrypt(key@, pt@) == ciphertext@,
{
    let cipher = fpe::ff1::FF1::<aes::Aes256>::new(key.as_slice(), 2).ok()?;
    let numerals = fpe::ff1::BinaryNumeralString::from_bytes_le(ciphertext.as_slice());
    match cipher.decrypt(&[], &numerals) {
        Ok(opened) => Some(opened.to_bytes_le()),
        Err(_) => None,
    }
}

/// Encrypts a payload under the masking key. The ciphertext has the
/// payload's length and decrypts to the payload again. A payload outside the
/// cipher's domain is refused.
pub fn encrypt(key: &MaskingKey, plaintext: &Vec<u8>) -> (sealed: Result<Vec<u8>, CryptoError>)
    ensures
        sealed is Ok <==> in_cipher_domain(plaintext@.len()),
        sealed matches Ok(ct) ==> ct@ == ff1_encrypt(key@, plaintext@) && ct@.len()
            == plaintext@.len() && ff1_decrypt(key@, ct@) == plaintext@,
        sealed matches Err(e) ==> e == CryptoError::OutOfDomain,
{
    proof {
        use_type_invariant(key);
    }
    match ff1_seal(&key.bytes, plaintext) {
        Some(ct) => Ok(ct),
        None => Err(CryptoError::OutOfDomain),
    }
}

/// Decrypts a ciphertext under the masking key. The payload has the
/// ciphertext's length and encrypts to the ciphertext again. A ciphertext
/// outside the cipher's domain is refused.
pub fn decrypt(key: &MaskingKey, ciphertext: &Vec<u8>) -> (opened: Result<Vec<u8>, CryptoError>)
    ensures
        opened is Ok <==> in_cipher_domain(ciphertext@.len()),
        opened matches Ok(pt) ==> pt@ == ff1_decrypt(key@, ciphertext@) && pt@.len()
            == ciphertext@.len() && ff1_encrypt(key@, pt@) == ciphertext@,
        opened matches Err(e) ==> e == CryptoError::OutOfDomain,
{
    proof {
        use_type_invariant(key);
    }
    match ff1_open(&key.bytes, ciphertext) {
        Some(pt) => Ok(pt),
        None => Err(CryptoError::OutOfDomain),
    }
}

/// Calls `pwhash::bcrypt::hash`, which salts at random and writes the hash as
/// `$2b$10$`, 22 characters of salt and 31 of digest, all printable ASCII.
/// Whatever hash comes back, `pwhash::bcrypt::verify` accepts the same
/// password for it.
#[verifier::external_body]
fn bcrypt_hash(password: &[u8]) -> (hashed: Option<String>)
    ensures
        hashed matches Some(h) ==> bcrypt_verify(password@, h@) && is_hash_text(encode_utf8(h@))
            && encode_utf8(h@).len() == HASH_LEN,
{
    pwhash::bcrypt::hash(password).ok()
}

/// Calls `pwhash::bcrypt::verify`, which hashes the password with the salt
/// and cost that the stored hash names and compares in constant time. Its
/// salt decoder does not return on a character below the blank or on U+0080,
/// so only hash text is handed to it.
#[verifier::external_body]
fn bcrypt_check(password: &[u8], hash: &str) -> (accepted: bool)
    requires
        is_hash_text(encode_utf8(hash@)),
    ensures
        accepted == bcrypt_verify(password@, hash@),
{
    pwhash::bcrypt::verify(password, hash)
}

/// Hashes a password irreversibly with a fresh salt. The hash that comes back
/// is 60 bytes long and one that `verify_password` accepts the password for.
pub fn hash_password(password: &str) -> (hashed: Option<String>)
    ensures
        hashed matches Some(h) ==> accepts(h@, password@) && encode_utf8(h@).len() == HASH_LEN,
{
    bcrypt_hash(password.as_bytes())
}

/// Whether every byte of the text is one that a hash can hold.
pub fn holds_hash_text(text: &str) -> (clean: bool)
    ensures
        clean == is_hash_text(encode_utf8(text@)),
{
    let bytes = text.as_bytes();
    let mut i: usize = 0;
    while i < bytes.len()
        invariant
            i <= bytes@.len(),
            bytes@ == encode_utf8(text@),
            forall|j: int| 0 <= j < i ==> 0x20 <= #[trigger] bytes@[j] <= 0x7e,
        decreases bytes@.len() - i,
    {
        if bytes[i] < 0x20 || bytes[i] > 0x7e {
            return false;
        }
        i += 1;
    }
    true
}

/// Whether the stored hash accepts the password. A stored text that is no
/// hash text accepts none.
pub fn verify_password(password: &str, hash: &str) -> (accepted: bool)
    ensures
        accepted == accepts(hash@, password@),
{
    if holds_hash_text(hash) {
        bcrypt_check(password.as_bytes(), hash)
    } else {
        false
    }
}

/// Calls `rand::random::<u8>()`: any byte may come back.
#[verifier::external_body]
fn random_byte() -> u8 {
    rand::random::<u8>()
}

/// Calls `String::from_utf8`: the text whose UTF-8 encoding the bytes are,
/// where they are one.
#[verifier::external_body]
pub(crate) fn utf8_text(bytes: Vec<u8>) -> (text: Option<String>)
    ensures
        text is Some <==> valid_utf8(bytes@),
        text matches Some(s) ==> encode_utf8(s@) == bytes@ && s@ == decode_utf8(bytes@),
{
    String::from_utf8(bytes).ok()
}

/// Appends the byte to the secret if it is printable, and says whether it did.
pub fn push_printable(secret: &mut Vec<u8>, byte: u8) -> (kept: bool)
    ensures
        kept == is_printable(byte),
        final(secret)@ == if is_printable(byte) {
            old(secret)@.push(byte)
        } else {
            old(secret)@
        },
{
    if 33 <= byte && byte <= 126 {
        secret.push(byte);
        true
    } else {
        false
    }
}

/// Whether every byte of the secret is printable.
pub open spec fn all_printable(secret: Seq<u8>) -> bool {
    forall|i: int| 0 <= i < secret.len() ==> is_printable(#[trigger] secret[i])
}

/// Draws random bytes and keeps the printable ones until the secret has the
/// length asked for. A secret of no characters needs no draw and is always
/// given; a longer one is not given where the draws run out before enough
/// printable bytes have come.
pub fn random_printable(len: usize) -> (secret: Option<String>)
    ensures
        len == 0 ==> secret is Some,
        secret matches Some(s) ==> encode_utf8(s@).len() == len && all_printable(
            encode_utf8(s@),
        ),
{
    let mut bytes: Vec<u8> = Vec::new();
    let mut draws: u64 = u64::MAX;
    while bytes.len() < len && draws > 0
        invariant
            bytes@.len() <= len,
            all_printable(bytes@),
        decreases draws,
    {
        let byte = random_byte();
        let _ = push_printable(&mut bytes, byte);
        draws -= 1;
    }
    if bytes.len() < len {
        return None;
    }
    utf8_text(bytes)
}

} // verus!
