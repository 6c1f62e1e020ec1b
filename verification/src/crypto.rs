//! The calls into the digest, signature, mnemonic and randomness crates,
//! each with what the library relies on of it.

use vstd::prelude::*;
use vstd::array::*;
use crate::hexcodec::{
    hex_encode_spec, lemma_hex_encode_index, lemma_hex_encode_len, lemma_hex_encode_lower,
};

verus! {

/// What `Sha256::digest` returns for the bytes.
pub uninterp spec fn sha256_spec(data: Seq<u8>) -> Seq<u8>;

/// `sha2::Sha256::digest`: the SHA-256 digest of the bytes, 32 bytes long.
#[verifier::external_body]
pub(crate) fn sha256_digest(data: &[u8]) -> (digest: Vec<u8>)
    ensures
        digest@ == sha256_spec(data@),
        digest@.len() == 32,
{
    <sha2::Sha256 as sha2::Digest>::digest(data).to_vec()
}

/// The compressed public key that `SigningKey::from_bytes(secret).verifying_key()`
/// gives for a 32-byte secret.
pub uninterp spec fn ed25519_public_key_spec(secret: Seq<u8>) -> Seq<u8>;

/// Whether `VerifyingKey::from_bytes` accepts the bytes as a public key.
pub uninterp spec fn ed25519_key_accepted(public: Seq<u8>) -> bool;

/// The signature that `SigningKey::sign` makes over the message.
pub uninterp spec fn ed25519_signature_spec(secret: Seq<u8>, message: Seq<u8>) -> Seq<u8>;

/// Whether `VerifyingKey::verify` accepts the signature over the message.
pub uninterp spec fn ed25519_signature_accepted(
    public: Seq<u8>,
    message: Seq<u8>,
    signature: Seq<u8>,
) -> bool;

/// `SigningKey::from_bytes(secret).verifying_key().to_bytes()`: the public key
/// of a secret key. It is the compression of a curve point, so
/// `VerifyingKey::from_bytes` decompresses it again.
#[verifier::external_body]
pub(crate) fn ed25519_public_key(secret: &[u8; 32]) -> (public: [u8; 32])
    ensures
        public@ == ed25519_public_key_spec(secret@),
        ed25519_key_accepted(public@),
{
    ed25519_dalek::SigningKey::from_bytes(secret).verifying_key().to_bytes()
}

/// `SigningKey::from_bytes(secret).sign(message).to_bytes()`: the deterministic
/// Ed25519 signature of the message. As the crate's documentation shows, the
/// public key of the same secret verifies it.
#[verifier::external_body]
pub(crate) fn ed25519_sign(secret: &[u8; 32], message: &[u8]) -> (signature: [u8; 64])
    ensures
        signature@ == ed25519_signature_spec(secret@, message@),
        ed25519_signature_accepted(ed25519_public_key_spec(secret@), message@, signature@),
{
    <ed25519_dalek::SigningKey as ed25519_dalek::Signer<ed25519_dalek::Signature>>::sign(
        &ed25519_dalek::SigningKey::from_bytes(secret),
        message,
    ).to_bytes()
}

/// Why an Ed25519 verification failed.
#[derive(Debug, Clone, Copy, PartialEq, Eq, Structural)]
pub enum Ed25519Rejection {
    /// `VerifyingKey::from_bytes` refused the public key.
    Key,
    /// `VerifyingKey::verify` refused the signature.
    Signature,
}

/// `VerifyingKey::from_bytes(public)` and then `verify(message, &Signature::from_bytes(signature))`:
/// the key is refused where it does not decompress, and the signature where
/// the verification equation fails.
#[verifier::external_body]
pub(crate) fn ed25519_verify(public: &[u8; 32], message: &[u8], signature: &[u8; 64]) -> (r: Result<
    (),
    Ed25519Rejection,
>)
    ensures
        r == (if !ed25519_key_accepted(public@) {
            Err(Ed25519Rejection::Key)
        } else if ed25519_signature_accepted(public@, message@, signature@) {
            Ok(())
        } else {
            Err(Ed25519Rejection::Signature)
        }),
{
    match ed25519_dalek::VerifyingKey::from_bytes(public) {
        Err(_) => Err(Ed25519Rejection::Key),
        Ok(key) => match <ed25519_dalek::VerifyingKey as ed25519_dalek::Verifier<
            ed25519_dalek::Signature,
        >>::verify(&key, message, &ed25519_dalek::Signature::from_bytes(signature)) {
            Ok(()) => Ok(()),
            Err(_) => Err(Ed25519Rejection::Signature),
        },
    }
}

/// The text of the mnemonic that `Mnemonic::parse_in(Language::English, text)`
/// accepts, written as its `Display` writes it (the words, one space apart).
pub uninterp spec fn bip39_english_phrase(text: Seq<char>) -> Option<Seq<char>>;

/// The text of the mnemonic that `Mnemonic::from_entropy` makes of the bytes.
pub uninterp spec fn bip39_entropy_phrase(entropy: Seq<u8>) -> Seq<char>;

/// The 64-byte seed that `Mnemonic::to_seed_normalized("")` derives from the
/// words of a mnemonic, here given by its text.
pub uninterp spec fn bip39_seed(phrase: Seq<char>) -> Seq<u8>;

/// A mnemonic as its `Display` writes it: English words, which are made of
/// lowercase ASCII letters, one space apart.
pub open spec fn is_word_text(phrase: Seq<char>) -> bool {
    &&& phrase.len() > 0
    &&& phrase[0] != ' '
    &&& phrase.last() != ' '
    &&& forall|i: int| 0 <= i < phrase.len() ==> ('a' <= #[trigger] phrase[i] <= 'z' || phrase[i] == ' ')
    &&& forall|i: int| 0 <= i < phrase.len() - 1 && #[trigger] phrase[i] == ' ' ==> phrase[i + 1] != ' '
}

/// The number of words of such a text: one more than its spaces.
pub open spec fn word_count(phrase: Seq<char>) -> nat {
    phrase.filter(|c: char| c == ' ').len() + 1
}

/// A mnemonic, held by what the library reads of it.
pub struct MnemonicWords {
    /// The words, one space apart.
    pub phrase: String,
    /// The seed derived with an empty passphrase.
    pub seed: Vec<u8>,
}

/// `Mnemonic::parse_in(Language::English, text)`, with the mnemonic that it
/// accepts read out by `to_string` and `to_seed_normalized("")`. The text that
/// `Display` writes is English words one space apart, and parsing it again
/// gives the same mnemonic.
#[verifier::external_body]
pub(crate) fn bip39_parse_english(text: &str) -> (words: Option<MnemonicWords>)
    ensures
        match words {
            Some(w) => {
                &&& bip39_english_phrase(text@) == Some(w.phrase@)
                &&& w.seed@ == bip39_seed(w.phrase@)
                &&& w.seed@.len() == 64
                &&& is_word_text(w.phrase@)
                &&& bip39_english_phrase(w.phrase@) == Some(w.phrase@)
            },
            None => bip39_english_phrase(text@) is None,
        },
{
    match bip39::Mnemonic::parse_in(bip39::Language::English, text) {
        Ok(m) => Some(MnemonicWords { phrase: m.to_string(), seed: m.to_seed_normalized("").to_vec() }),
        Err(_) => None,
    }
}

/// `Mnemonic::from_entropy(entropy)`, read out as above. The crate accepts
/// entropy of 16 to 32 bytes in steps of 4 and makes three words of every
/// four bytes, in English.
#[verifier::external_body]
pub(crate) fn bip39_from_entropy(entropy: &[u8]) -> (words: Option<MnemonicWords>)
    ensures
        (entropy@.len() % 4 == 0 && 16 <= entropy@.len() <= 32) ==> words is Some,
        match words {
            Some(w) => {
                &&& w.phrase@ == bip39_entropy_phrase(entropy@)
                &&& w.seed@ == bip39_seed(w.phrase@)
                &&& w.seed@.len() == 64
                &&& is_word_text(w.phrase@)
                &&& word_count(w.phrase@) == entropy@.len() * 3 / 4
                &&& bip39_english_phrase(w.phrase@) == Some(w.phrase@)
            },
            None => true,
        },
{
    match bip39::Mnemonic::from_entropy(entropy) {
        Ok(m) => Some(MnemonicWords { phrase: m.to_string(), seed: m.to_seed_normalized("").to_vec() }),
        Err(_) => None,
    }
}

/// `getrandom::getrandom` on a buffer of `len` bytes: the random bytes, or the
/// text of the error. Nothing is said of which bytes come back.
#[verifier::external_body]
pub(crate) fn random_bytes(len: usize) -> (r: Result<Vec<u8>, String>)
    ensures
        r matches Ok(bytes) ==> bytes@.len() == len,
{
    let mut bytes = vec![0u8; len];
    match getrandom::getrandom(&mut bytes) {
        Ok(()) => Ok(bytes),
        Err(error) => Err(error.to_string()),
    }
}

/// The hyphenated lowercase text of a version 4 UUID: 32 lowercase hexadecimal
/// digits in groups of 8, 4, 4, 4 and 12, the version digit `4` first in the
/// third group and the variant digit `8`, `9`, `a` or `b` first in the fourth.
pub open spec fn is_uuid_v4_text(id: Seq<char>) -> bool {
    &&& id.len() == 36
    &&& forall|i: int|
        0 <= i < 36 ==> if i == 8 || i == 13 || i == 18 || i == 23 {
            #[trigger] id[i] == '-'
        } else {
            '0' <= id[i] <= '9' || 'a' <= id[i] <= 'f'
        }
    &&& id[14] == '4'
    &&& (id[19] == '8' || id[19] == '9' || id[19] == 'a' || id[19] == 'b')
}

/// The bytes of a random UUID: the given bytes with the version nibble of
/// byte 6 set to 4 and the variant bits of byte 8 set to `10`.
pub open spec fn uuid_v4_bytes(bytes: Seq<u8>) -> Seq<u8> {
    bytes.update(6, (bytes[6] & 0x0f) | 0x40).update(8, (bytes[8] & 0x3f) | 0x80)
}

/// 32 hexadecimal digits in groups of 8, 4, 4, 4 and 12, joined by `-`.
pub open spec fn hyphenated(digits: Seq<char>) -> Seq<char> {
    digits.subrange(0, 8) + seq!['-'] + digits.subrange(8, 12) + seq!['-'] + digits.subrange(12, 16)
        + seq!['-'] + digits.subrange(16, 20) + seq!['-'] + digits.subrange(20, 32)
}

/// The text of the random UUID made of 16 bytes: lowercase and hyphenated.
pub open spec fn uuid_v4_text(bytes: Seq<u8>) -> Seq<char> {
    hyphenated(hex_encode_spec(uuid_v4_bytes(bytes)))
}

/// `Builder::from_random_bytes(bytes).into_uuid().to_string()`: the crate
/// sets the version and variant bits and writes the UUID in lowercase
/// hyphenated form.
#[verifier::external_body]
fn uuid_from_random_bytes(bytes: [u8; 16]) -> (id: String)
    ensures
        id@ == uuid_v4_text(bytes@),
{
    uuid::Builder::from_random_bytes(bytes).into_uuid().to_string()
}

/// The text of a random UUID is in the version 4 form.
pub proof fn lemma_uuid_v4_text_shape(bytes: Seq<u8>)
    requires
        bytes.len() == 16,
    ensures
        is_uuid_v4_text(uuid_v4_text(bytes)),
{
    let v = uuid_v4_bytes(bytes);
    let h = hex_encode_spec(v);
    let t = uuid_v4_text(bytes);
    lemma_hex_encode_len(v);
    lemma_hex_encode_lower(v);
    lemma_hex_encode_index(v, 6);
    lemma_hex_encode_index(v, 8);
    let b6 = bytes[6];
    let b8 = bytes[8];
    assert(((b6 & 0x0f) | 0x40) / 16 == 4) by (bit_vector);
    assert(8 <= ((b8 & 0x3f) | 0x80) / 16 <= 11) by (bit_vector);
    assert(t.len() == 36);
    assert forall|i: int| 0 <= i < 36 implies if i == 8 || i == 13 || i == 18 || i == 23 {
        #[trigger] t[i] == '-'
    } else {
        '0' <= t[i] <= '9' || 'a' <= t[i] <= 'f'
    } by {
        if i < 8 {
            assert(t[i] == h[i]);
        } else if 8 < i < 13 {
            assert(t[i] == h[i - 1]);
        } else if 13 < i < 18 {
            assert(t[i] == h[i - 2]);
        } else if 18 < i < 23 {
            assert(t[i] == h[i - 3]);
        } else if 23 < i {
            assert(t[i] == h[i - 4]);
        }
    }
    assert(t[14] == h[12]);
    assert(t[19] == h[16]);
}

/// A token id or nonce: the lowercase hyphenated random UUID made of 16 drawn
/// bytes.
pub fn uuid_from_bytes(bytes: &[u8]) -> (id: String)
    requires
        bytes@.len() == 16,
    ensures
        id@ == uuid_v4_text(bytes@),
        is_uuid_v4_text(id@),
{
    let mut out = [0u8; 16];
    for i in 0..16
        invariant
            bytes@.len() == 16,
            out@.len() == 16,
            forall|k: int| 0 <= k < i ==> out@[k] == bytes@[k],
    {
        out[i] = bytes[i];
    }
    assert(out@ =~= bytes@);
    proof {
        lemma_uuid_v4_text_shape(bytes@);
    }
    uuid_from_random_bytes(out)
}


/// What the standard base64 engine (standard alphabet, padding required)
/// decodes the bytes to, where it accepts them.
pub uninterp spec fn base64_standard_decode_spec(text: Seq<u8>) -> Option<Seq<u8>>;

/// `base64::engine::general_purpose::STANDARD.decode(text)`: the decoded
/// bytes, or nothing where the engine refuses the text.
#[verifier::external_body]
pub(crate) fn base64_standard_decode(text: &[u8]) -> (bytes: Option<Vec<u8>>)
    ensures
        match bytes {
            Some(v) => base64_standard_decode_spec(text@) == Some(v@),
            None => base64_standard_decode_spec(text@) is None,
        },
{
    <base64::engine::GeneralPurpose as base64::Engine>::decode(
        &base64::engine::general_purpose::STANDARD,
        text,
    ).ok()
}

/// `String::from_utf8`: the text that the bytes encode, where they are valid
/// UTF-8.
#[verifier::external_body]
pub(crate) fn utf8_to_string(bytes: Vec<u8>) -> (text: Option<String>)
    ensures
        text is Some <==> vstd::utf8::valid_utf8(bytes@),
        text matches Some(t) ==> t@ == vstd::utf8::decode_utf8(bytes@),
{
    String::from_utf8(bytes).ok()
}

} // verus!
