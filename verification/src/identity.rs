//! Key identities derived from a secret input, and the signed challenges
//! with which an identity proves itself.

use vstd::prelude::*;
use vstd::utf8::encode_utf8;
use vstd::array::*;
use crate::crypto::{
    bip39_english_phrase, bip39_entropy_phrase, bip39_from_entropy, bip39_parse_english, bip39_seed,
    ed25519_key_accepted, ed25519_public_key, ed25519_public_key_spec, ed25519_sign,
    ed25519_signature_accepted, ed25519_signature_spec, ed25519_verify, sha256_digest, sha256_spec,
    is_word_text, word_count, Ed25519Rejection, MnemonicWords,
};
use crate::hexcodec::{
    hex_decode, hex_decode_spec, hex_encode, hex_encode_spec, is_lower_hex, lemma_hex_encode_len,
    lemma_hex_encode_lower, lemma_hex_roundtrip,
};
use crate::text::{i64_to_decimal, signed_decimal, trim, trim_end_spec, trim_spec, trim_start_spec};

verus! {

/// Why an identity could not be derived or a signed challenge was refused.
#[derive(Debug, Clone, Copy, PartialEq, Eq, Structural)]
pub enum IdentityError {
    EmptyInput,
    MnemonicGeneration,
    InvalidPublicKey,
    InvalidSignature,
}

impl IdentityError {
    /// The text that describes the error.
    pub fn message(&self) -> (text: &'static str)
        ensures
            text@ == match self {
                IdentityError::EmptyInput => "secret input is empty"@,
                IdentityError::MnemonicGeneration => "mnemonic generation failed"@,
                IdentityError::InvalidPublicKey => "public key is invalid"@,
                IdentityError::InvalidSignature => "signature is invalid"@,
            },
    {
        match self {
            IdentityError::EmptyInput => "secret input is empty",
            IdentityError::MnemonicGeneration => "mnemonic generation failed",
            IdentityError::InvalidPublicKey => "public key is invalid",
            IdentityError::InvalidSignature => "signature is invalid",
        }
    }
}

/// The mnemonic of an identity and its public key in hexadecimal.
#[derive(Debug, Clone)]
pub struct IdentityMaterial {
    pub mnemonic: String,
    pub public_key_hex: String,
}

/// What a client signs to obtain a token for an application.
#[derive(Debug, Clone)]
pub struct SignatureChallenge {
    pub app_id: String,
    pub nonce: String,
    pub timestamp_ms: i64,
    pub device_id: String,
}

/// A challenge with the public key that signed it and the signature.
#[derive(Debug, Clone)]
pub struct SignedChallenge {
    pub public_key_hex: String,
    pub signature_hex: String,
    pub app_id: String,
    pub timestamp_ms: i64,
    pub device_id: String,
    pub nonce: String,
}

/// The text that is signed for a challenge:
/// `dweb-cloud:{app_id}:{nonce}:{timestamp_ms}:{device_id}:{public_key_hex}`.
pub open spec fn message_spec(
    public_key_hex: Seq<char>,
    app_id: Seq<char>,
    nonce: Seq<char>,
    timestamp_ms: int,
    device_id: Seq<char>,
) -> Seq<char> {
    "dweb-cloud:"@ + app_id + ":"@ + nonce + ":"@ + signed_decimal(timestamp_ms) + ":"@ + device_id
        + ":"@ + public_key_hex
}

/// The mnemonic that a secret input stands for: the trimmed input itself where
/// it is an English BIP-39 mnemonic, else the mnemonic of the SHA-256 digest of
/// its UTF-8 bytes; none where the trimmed input is empty.
pub open spec fn mnemonic_phrase_for(secret_input: Seq<char>) -> Option<Seq<char>> {
    let normalized = trim_spec(secret_input);
    if normalized.len() == 0 {
        None
    } else {
        match bip39_english_phrase(normalized) {
            Some(phrase) => Some(phrase),
            None => Some(bip39_entropy_phrase(sha256_spec(encode_utf8(normalized)))),
        }
    }
}

/// The Ed25519 secret key of a mnemonic: the first 32 bytes of its seed.
pub open spec fn signing_secret_for(phrase: Seq<char>) -> Seq<u8> {
    bip39_seed(phrase).subrange(0, 32)
}

/// The public key of a mnemonic, in lowercase hexadecimal.
pub open spec fn public_key_hex_for(phrase: Seq<char>) -> Seq<char> {
    hex_encode_spec(ed25519_public_key_spec(signing_secret_for(phrase)))
}

/// The signature that a mnemonic's key makes over the UTF-8 bytes of a text,
/// in lowercase hexadecimal.
pub open spec fn signature_hex_for(phrase: Seq<char>, message: Seq<char>) -> Seq<char> {
    hex_encode_spec(ed25519_signature_spec(signing_secret_for(phrase), encode_utf8(message)))
}

/// The outcome of verifying a signed challenge given by its fields: the public
/// key must be 32 bytes of hexadecimal and the signature 64, the key must be a
/// curve point, and the signature must verify over the challenge's text.
pub open spec fn verify_outcome(
    public_key_hex: Seq<char>,
    signature_hex: Seq<char>,
    app_id: Seq<char>,
    timestamp_ms: int,
    device_id: Seq<char>,
    nonce: Seq<char>,
) -> Result<(), IdentityError> {
    let key = hex_decode_spec(encode_utf8(public_key_hex));
    let signature = hex_decode_spec(encode_utf8(signature_hex));
    if !(key is Some && key->0.len() == 32) {
        Err(IdentityError::InvalidPublicKey)
    } else if !(signature is Some && signature->0.len() == 64) {
        Err(IdentityError::InvalidSignature)
    } else if !ed25519_key_accepted(key->0) {
        Err(IdentityError::InvalidPublicKey)
    } else if ed25519_signature_accepted(
        key->0,
        encode_utf8(message_spec(public_key_hex, app_id, nonce, timestamp_ms, device_id)),
        signature->0,
    ) {
        Ok(())
    } else {
        Err(IdentityError::InvalidSignature)
    }
}

/// The outcome of verifying a signed challenge.
pub open spec fn signed_outcome(challenge: SignedChallenge) -> Result<(), IdentityError> {
    verify_outcome(
        challenge.public_key_hex@,
        challenge.signature_hex@,
        challenge.app_id@,
        challenge.timestamp_ms as int,
        challenge.device_id@,
        challenge.nonce@,
    )
}

/// The challenge was signed with the key of the mnemonic: it carries the
/// mnemonic's public key, the signature over its text, and the challenge's
/// fields; and it passes verification.
pub open spec fn signed_by(
    signed: SignedChallenge,
    phrase: Seq<char>,
    app_id: Seq<char>,
    nonce: Seq<char>,
    timestamp_ms: i64,
    device_id: Seq<char>,
) -> bool {
    &&& signed.public_key_hex@ == public_key_hex_for(phrase)
    &&& signed.signature_hex@ == signature_hex_for(
        phrase,
        message_spec(public_key_hex_for(phrase), app_id, nonce, timestamp_ms as int, device_id),
    )
    &&& signed.app_id@ == app_id
    &&& signed.timestamp_ms == timestamp_ms
    &&& signed.device_id@ == device_id
    &&& signed.nonce@ == nonce
    &&& signed_outcome(signed) == Ok::<(), IdentityError>(())
    &&& signed.public_key_hex@.len() == 64 && is_lower_hex(signed.public_key_hex@)
    &&& signed.signature_hex@.len() == 128 && is_lower_hex(signed.signature_hex@)
}

/// An input whose trimmed text is not an English mnemonic stands for the
/// mnemonic made of the SHA-256 digest of the UTF-8 bytes of that whole
/// trimmed text; an input that is a mnemonic stands for that mnemonic.
pub proof fn law_mnemonic_of_input(secret_input: Seq<char>)
    ensures
        trim_spec(secret_input).len() > 0 && bip39_english_phrase(trim_spec(secret_input)) is None
            ==> mnemonic_phrase_for(secret_input) == Some(
            bip39_entropy_phrase(sha256_spec(encode_utf8(trim_spec(secret_input)))),
        ),
        trim_spec(secret_input).len() > 0 && bip39_english_phrase(trim_spec(secret_input)) is Some
            ==> mnemonic_phrase_for(secret_input) == bip39_english_phrase(trim_spec(secret_input)),
        trim_spec(secret_input).len() == 0 ==> mnemonic_phrase_for(secret_input) is None,
{
}

/// Secret inputs that differ only in leading and trailing whitespace stand
/// for the same identity, and an input that is only whitespace for none.
pub proof fn law_identity_depends_on_trimmed_input(a: Seq<char>, b: Seq<char>)
    requires
        trim_spec(a) == trim_spec(b),
    ensures
        mnemonic_phrase_for(a) == mnemonic_phrase_for(b),
        (mnemonic_phrase_for(a) is None) == (trim_spec(a).len() == 0),
{
}

/// The text that is signed for a challenge.
pub fn signature_message(public_key_hex: &str, challenge: &SignatureChallenge) -> (message: String)
    ensures
        message@ == message_spec(
            public_key_hex@,
            challenge.app_id@,
            challenge.nonce@,
            challenge.timestamp_ms as int,
            challenge.device_id@,
        ),
{
    let mut message = String::from_str("dweb-cloud:");
    message.append(challenge.app_id.as_str());
    message.append(":");
    message.append(challenge.nonce.as_str());
    message.append(":");
    let timestamp = i64_to_decimal(challenge.timestamp_ms);
    message.append(timestamp.as_str());
    message.append(":");
    message.append(challenge.device_id.as_str());
    message.append(":");
    message.append(public_key_hex);
    message
}

fn parse_or_derive_mnemonic(secret_input: &str) -> (r: Result<MnemonicWords, IdentityError>)
    ensures
        match mnemonic_phrase_for(secret_input@) {
            None => r == Err::<MnemonicWords, IdentityError>(IdentityError::EmptyInput),
            Some(phrase) => r matches Ok(words) && words.phrase@ == phrase && words.seed@
                == bip39_seed(phrase) && words.seed@.len() == 64 && is_word_text(phrase)
                && bip39_english_phrase(phrase) == Some(phrase)
                && (bip39_english_phrase(trim_spec(secret_input@)) is None ==> word_count(phrase)
                == 24),
        },
{
    let normalized = trim(secret_input);
    if normalized.as_str().is_empty() {
        return Err(IdentityError::EmptyInput);
    }
    match bip39_parse_english(normalized.as_str()) {
        Some(words) => Ok(words),
        None => {
            let digest = sha256_digest(normalized.as_str().as_bytes());
            match bip39_from_entropy(digest.as_slice()) {
                Some(words) => Ok(words),
                None => Err(IdentityError::MnemonicGeneration),
            }
        },
    }
}

/// A mnemonic's text has no whitespace around it.
proof fn lemma_word_text_trimmed(phrase: Seq<char>)
    requires
        is_word_text(phrase),
    ensures
        trim_spec(phrase) == phrase,
{
    assert('a' <= phrase[0] <= 'z');
    assert('a' <= phrase[phrase.len() - 1] <= 'z');
    assert(trim_start_spec(phrase) == phrase);
    assert(trim_end_spec(phrase) == phrase);
}

/// The first 32 bytes of a sequence, as an array.
fn first_32(bytes: &[u8]) -> (out: [u8; 32])
    requires
        bytes@.len() >= 32,
    ensures
        out@ == bytes@.subrange(0, 32),
{
    let mut out = [0u8; 32];
    for i in 0..32
        invariant
            bytes@.len() >= 32,
            out@.len() == 32,
            forall|k: int| 0 <= k < i ==> out@[k] == bytes@[k],
    {
        out[i] = bytes[i];
    }
    assert(out@ =~= bytes@.subrange(0, 32));
    out
}

/// The first 64 bytes of a sequence, as an array.
fn first_64(bytes: &[u8]) -> (out: [u8; 64])
    requires
        bytes@.len() >= 64,
    ensures
        out@ == bytes@.subrange(0, 64),
{
    let mut out = [0u8; 64];
    for i in 0..64
        invariant
            bytes@.len() >= 64,
            out@.len() == 64,
            forall|k: int| 0 <= k < i ==> out@[k] == bytes@[k],
    {
        out[i] = bytes[i];
    }
    assert(out@ =~= bytes@.subrange(0, 64));
    out
}

/// The Ed25519 secret key of a mnemonic: the first 32 bytes of its seed.
fn signing_key_from_mnemonic(words: &MnemonicWords) -> (secret: [u8; 32])
    requires
        words.seed@.len() == 64,
    ensures
        secret@ == words.seed@.subrange(0, 32),
{
    first_32(words.seed.as_slice())
}

/// Derives the mnemonic and public key that a secret input stands for.
pub fn derive_identity(secret_input: &str) -> (r: Result<IdentityMaterial, IdentityError>)
    ensures
        match mnemonic_phrase_for(secret_input@) {
            None => r == Err::<IdentityMaterial, IdentityError>(IdentityError::EmptyInput),
            Some(phrase) => r matches Ok(identity) && identity.mnemonic@ == phrase
                && identity.public_key_hex@ == public_key_hex_for(phrase)
                && identity.public_key_hex@.len() == 64 && is_lower_hex(identity.public_key_hex@)
                && is_word_text(phrase) && mnemonic_phrase_for(phrase) == Some(phrase)
                && (bip39_english_phrase(trim_spec(secret_input@)) is None ==> word_count(phrase)
                == 24),
        },
{
    let words = parse_or_derive_mnemonic(secret_input)?;
    proof {
        lemma_word_text_trimmed(words.phrase@);
    }
    let secret = signing_key_from_mnemonic(&words);
    let public = ed25519_public_key(&secret);
    proof {
        assert(public@.len() == 32);
        lemma_hex_encode_len(public@);
        lemma_hex_encode_lower(public@);
    }
    Ok(IdentityMaterial { mnemonic: words.phrase, public_key_hex: hex_encode(&public) })
}

/// Signs a challenge with the key that a secret input stands for. A challenge
/// signed here passes `verify_signed_challenge`.
pub fn sign_challenge(secret_input: &str, challenge: &SignatureChallenge) -> (r: Result<
    SignedChallenge,
    IdentityError,
>)
    ensures
        match mnemonic_phrase_for(secret_input@) {
            None => r == Err::<SignedChallenge, IdentityError>(IdentityError::EmptyInput),
            Some(phrase) => r matches Ok(signed) && signed_by(
                signed,
                phrase,
                challenge.app_id@,
                challenge.nonce@,
                challenge.timestamp_ms,
                challenge.device_id@,
            ),
        },
{
    let words = parse_or_derive_mnemonic(secret_input)?;
    let secret = signing_key_from_mnemonic(&words);
    let public = ed25519_public_key(&secret);
    let public_key_hex = hex_encode(&public);
    let message = signature_message(public_key_hex.as_str(), challenge);
    let signature = ed25519_sign(&secret, message.as_str().as_bytes());
    let signature_hex = hex_encode(&signature);
    proof {
        lemma_hex_roundtrip(public@);
        lemma_hex_roundtrip(signature@);
        assert(public@.len() == 32);
        assert(signature@.len() == 64);
        lemma_hex_encode_len(public@);
        lemma_hex_encode_len(signature@);
        lemma_hex_encode_lower(public@);
        lemma_hex_encode_lower(signature@);
    }
    let signed = SignedChallenge {
        public_key_hex,
        signature_hex,
        app_id: challenge.app_id.clone(),
        timestamp_ms: challenge.timestamp_ms,
        device_id: challenge.device_id.clone(),
        nonce: challenge.nonce.clone(),
    };
    Ok(signed)
}

/// Verifies a signed challenge: its public key and signature are decoded from
/// hexadecimal and the signature is checked over the challenge's text.
pub fn verify_signed_challenge(challenge: &SignedChallenge) -> (r: Result<(), IdentityError>)
    ensures
        r == signed_outcome(*challenge),
{
    let key_bytes = match hex_decode(challenge.public_key_hex.as_str().as_bytes()) {
        Some(bytes) => bytes,
        None => return Err(IdentityError::InvalidPublicKey),
    };
    if key_bytes.len() != 32 {
        return Err(IdentityError::InvalidPublicKey);
    }
    let signature_bytes = match hex_decode(challenge.signature_hex.as_str().as_bytes()) {
        Some(bytes) => bytes,
        None => return Err(IdentityError::InvalidSignature),
    };
    if signature_bytes.len() != 64 {
        return Err(IdentityError::InvalidSignature);
    }
    let key = first_32(key_bytes.as_slice());
    let signature = first_64(signature_bytes.as_slice());
    proof {
        assert(key@ =~= key_bytes@);
        assert(signature@ =~= signature_bytes@);
    }
    let message = signature_message(
        challenge.public_key_hex.as_str(),
        &SignatureChallenge {
            app_id: challenge.app_id.clone(),
            nonce: challenge.nonce.clone(),
            timestamp_ms: challenge.timestamp_ms,
            device_id: challenge.device_id.clone(),
        },
    );
    match ed25519_verify(&key, message.as_str().as_bytes(), &signature) {
        Ok(()) => Ok(()),
        Err(Ed25519Rejection::Key) => Err(IdentityError::InvalidPublicKey),
        Err(Ed25519Rejection::Signature) => Err(IdentityError::InvalidSignature),
    }
}

} // verus!
