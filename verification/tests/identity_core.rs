use dweb_cloud::cli::{sign_for_scope, ACCOUNT_MANAGEMENT_SCOPE};
use ed25519_dalek::Verifier;
use dweb_cloud::identity::{
    derive_identity, sign_challenge, signature_message, verify_signed_challenge, IdentityError,
    SignatureChallenge, SignedChallenge,
};

fn challenge() -> SignatureChallenge {
    SignatureChallenge {
        app_id: "gaubee-2fa".into(),
        nonce: "nonce-1".into(),
        timestamp_ms: 1,
        device_id: "device-1".into(),
    }
}

#[test]
fn derives_stable_identity() {
    let left = derive_identity("secret").unwrap();
    let right = derive_identity("secret").unwrap();
    assert_eq!(left.public_key_hex, right.public_key_hex);
    assert_eq!(left.mnemonic, right.mnemonic);
}

#[test]
fn signs_and_verifies() {
    let signed = sign_challenge(
        "secret",
        &SignatureChallenge {
            app_id: "gaubee-2fa".into(),
            nonce: "nonce-1".into(),
            timestamp_ms: 1,
            device_id: "device-1".into(),
        },
    )
    .unwrap();
    verify_signed_challenge(&signed).unwrap();
}

#[test]
fn signature_message_has_fixed_layout() {
    let message = signature_message("pk", &challenge());
    assert_eq!(message, "dweb-cloud:gaubee-2fa:nonce-1:1:device-1:pk");
    let mut negative = challenge();
    negative.timestamp_ms = -42;
    assert_eq!(signature_message("k", &negative), "dweb-cloud:gaubee-2fa:nonce-1:-42:device-1:k");
    negative.timestamp_ms = i64::MIN;
    assert_eq!(
        signature_message("k", &negative),
        "dweb-cloud:gaubee-2fa:nonce-1:-9223372036854775808:device-1:k"
    );
    negative.timestamp_ms = i64::MAX;
    assert_eq!(
        signature_message("k", &negative),
        "dweb-cloud:gaubee-2fa:nonce-1:9223372036854775807:device-1:k"
    );
    negative.timestamp_ms = 0;
    assert_eq!(signature_message("", &negative), "dweb-cloud:gaubee-2fa:nonce-1:0:device-1:");
}

#[test]
fn empty_secret_is_refused() {
    assert_eq!(derive_identity("").unwrap_err(), IdentityError::EmptyInput);
    assert_eq!(derive_identity(" \t\n\u{3000}").unwrap_err(), IdentityError::EmptyInput);
    assert_eq!(sign_challenge("  ", &challenge()).unwrap_err(), IdentityError::EmptyInput);
}

#[test]
fn surrounding_whitespace_does_not_change_identity() {
    let plain = derive_identity("secret").unwrap();
    let padded = derive_identity("  secret\u{2003}\n").unwrap();
    assert_eq!(plain.public_key_hex, padded.public_key_hex);
    assert_eq!(plain.mnemonic, padded.mnemonic);
    let other = derive_identity("secret2").unwrap();
    assert_ne!(plain.public_key_hex, other.public_key_hex);
}

const ABOUT: &str =
    "abandon abandon abandon abandon abandon abandon abandon abandon abandon abandon abandon about";

#[test]
fn mnemonic_input_is_used_as_is() {
    let identity = derive_identity(&format!("  {}  ", ABOUT.replace(' ', "   "))).unwrap();
    assert_eq!(identity.mnemonic, ABOUT);
    // The BIP-39 seed of this mnemonic with an empty passphrase is a published
    // test vector; its first 32 bytes are the Ed25519 secret key.
    let seed = hex::decode(
        "5eb00bbddcf069084889a8ab9155568165f5c453ccb85e70811aaed6f6da5fc19a5ac40b389cd370d086206dec8aa6c43daea6690f20ad3d8d48b2d2ce9e38e4",
    )
    .unwrap();
    let mut secret = [0u8; 32];
    secret.copy_from_slice(&seed[..32]);
    let expected = ed25519_dalek::SigningKey::from_bytes(&secret).verifying_key().to_bytes();
    assert_eq!(identity.public_key_hex, hex::encode(expected));
    assert_eq!(identity.public_key_hex.len(), 64);
    assert!(identity.public_key_hex.chars().all(|c| c.is_ascii_hexdigit() && !c.is_ascii_uppercase()));
}

#[test]
fn non_mnemonic_input_is_hashed_into_a_mnemonic() {
    let identity = derive_identity("secret").unwrap();
    let digest = <sha2::Sha256 as sha2::Digest>::digest("secret".as_bytes());
    let expected = bip39::Mnemonic::from_entropy(&digest).unwrap();
    assert_eq!(identity.mnemonic, expected.to_string());
    assert_eq!(identity.mnemonic.split(' ').count(), 24);
}

#[test]
fn signature_is_ed25519_over_the_message() {
    let signed = sign_challenge("secret", &challenge()).unwrap();
    assert_eq!(signed.app_id, "gaubee-2fa");
    assert_eq!(signed.nonce, "nonce-1");
    assert_eq!(signed.timestamp_ms, 1);
    assert_eq!(signed.device_id, "device-1");
    assert_eq!(signed.public_key_hex, derive_identity("secret").unwrap().public_key_hex);
    assert_eq!(signed.signature_hex.len(), 128);
    let key_bytes: [u8; 32] = hex::decode(&signed.public_key_hex).unwrap().try_into().unwrap();
    let sig_bytes: [u8; 64] = hex::decode(&signed.signature_hex).unwrap().try_into().unwrap();
    let key = ed25519_dalek::VerifyingKey::from_bytes(&key_bytes).unwrap();
    let message = signature_message(&signed.public_key_hex, &challenge());
    key.verify(message.as_bytes(), &ed25519_dalek::Signature::from_bytes(&sig_bytes)).unwrap();
    // Signing is deterministic.
    let again = sign_challenge("secret", &challenge()).unwrap();
    assert_eq!(again.signature_hex, signed.signature_hex);
}

fn signed() -> SignedChallenge {
    sign_challenge("secret", &challenge()).unwrap()
}

#[test]
fn uppercase_hex_is_accepted() {
    let mut s = signed();
    s.public_key_hex = s.public_key_hex.to_uppercase();
    s.signature_hex = s.signature_hex.to_uppercase();
    // The public key is part of the signed text, so an uppercase key changes
    // the text and the signature no longer matches it.
    assert_eq!(verify_signed_challenge(&s), Err(IdentityError::InvalidSignature));
    let mut t = signed();
    t.signature_hex = t.signature_hex.to_uppercase();
    assert_eq!(verify_signed_challenge(&t), Ok(()));
}

#[test]
fn malformed_public_key_is_refused() {
    let mut s = signed();
    s.public_key_hex = "zz".into();
    assert_eq!(verify_signed_challenge(&s), Err(IdentityError::InvalidPublicKey));
    let mut s = signed();
    s.public_key_hex.push('0');
    assert_eq!(verify_signed_challenge(&s), Err(IdentityError::InvalidPublicKey));
    let mut s = signed();
    s.public_key_hex.truncate(62);
    assert_eq!(verify_signed_challenge(&s), Err(IdentityError::InvalidPublicKey));
    // A key error is reported before a signature error.
    let mut s = signed();
    s.public_key_hex = "".into();
    s.signature_hex = "nothex".into();
    assert_eq!(verify_signed_challenge(&s), Err(IdentityError::InvalidPublicKey));
}

#[test]
fn key_off_the_curve_is_refused() {
    let rejected = (0u8..=255)
        .map(|b| {
            let mut bytes = [b; 32];
            bytes[31] &= 0x7f;
            bytes
        })
        .find(|bytes| ed25519_dalek::VerifyingKey::from_bytes(bytes).is_err())
        .expect("some byte pattern is not a curve point");
    let mut s = signed();
    s.public_key_hex = hex::encode(rejected);
    assert_eq!(verify_signed_challenge(&s), Err(IdentityError::InvalidPublicKey));
}

#[test]
fn malformed_or_wrong_signature_is_refused() {
    let mut s = signed();
    s.signature_hex = "g".repeat(128);
    assert_eq!(verify_signed_challenge(&s), Err(IdentityError::InvalidSignature));
    let mut s = signed();
    s.signature_hex.truncate(126);
    assert_eq!(verify_signed_challenge(&s), Err(IdentityError::InvalidSignature));
    let mut s = signed();
    s.nonce = "nonce-2".into();
    assert_eq!(verify_signed_challenge(&s), Err(IdentityError::InvalidSignature));
    let mut s = signed();
    s.timestamp_ms = 2;
    assert_eq!(verify_signed_challenge(&s), Err(IdentityError::InvalidSignature));
    let mut s = signed();
    s.public_key_hex = derive_identity("other").unwrap().public_key_hex;
    assert_eq!(verify_signed_challenge(&s), Err(IdentityError::InvalidSignature));
}

#[test]
fn identity_error_messages() {
    assert_eq!(IdentityError::EmptyInput.message(), "secret input is empty");
    assert_eq!(IdentityError::MnemonicGeneration.message(), "mnemonic generation failed");
    assert_eq!(IdentityError::InvalidPublicKey.message(), "public key is invalid");
    assert_eq!(IdentityError::InvalidSignature.message(), "signature is invalid");
}

#[test]
fn sign_for_scope_signs_the_account_scope() {
    let signed = sign_for_scope("secret", ACCOUNT_MANAGEMENT_SCOPE, "n", "cli-device", 77).unwrap();
    assert_eq!(signed.app_id, "dweb-cloud-account");
    assert_eq!(signed.nonce, "n");
    assert_eq!(signed.device_id, "cli-device");
    assert_eq!(signed.timestamp_ms, 77);
    verify_signed_challenge(&signed).unwrap();
    assert_eq!(sign_for_scope(" ", "a", "n", "d", 0).unwrap_err(), IdentityError::EmptyInput);
}

#[test]
fn derived_mnemonic_derives_the_same_identity() {
    for secret in ["secret", "  another secret  "] {
        let identity = derive_identity(secret).unwrap();
        assert_eq!(identity.mnemonic.split(' ').count(), 24);
        assert!(identity.mnemonic.chars().all(|c| c == ' ' || c.is_ascii_lowercase()));
        let again = derive_identity(&identity.mnemonic).unwrap();
        assert_eq!(again.mnemonic, identity.mnemonic);
        assert_eq!(again.public_key_hex, identity.public_key_hex);
        assert_eq!(identity.public_key_hex.len(), 64);
    }
}

#[test]
fn signature_hex_is_128_lowercase_digits() {
    let signed = sign_challenge("secret", &challenge()).unwrap();
    assert_eq!(signed.signature_hex.len(), 128);
    assert!(signed.signature_hex.chars().all(|c| c.is_ascii_digit() || ('a'..='f').contains(&c)));
    assert_eq!(signed.public_key_hex.len(), 64);
}
