use sysguard::crypto_identifiers::{
    copy_capabilities, copy_capability, encode_capability, revocation_data, token_data, verdict,
    Capability, CryptoIdentifier, ProcessToken, TokenError, NONCE_LEN, PUBLIC_KEY_LEN,
    SIGNATURE_LEN,
};

fn capabilities() -> Vec<Capability> {
    vec![
        Capability::NetworkAccess,
        Capability::FilesystemAccess(String::from("/var/\"log\"\n")),
        Capability::Syscall(59),
        Capability::MemoryAllocation(u64::MAX),
    ]
}

fn json(capability: &Capability) -> Vec<u8> {
    let mut out = Vec::new();
    encode_capability(capability, &mut out);
    out
}

#[test]
fn capability_is_written_as_json() {
    assert_eq!(json(&Capability::NetworkAccess), b"\"NetworkAccess\"".to_vec());
    assert_eq!(json(&Capability::Syscall(0)), b"{\"Syscall\":0}".to_vec());
    assert_eq!(json(&Capability::Syscall(59)), b"{\"Syscall\":59}".to_vec());
    assert_eq!(json(&Capability::Syscall(u32::MAX)), b"{\"Syscall\":4294967295}".to_vec());
    assert_eq!(
        json(&Capability::MemoryAllocation(18_446_744_073_709_551_615)),
        b"{\"MemoryAllocation\":18446744073709551615}".to_vec()
    );
    assert_eq!(
        json(&Capability::FilesystemAccess(String::from("/tmp"))),
        b"{\"FilesystemAccess\":\"/tmp\"}".to_vec()
    );
}

#[test]
fn path_is_escaped_as_json_does() {
    let path = "/var/\"log\"\\\n\u{1}\u{e9}";
    let mut expected = b"{\"FilesystemAccess\":".to_vec();
    expected.extend_from_slice(&serde_json::to_vec(path).unwrap());
    expected.push(b'}');
    assert_eq!(json(&Capability::FilesystemAccess(String::from(path))), expected);
    assert_eq!(
        json(&Capability::FilesystemAccess(String::from("a\"b"))),
        b"{\"FilesystemAccess\":\"a\\\"b\"}".to_vec()
    );
}

#[test]
fn encoding_appends_to_what_is_there() {
    let mut out = vec![1u8, 2, 3];
    encode_capability(&Capability::Syscall(7), &mut out);
    encode_capability(&Capability::NetworkAccess, &mut out);
    let mut expected = vec![1u8, 2, 3];
    expected.extend_from_slice(b"{\"Syscall\":7}\"NetworkAccess\"");
    assert_eq!(out, expected);
}

#[test]
fn token_data_lists_the_fields_in_order() {
    let nonce = [7u8; 16];
    let parent = vec![0xAAu8; 64];
    let data = token_data(77, 1_700_000_000, &nonce, Some(&parent), &capabilities());
    let mut expected = Vec::new();
    expected.extend_from_slice(&77u32.to_ne_bytes());
    expected.extend_from_slice(&1_700_000_000u64.to_ne_bytes());
    expected.extend_from_slice(&nonce);
    expected.extend_from_slice(&parent);
    for capability in capabilities() {
        expected.extend_from_slice(&json(&capability));
    }
    assert_eq!(data, expected);
    let orphan = token_data(77, 1_700_000_000, &nonce, None, &[]);
    assert_eq!(orphan.len(), 4 + 8 + NONCE_LEN);
    assert_eq!(orphan, expected[..28].to_vec());
}

#[test]
fn capabilities_are_copied_whole() {
    let granted = capabilities();
    assert_eq!(copy_capabilities(&granted), granted);
    assert_eq!(copy_capabilities(&[]), Vec::new());
    for capability in &granted {
        assert_eq!(&copy_capability(capability), capability);
    }
}

#[test]
fn issued_token_carries_what_was_asked() {
    let identifier = CryptoIdentifier::new().unwrap();
    assert_eq!(identifier.public_key().len(), PUBLIC_KEY_LEN);
    let token = identifier.generate_process_token(42, None, &capabilities(), 1_700_000_000).unwrap();
    assert_eq!(token.pid, 42);
    assert_eq!(token.timestamp, 1_700_000_000);
    assert_eq!(token.parent_token, None);
    assert_eq!(token.capabilities, capabilities());
    assert_eq!(token.signature.len(), SIGNATURE_LEN);
    let other = identifier.generate_process_token(42, None, &capabilities(), 1_700_000_000).unwrap();
    assert_ne!(token.nonce, other.nonce);
    assert_ne!(token.signature, other.signature);
}

#[test]
fn issued_token_verifies() {
    let identifier = CryptoIdentifier::new().unwrap();
    let parent = identifier.generate_process_token(1, None, &[], 5).unwrap();
    assert_eq!(identifier.verify_token(&parent), Ok(true));
    let child =
        identifier.generate_process_token(2, Some(&parent), &capabilities(), 6).unwrap();
    assert_eq!(child.parent_token, Some(parent.signature.clone()));
    assert_eq!(identifier.verify_token(&child), Ok(true));
}

#[test]
fn signature_covers_the_token_data() {
    let identifier = CryptoIdentifier::new().unwrap();
    let token = identifier.generate_process_token(9, None, &capabilities(), 123).unwrap();
    let data = token.signed_data();
    assert_eq!(data, token_data(9, 123, &token.nonce, None, &capabilities()));
    let key = ring::signature::UnparsedPublicKey::new(
        &ring::signature::ED25519,
        identifier.public_key().clone(),
    );
    assert!(key.verify(&data, &token.signature).is_ok());
}

#[test]
fn changed_token_is_refused() {
    let identifier = CryptoIdentifier::new().unwrap();
    let token = identifier.generate_process_token(42, None, &capabilities(), 1000).unwrap();
    let mut other_pid = token.clone();
    other_pid.pid = 43;
    assert_eq!(identifier.verify_token(&other_pid), Err(TokenError::BadSignature));
    let mut later = token.clone();
    later.timestamp += 1;
    assert_eq!(identifier.verify_token(&later), Err(TokenError::BadSignature));
    let mut more = token.clone();
    more.capabilities.push(Capability::NetworkAccess);
    assert_eq!(identifier.verify_token(&more), Err(TokenError::BadSignature));
    let mut adopted = token.clone();
    adopted.parent_token = Some(vec![1, 2, 3]);
    assert_eq!(identifier.verify_token(&adopted), Err(TokenError::BadSignature));
    let mut forged = token.clone();
    forged.signature[0] ^= 1;
    assert_eq!(identifier.verify_token(&forged), Err(TokenError::BadSignature));
    let mut cut = token.clone();
    cut.signature.truncate(10);
    assert_eq!(identifier.verify_token(&cut), Err(TokenError::BadSignature));
    assert_eq!(identifier.verify_token(&token), Ok(true));
}

#[test]
fn token_of_another_key_is_refused() {
    let issuer = CryptoIdentifier::new().unwrap();
    let stranger = CryptoIdentifier::new().unwrap();
    let token = issuer.generate_process_token(42, None, &[], 1000).unwrap();
    assert_eq!(stranger.verify_token(&token), Err(TokenError::BadSignature));
}

#[test]
fn verdict_maps_refusal_to_bad_signature() {
    assert_eq!(verdict(true), Ok(true));
    assert_eq!(verdict(false), Err(TokenError::BadSignature));
}

#[test]
fn session_key_is_derived_from_the_signature() {
    let identifier = CryptoIdentifier::new().unwrap();
    let token = ProcessToken {
        pid: 1,
        parent_token: None,
        signature: vec![5u8; 64],
        timestamp: 0,
        capabilities: Vec::new(),
        nonce: [0u8; 16],
    };
    let key = ring::hmac::Key::new(ring::hmac::HMAC_SHA256, b"session_derivation");
    let expected = ring::hmac::sign(&key, &token.signature);
    assert_eq!(identifier.generate_session_key(&token).to_vec(), expected.as_ref().to_vec());
    let mut other = token.clone();
    other.signature[3] = 6;
    assert_ne!(identifier.generate_session_key(&other), identifier.generate_session_key(&token));
}

#[test]
fn revocation_is_signed_over_signature_and_time() {
    let identifier = CryptoIdentifier::new().unwrap();
    let token = identifier.generate_process_token(3, None, &[], 10).unwrap();
    let revocation = identifier.revoke_token(&token, 99);
    assert_eq!(revocation.token_signature, token.signature);
    assert_eq!(revocation.revoked_at, 99);
    assert_eq!(revocation.proof.len(), SIGNATURE_LEN);
    let mut signed = token.signature.clone();
    signed.extend_from_slice(&99u64.to_ne_bytes());
    assert_eq!(revocation_data(&token.signature, 99), signed);
    let key = ring::signature::UnparsedPublicKey::new(
        &ring::signature::ED25519,
        identifier.public_key().clone(),
    );
    assert!(key.verify(&signed, &revocation.proof).is_ok());
}
