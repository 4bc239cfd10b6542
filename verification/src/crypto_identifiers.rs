use crate::hashing::{hmac_sha256, hmac_sha256_tag, HASH_INPUT_LIMIT, HMAC_BLOCK_LEN};
use crate::native::{spelled_by, u32_to_native, u64_to_native};
use ring::error::{KeyRejected, Unspecified};
use ring::rand::SystemRandom;
use ring::signature::Ed25519KeyPair;
use vstd::prelude::*;
use vstd::string::StringSliceAdditionalSpecFns;

verus! {

/// Bytes in an Ed25519 signature.
pub const SIGNATURE_LEN: usize = 64;

/// Bytes in an Ed25519 public key.
pub const PUBLIC_KEY_LEN: usize = 32;

/// Bytes of fresh randomness in each token.
pub const NONCE_LEN: usize = 16;

/// Bytes that Ed25519 hashes ahead of the message.
pub const SIGNING_PREFIX_LEN: u64 = 64;

/// What a token lets its process do.
#[derive(Clone, Debug, PartialEq, Eq)]
pub enum Capability {
    NetworkAccess,
    /// Access below a path prefix.
    FilesystemAccess(String),
    Syscall(u32),
    /// Allocation up to a number of bytes.
    MemoryAllocation(u64),
}

/// A signed statement of a process's identity and capabilities.
#[derive(Clone, Debug, PartialEq, Eq)]
pub struct ProcessToken {
    pub pid: u32,
    /// Signature of the parent's token, where the process has a parent.
    pub parent_token: Option<Vec<u8>>,
    pub signature: Vec<u8>,
    pub timestamp: u64,
    pub capabilities: Vec<Capability>,
    pub nonce: [u8; 16],
}

/// Signed notice that a token no longer holds.
#[derive(Clone, Debug, PartialEq, Eq)]
pub struct RevocationProof {
    pub token_signature: Vec<u8>,
    pub revoked_at: u64,
    pub proof: Vec<u8>,
}

/// Why a token could not be issued or accepted.
#[derive(Clone, Copy, Debug, PartialEq, Eq, Structural)]
pub enum TokenError {
    /// The system's random source failed.
    Randomness,
    /// The freshly generated key was not accepted back.
    KeyRejected,
    /// The signature does not belong to the token under this key.
    BadSignature,
    /// The token is too long to be hashed.
    MessageTooLong,
}

/// `ring::signature::Ed25519KeyPair`, the signing key.
#[verifier::external_type_specification]
#[verifier::external_body]
pub struct ExEd25519KeyPair(Ed25519KeyPair);

/// `ring::rand::SystemRandom`, the system's random source.
#[verifier::external_type_specification]
#[verifier::external_body]
pub struct ExSystemRandom(SystemRandom);

/// `ring::error::Unspecified`, ring's error without detail.
#[verifier::external_type_specification]
#[verifier::external_body]
pub struct ExUnspecified(Unspecified);

/// `ring::error::KeyRejected`, ring's refusal of a key.
#[verifier::external_type_specification]
#[verifier::external_body]
pub struct ExKeyRejected(KeyRejected);

/// Whether Ed25519 accepts `signature` for `message` under `public_key`.
pub uninterp spec fn ed25519_accepts(
    public_key: Seq<u8>,
    message: Seq<u8>,
    signature: Seq<u8>,
) -> bool;

/// The JSON text of a string, quotes and escapes included.
pub uninterp spec fn json_string(text: Seq<char>) -> Seq<u8>;

/// The decimal digits of a number, in ASCII.
pub open spec fn decimal_bytes(value: nat) -> Seq<u8>
    decreases value,
{
    if value < 10 {
        seq![(0x30 + value) as u8]
    } else {
        decimal_bytes(value / 10).push((0x30 + value % 10) as u8)
    }
}

/// `SystemRandom::new`: a handle on the system's random source.
#[verifier::external_body]
fn system_random() -> SystemRandom {
    SystemRandom::new()
}

/// `Ed25519KeyPair::generate_pkcs8`: a fresh key as a PKCS#8 document, or
/// the failure of the random source.
#[verifier::external_body]
fn generate_pkcs8(rng: &SystemRandom) -> Result<Vec<u8>, Unspecified> {
    Ed25519KeyPair::generate_pkcs8(rng).map(|document| document.as_ref().to_vec())
}

/// `Ed25519KeyPair::from_pkcs8`: the key pair that a document holds, if the
/// document is accepted.
#[verifier::external_body]
fn key_pair_from_pkcs8(pkcs8: &[u8]) -> Result<Ed25519KeyPair, KeyRejected> {
    Ed25519KeyPair::from_pkcs8(pkcs8)
}

/// `KeyPair::public_key`: the public half of the pair, 32 bytes.
#[verifier::external_body]
fn public_key_bytes(key_pair: &Ed25519KeyPair) -> (public_key: Vec<u8>)
    ensures
        public_key@.len() == PUBLIC_KEY_LEN,
{
    ring::signature::KeyPair::public_key(key_pair).as_ref().to_vec()
}

/// `SecureRandom::fill` on sixteen bytes: any bytes, or the failure of the
/// random source.
#[verifier::external_body]
fn random_nonce(rng: &SystemRandom) -> Result<[u8; 16], Unspecified> {
    let mut nonce = [0u8; 16];
    ring::rand::SecureRandom::fill(rng, &mut nonce).map(|_| nonce)
}

/// `Ed25519KeyPair::sign`: a signature of 64 bytes. ring panics where 64
/// bytes and the message are too long for SHA-512's length field as ring
/// keeps it.
#[verifier::external_body]
fn ed25519_sign(key_pair: &Ed25519KeyPair, message: &[u8]) -> (signature: Vec<u8>)
    requires
        message@.len() + SIGNING_PREFIX_LEN < HASH_INPUT_LIMIT,
    ensures
        signature@.len() == SIGNATURE_LEN,
{
    key_pair.sign(message).as_ref().to_vec()
}

/// `UnparsedPublicKey::verify` with `ED25519`: whether the signature is
/// accepted; every refusal, a malformed key included, is `false`.
#[verifier::external_body]
fn ed25519_verify(public_key: &[u8], message: &[u8], signature: &[u8]) -> (accepted: bool)
    requires
        message@.len() + SIGNING_PREFIX_LEN < HASH_INPUT_LIMIT,
    ensures
        accepted == ed25519_accepts(public_key@, message@, signature@),
{
    ring::signature::UnparsedPublicKey::new(&ring::signature::ED25519, public_key)
        .verify(message, signature)
        .is_ok()
}

/// `serde_json::to_vec` on a string: its JSON text. Writing a string into
/// memory has no way to fail.
#[verifier::external_body]
fn json_of_str(text: &str) -> (json: Vec<u8>)
    ensures
        json@ == json_string(text@),
{
    serde_json::to_vec(text).unwrap_or_default()
}

/// `serde_json::to_vec` on a `u64`: its decimal digits. Writing a number
/// into memory has no way to fail.
#[verifier::external_body]
fn json_of_u64(value: u64) -> (json: Vec<u8>)
    ensures
        json@ == decimal_bytes(value as nat),
{
    serde_json::to_vec(&value).unwrap_or_default()
}

/// The key from which session keys are derived.
pub open spec fn session_key_label() -> Seq<u8> {
    "session_derivation".spec_bytes()
}

/// The JSON text of a capability: the bare name of a variant without data,
/// else an object of one member named after the variant.
pub open spec fn capability_json(capability: Capability) -> Seq<u8> {
    match capability {
        Capability::NetworkAccess => "\"NetworkAccess\"".spec_bytes(),
        Capability::FilesystemAccess(path) => "{\"FilesystemAccess\":".spec_bytes() + json_string(
            path@,
        ) + "}".spec_bytes(),
        Capability::Syscall(id) => "{\"Syscall\":".spec_bytes() + decimal_bytes(id as nat)
            + "}".spec_bytes(),
        Capability::MemoryAllocation(limit) => "{\"MemoryAllocation\":".spec_bytes()
            + decimal_bytes(limit as nat) + "}".spec_bytes(),
    }
}

/// The JSON texts of the capabilities, one after the other.
pub open spec fn capabilities_json(capabilities: Seq<Capability>) -> Seq<u8>
    decreases capabilities.len(),
{
    if capabilities.len() == 0 {
        Seq::empty()
    } else {
        capabilities_json(capabilities.drop_last()) + capability_json(capabilities.last())
    }
}

/// The parent's signature, or nothing for a token without parent.
pub open spec fn parent_bytes(parent: Option<Vec<u8>>) -> Seq<u8> {
    match parent {
        Some(signature) => signature@,
        None => Seq::empty(),
    }
}

/// `data` is what a token signs: process id and time stamp in the machine's
/// byte order, the nonce, the parent's signature, the capabilities.
pub open spec fn is_token_data(
    data: Seq<u8>,
    pid: u32,
    timestamp: u64,
    nonce: Seq<u8>,
    parent: Seq<u8>,
    capabilities: Seq<Capability>,
) -> bool {
    exists|pid_bytes: Seq<u8>, time_bytes: Seq<u8>|
        {
            &&& pid_bytes.len() == 4
            &&& time_bytes.len() == 8
            &&& spelled_by(pid as nat, pid_bytes)
            &&& spelled_by(timestamp as nat, time_bytes)
            &&& data == #[trigger] (pid_bytes + time_bytes) + nonce + parent + capabilities_json(
                capabilities,
            )
        }
}

/// `data` is what a revocation signs: the token's signature and the time of
/// revocation in the machine's byte order.
pub open spec fn is_revocation_data(data: Seq<u8>, token_signature: Seq<u8>, revoked_at: u64) -> bool {
    exists|time_bytes: Seq<u8>|
        {
            &&& time_bytes.len() == 8
            &&& spelled_by(revoked_at as nat, time_bytes)
            &&& data == token_signature + time_bytes
        }
}

/// A copy of a capability.
pub fn copy_capability(capability: &Capability) -> (copy: Capability)
    ensures
        copy == *capability,
{
    match capability {
        Capability::NetworkAccess => Capability::NetworkAccess,
        Capability::FilesystemAccess(path) => Capability::FilesystemAccess(path.clone()),
        Capability::Syscall(id) => Capability::Syscall(*id),
        Capability::MemoryAllocation(limit) => Capability::MemoryAllocation(*limit),
    }
}

/// A copy of a list of capabilities.
pub fn copy_capabilities(capabilities: &[Capability]) -> (copy: Vec<Capability>)
    ensures
        copy@ == capabilities@,
{
    let mut copy: Vec<Capability> = Vec::new();
    let mut i: usize = 0;
    while i < capabilities.len()
        invariant
            i <= capabilities.len(),
            copy@ == capabilities@.take(i as int),
        decreases capabilities.len() - i,
    {
        copy.push(copy_capability(&capabilities[i]));
        assert(copy@ =~= capabilities@.take(i + 1));
        i = i + 1;
    }
    assert(capabilities@.take(i as int) =~= capabilities@);
    copy
}

/// Appends the JSON text of `capability` to `out`.
pub fn encode_capability(capability: &Capability, out: &mut Vec<u8>)
    ensures
        final(out)@ == old(out)@ + capability_json(*capability),
{
    match capability {
        Capability::NetworkAccess => {
            out.extend_from_slice("\"NetworkAccess\"".as_bytes());
        },
        Capability::FilesystemAccess(path) => {
            out.extend_from_slice("{\"FilesystemAccess\":".as_bytes());
            let text = json_of_str(path.as_str());
            out.extend_from_slice(text.as_slice());
            out.extend_from_slice("}".as_bytes());
        },
        Capability::Syscall(id) => {
            out.extend_from_slice("{\"Syscall\":".as_bytes());
            let digits = json_of_u64(*id as u64);
            out.extend_from_slice(digits.as_slice());
            out.extend_from_slice("}".as_bytes());
        },
        Capability::MemoryAllocation(limit) => {
            out.extend_from_slice("{\"MemoryAllocation\":".as_bytes());
            let digits = json_of_u64(*limit);
            out.extend_from_slice(digits.as_slice());
            out.extend_from_slice("}".as_bytes());
        },
    }
    assert(final(out)@ =~= old(out)@ + capability_json(*capability));
}

/// The bytes that a token with these fields signs.
pub fn token_data(
    pid: u32,
    timestamp: u64,
    nonce: &[u8; 16],
    parent: Option<&Vec<u8>>,
    capabilities: &[Capability],
) -> (data: Vec<u8>)
    ensures
        is_token_data(
            data@,
            pid,
            timestamp,
            nonce@,
            match parent {
                Some(signature) => signature@,
                None => Seq::empty(),
            },
            capabilities@,
        ),
{
    let pid_bytes = u32_to_native(pid);
    let time_bytes = u64_to_native(timestamp);
    let mut data: Vec<u8> = Vec::new();
    data.extend_from_slice(pid_bytes.as_slice());
    data.extend_from_slice(time_bytes.as_slice());
    data.extend_from_slice(nonce.as_slice());
    match parent {
        Some(signature) => {
            data.extend_from_slice(signature.as_slice());
        },
        None => {},
    }
    let ghost parent_part = match parent {
        Some(signature) => signature@,
        None => Seq::<u8>::empty(),
    };
    let ghost head = (pid_bytes@ + time_bytes@) + nonce@ + parent_part;
    assert(data@ =~= head);
    let mut i: usize = 0;
    while i < capabilities.len()
        invariant
            i <= capabilities.len(),
            data@ == head + capabilities_json(capabilities@.take(i as int)),
        decreases capabilities.len() - i,
    {
        encode_capability(&capabilities[i], &mut data);
        proof {
            let upto = capabilities@.take(i + 1);
            assert(upto.drop_last() =~= capabilities@.take(i as int));
            assert(upto.last() == capabilities@[i as int]);
            assert(data@ =~= head + capabilities_json(upto));
        }
        i = i + 1;
    }
    assert(capabilities@.take(i as int) =~= capabilities@);
    data
}

/// Length of what a token with this parent and these capabilities signs.
pub open spec fn token_data_len(parent: Seq<u8>, capabilities: Seq<Capability>) -> nat {
    4 + 8 + NONCE_LEN as nat + parent.len() + capabilities_json(capabilities).len()
}

/// What a check of the signature comes to: `Ok(true)` where it is accepted,
/// `BadSignature` where it is not.
pub open spec fn spec_verdict(accepted: bool) -> Result<bool, TokenError> {
    if accepted {
        Ok(true)
    } else {
        Err(TokenError::BadSignature)
    }
}

pub fn verdict(accepted: bool) -> (checked: Result<bool, TokenError>)
    ensures
        checked == spec_verdict(accepted),
{
    if accepted {
        Ok(true)
    } else {
        Err(TokenError::BadSignature)
    }
}

impl ProcessToken {
    /// The token of these fields under `signature`.
    pub fn assemble(
        pid: u32,
        parent: Option<&Vec<u8>>,
        capabilities: &[Capability],
        timestamp: u64,
        nonce: [u8; 16],
        signature: Vec<u8>,
    ) -> (token: ProcessToken)
        ensures
            token.pid == pid,
            token.timestamp == timestamp,
            token.nonce == nonce,
            token.signature == signature,
            token.capabilities@ == capabilities@,
            token.parent_token is Some <==> parent is Some,
            parent matches Some(parent_signature) ==> token.spec_parent() == parent_signature@,
    {
        let kept: Option<Vec<u8>> = match parent {
            Some(parent_signature) => Some(parent_signature.clone()),
            None => None,
        };
        ProcessToken {
            pid,
            parent_token: kept,
            signature,
            timestamp,
            capabilities: copy_capabilities(capabilities),
            nonce,
        }
    }

    /// The signature of the parent's token, or nothing.
    pub open spec fn spec_parent(&self) -> Seq<u8> {
        parent_bytes(self.parent_token)
    }

    /// Whether `data` is what this token's signature has to cover.
    pub open spec fn signs(&self, data: Seq<u8>) -> bool {
        is_token_data(
            data,
            self.pid,
            self.timestamp,
            self.nonce@,
            self.spec_parent(),
            self.capabilities@,
        )
    }

    /// The bytes that the token's signature has to cover.
    pub fn signed_data(&self) -> (data: Vec<u8>)
        ensures
            self.signs(data@),
            data@.len() == token_data_len(self.spec_parent(), self.capabilities@),
    {
        let parent: Option<&Vec<u8>> = match &self.parent_token {
            Some(signature) => Some(signature),
            None => None,
        };
        token_data(self.pid, self.timestamp, &self.nonce, parent, self.capabilities.as_slice())
    }
}

/// Issues, checks and revokes process tokens under one Ed25519 key.
pub struct CryptoIdentifier {
    key_pair: Ed25519KeyPair,
    public_key: Vec<u8>,
    rng: SystemRandom,
}

impl CryptoIdentifier {
    /// The public half of the signing key.
    pub closed spec fn spec_public_key(&self) -> Seq<u8> {
        self.public_key@
    }

    /// An identifier with a freshly generated key.
    pub fn new() -> (made: Result<CryptoIdentifier, TokenError>)
        ensures
            made matches Ok(identifier) ==> identifier.spec_public_key().len() == PUBLIC_KEY_LEN,
            made matches Err(error) ==> error == TokenError::Randomness || error
                == TokenError::KeyRejected,
    {
        let rng = system_random();
        let pkcs8 = match generate_pkcs8(&rng) {
            Ok(document) => document,
            Err(_) => {
                return Err(TokenError::Randomness);
            },
        };
        let key_pair = match key_pair_from_pkcs8(pkcs8.as_slice()) {
            Ok(key_pair) => key_pair,
            Err(_) => {
                return Err(TokenError::KeyRejected);
            },
        };
        let public_key = public_key_bytes(&key_pair);
        Ok(CryptoIdentifier { key_pair, public_key, rng })
    }

    pub fn public_key(&self) -> (public_key: &Vec<u8>)
        ensures
            public_key@ == self.spec_public_key(),
    {
        &self.public_key
    }

    /// Issues a token for `pid` at `timestamp`, chained to `parent_token`
    /// where there is one, with a fresh nonce and a signature over all of it.
    pub fn generate_process_token(
        &self,
        pid: u32,
        parent_token: Option<&ProcessToken>,
        capabilities: &[Capability],
        timestamp: u64,
    ) -> (issued: Result<ProcessToken, TokenError>)
        ensures
            issued matches Ok(token) ==> {
                &&& token.pid == pid
                &&& token.timestamp == timestamp
                &&& token.capabilities@ == capabilities@
                &&& token.parent_token is Some <==> parent_token is Some
                &&& parent_token matches Some(parent) ==> token.spec_parent() == parent.signature@
                &&& token.signature@.len() == SIGNATURE_LEN
            },
            issued matches Err(error) ==> error == TokenError::Randomness || error
                == TokenError::MessageTooLong,
            issued == Err::<ProcessToken, TokenError>(TokenError::MessageTooLong) ==> token_data_len(
                match parent_token {
                    Some(parent) => parent.signature@,
                    None => Seq::empty(),
                },
                capabilities@,
            ) + SIGNING_PREFIX_LEN >= HASH_INPUT_LIMIT,
    {
        let nonce = match random_nonce(&self.rng) {
            Ok(nonce) => nonce,
            Err(_) => {
                return Err(TokenError::Randomness);
            },
        };
        let parent: Option<&Vec<u8>> = match parent_token {
            Some(token) => Some(&token.signature),
            None => None,
        };
        let data = token_data(pid, timestamp, &nonce, parent, capabilities);
        if data.len() as u64 >= HASH_INPUT_LIMIT - SIGNING_PREFIX_LEN {
            return Err(TokenError::MessageTooLong);
        }
        let signature = ed25519_sign(&self.key_pair, data.as_slice());
        Ok(ProcessToken::assemble(pid, parent, capabilities, timestamp, nonce, signature))
    }

    /// Checks the signature of `token` under this identifier's key.
    pub fn verify_token(&self, token: &ProcessToken) -> (checked: Result<bool, TokenError>)
        ensures
            token_data_len(token.spec_parent(), token.capabilities@) + SIGNING_PREFIX_LEN
                >= HASH_INPUT_LIMIT ==> checked == Err::<bool, TokenError>(
                TokenError::MessageTooLong,
            ),
            token_data_len(token.spec_parent(), token.capabilities@) + SIGNING_PREFIX_LEN
                < HASH_INPUT_LIMIT ==> exists|data: Seq<u8>|
                #![trigger token.signs(data)]
                token.signs(data) && checked == spec_verdict(
                    ed25519_accepts(self.spec_public_key(), data, token.signature@),
                ),
    {
        let data = token.signed_data();
        if data.len() as u64 >= HASH_INPUT_LIMIT - SIGNING_PREFIX_LEN {
            return Err(TokenError::MessageTooLong);
        }
        let accepted = ed25519_verify(
            self.public_key.as_slice(),
            data.as_slice(),
            token.signature.as_slice(),
        );
        assert(token.signs(data@));
        verdict(accepted)
    }

    /// Derives the session key of a token from its signature.
    pub fn generate_session_key(&self, token: &ProcessToken) -> (key: [u8; 32])
        requires
            token.signature@.len() + HMAC_BLOCK_LEN < HASH_INPUT_LIMIT,
        ensures
            key@ == hmac_sha256(session_key_label(), token.signature@),
    {
        let label = "session_derivation".as_bytes();
        assert(label@.len() < HASH_INPUT_LIMIT) by {
            reveal_strlit("session_derivation");
            vstd::string::is_ascii_spec_bytes("session_derivation");
        }
        hmac_sha256_tag(label, token.signature.as_slice())
    }

    /// Signs the notice that `token` is revoked as of `revoked_at`.
    pub fn revoke_token(&self, token: &ProcessToken, revoked_at: u64) -> (revocation:
        RevocationProof)
        requires
            token.signature@.len() + 8 + SIGNING_PREFIX_LEN < HASH_INPUT_LIMIT,
        ensures
            revocation.token_signature@ == token.signature@,
            revocation.revoked_at == revoked_at,
            revocation.proof@.len() == SIGNATURE_LEN,
    {
        let data = revocation_data(token.signature.as_slice(), revoked_at);
        RevocationProof {
            token_signature: token.signature.clone(),
            revoked_at,
            proof: ed25519_sign(&self.key_pair, data.as_slice()),
        }
    }
}

/// The bytes that the revocation of a token signs.
pub fn revocation_data(token_signature: &[u8], revoked_at: u64) -> (data: Vec<u8>)
    ensures
        is_revocation_data(data@, token_signature@, revoked_at),
        data@.len() == token_signature@.len() + 8,
{
    let time_bytes = u64_to_native(revoked_at);
    let mut data: Vec<u8> = Vec::new();
    data.extend_from_slice(token_signature);
    data.extend_from_slice(time_bytes.as_slice());
    assert(data@ =~= token_signature@ + time_bytes@);
    data
}

} // verus!
