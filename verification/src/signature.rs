//! Ed25519 signature checks on message digests.

use crate::error::BootstrapError;
use vstd::prelude::*;

verus! {

/// Number of bytes of a public key.
pub const PUBLIC_KEY_SIZE_BYTES: usize = 32;

/// Number of bytes of a signature.
pub const SIGNATURE_SIZE_BYTES: usize = 64;

/// Whether `ed25519_dalek` accepts `signature` as one of `message` under the
/// key encoded by `public_key`.
pub uninterp spec fn ed25519_accepts(
    public_key: Seq<u8>,
    message: Seq<u8>,
    signature: Seq<u8>,
) -> bool;

/// The signature that `ed25519_dalek` makes of `message` with the secret key
/// `secret`.
pub uninterp spec fn ed25519_signature(secret: Seq<u8>, message: Seq<u8>) -> Seq<u8>;

/// The encoding of the public key that `ed25519_dalek` derives from the
/// secret key `secret`.
pub uninterp spec fn ed25519_public(secret: Seq<u8>) -> Seq<u8>;

/// Builds the key with `ed25519_dalek::SigningKey::from_bytes` and signs with
/// its `Signer::try_sign`.
///
/// Trusted: a signature that comes back depends on the secret key and the
/// message alone.
#[verifier::external_body]
fn ed25519_sign(secret: &[u8; 32], message: &[u8]) -> (signature: Option<[u8; 64]>)
    ensures
        signature matches Some(bytes) ==> bytes@ == ed25519_signature(secret@, message@),
{
    let key = ed25519_dalek::SigningKey::from_bytes(secret);
    match ed25519_dalek::Signer::try_sign(&key, message) {
        Ok(signature) => Some(signature.to_bytes()),
        Err(_) => None,
    }
}

/// Builds the key with `ed25519_dalek::SigningKey::from_bytes` and encodes
/// its `verifying_key`.
///
/// Trusted: the encoded public key depends on the secret key alone.
#[verifier::external_body]
fn ed25519_derive(secret: &[u8; 32]) -> (public: [u8; 32])
    ensures
        public@ == ed25519_public(secret@),
{
    ed25519_dalek::SigningKey::from_bytes(secret).verifying_key().to_bytes()
}

/// Decodes the key with `ed25519_dalek::VerifyingKey::from_bytes` and checks
/// the signature with its `Verifier::verify`.
///
/// Trusted: the answer depends on the three byte strings alone. Bytes that
/// encode no key are rejected.
#[verifier::external_body]
fn ed25519_verify(public_key: &[u8; 32], message: &[u8], signature: &[u8; 64]) -> (accepted: bool)
    ensures
        accepted == ed25519_accepts(public_key@, message@, signature@),
{
    match ed25519_dalek::VerifyingKey::from_bytes(public_key) {
        Ok(key) => {
            let sig = ed25519_dalek::Signature::from_bytes(signature);
            ed25519_dalek::Verifier::verify(&key, message, &sig).is_ok()
        },
        Err(_) => false,
    }
}

/// A signature, as it travels on the wire.
#[derive(Clone, Copy, Debug, PartialEq, Eq)]
pub struct Signature {
    bytes: [u8; 64],
}

impl View for Signature {
    type V = Seq<u8>;

    closed spec fn view(&self) -> Seq<u8> {
        self.bytes@
    }
}

impl Signature {
    /// The signature whose bytes are `bytes`.
    pub fn from_bytes(bytes: &[u8; 64]) -> (signature: Signature)
        ensures
            signature@ == bytes@,
    {
        Signature { bytes: *bytes }
    }

    /// The bytes of the signature.
    pub fn to_bytes(&self) -> (bytes: &[u8; 64])
        ensures
            bytes@ == self@,
    {
        &self.bytes
    }
}

/// The public key of a bootstrap server.
#[derive(Clone, Copy, Debug, PartialEq, Eq)]
pub struct PublicKey {
    bytes: [u8; 32],
}

impl View for PublicKey {
    type V = Seq<u8>;

    closed spec fn view(&self) -> Seq<u8> {
        self.bytes@
    }
}

impl PublicKey {
    /// The key whose encoding is `bytes`.
    pub fn from_bytes(bytes: &[u8; 32]) -> (key: PublicKey)
        ensures
            key@ == bytes@,
    {
        PublicKey { bytes: *bytes }
    }

    /// The encoding of the key.
    pub fn to_bytes(&self) -> (bytes: &[u8; 32])
        ensures
            bytes@ == self@,
    {
        &self.bytes
    }

    /// Checks that `signature` signs `hash` under this key.
    ///
    /// Fails with `BadSignature` exactly when the signature is not accepted.
    pub fn verify_signature(&self, hash: &crate::hash::Hash, signature: &Signature) -> (res: Result<
        (),
        BootstrapError,
    >)
        ensures
            match res {
                Ok(_) => ed25519_accepts(self@, hash@, signature@),
                Err(e) => e == BootstrapError::BadSignature && !ed25519_accepts(
                    self@,
                    hash@,
                    signature@,
                ),
            },
    {
        let message = hash.to_bytes();
        if ed25519_verify(&self.bytes, message.as_slice(), signature.to_bytes()) {
            Ok(())
        } else {
            Err(BootstrapError::BadSignature)
        }
    }
}

/// A secret key.
#[derive(Clone, Copy, Debug, PartialEq, Eq)]
pub struct PrivateKey {
    bytes: [u8; 32],
}

impl View for PrivateKey {
    type V = Seq<u8>;

    closed spec fn view(&self) -> Seq<u8> {
        self.bytes@
    }
}

impl PrivateKey {
    /// The key whose encoding is `bytes`.
    pub fn from_bytes(bytes: &[u8; 32]) -> (key: PrivateKey)
        ensures
            key@ == bytes@,
    {
        PrivateKey { bytes: *bytes }
    }

    /// The encoding of the key.
    pub fn to_bytes(&self) -> (bytes: &[u8; 32])
        ensures
            bytes@ == self@,
    {
        &self.bytes
    }

    /// The key whose encoding is `bytes`, which a key has exactly when it
    /// holds 32 bytes.
    pub fn from_slice(bytes: &[u8]) -> (key: Option<PrivateKey>)
        ensures
            match key {
                Some(k) => bytes@.len() == 32 && k@ == bytes@,
                None => bytes@.len() != 32,
            },
    {
        if bytes.len() != 32 {
            return None;
        }
        let mut out: [u8; 32] = [0u8; 32];
        let mut i: usize = 0;
        while i < 32
            invariant
                i <= 32,
                bytes@.len() == 32,
                forall|j: int| 0 <= j < i ==> out@[j] == bytes@[j],
            decreases 32 - i,
        {
            out[i] = bytes[i];
            i = i + 1;
        }
        assert(out@ =~= bytes@);
        Some(PrivateKey { bytes: out })
    }
}

/// A secret key made of 32 bytes from the randomness of the system, as
/// `PrivateKey::from_slice` makes it, or `None` where the system gives none.
pub fn generate_random_private_key() -> (key: Option<PrivateKey>) {
    match crate::random::os_random_bytes(32) {
        Some(random) => PrivateKey::from_slice(random.as_slice()),
        None => None,
    }
}

/// The public key that belongs to `private_key`.
pub fn derive_public_key(private_key: &PrivateKey) -> (public_key: PublicKey)
    ensures
        public_key@ == ed25519_public(private_key@),
{
    PublicKey { bytes: ed25519_derive(&private_key.bytes) }
}

/// Signs `hash` with `private_key`.
///
/// Fails with `BadSignature` when the signing operation gives no signature.
pub fn sign(hash: &crate::hash::Hash, private_key: &PrivateKey) -> (res: Result<
    Signature,
    BootstrapError,
>)
    ensures
        match res {
            Ok(signature) => signature@ == ed25519_signature(private_key@, hash@),
            Err(e) => e == BootstrapError::BadSignature,
        },
{
    match ed25519_sign(&private_key.bytes, hash.to_bytes().as_slice()) {
        Some(bytes) => Ok(Signature { bytes }),
        None => Err(BootstrapError::BadSignature),
    }
}

/// Checks that `signature` signs `hash` under `public_key`.
///
/// Fails with `BadSignature` exactly when the signature is not accepted.
pub fn verify_signature(
    hash: &crate::hash::Hash,
    signature: &Signature,
    public_key: &PublicKey,
) -> (res: Result<(), BootstrapError>)
    ensures
        match res {
            Ok(_) => ed25519_accepts(public_key@, hash@, signature@),
            Err(e) => e == BootstrapError::BadSignature && !ed25519_accepts(
                public_key@,
                hash@,
                signature@,
            ),
        },
{
    public_key.verify_signature(hash, signature)
}

} // verus!
