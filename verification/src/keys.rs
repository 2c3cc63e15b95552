//! Ephemeral key context: the single signing keypair generated at process
//! start, held in memory for the process lifetime, and read — never written —
//! by every handler.

use vstd::prelude::*;

use fastcrypto::ed25519::Ed25519KeyPair;
use fastcrypto::traits::KeyPair;
use fastcrypto::traits::Signer;
use fastcrypto::traits::ToFromBytes;

verus! {

/// The Ed25519 verification key determined by a 32-byte signing seed.
pub uninterp spec fn ed25519_public_key_of(seed: Seq<u8>) -> Seq<u8>;

/// The Ed25519 signature a 32-byte signing seed puts on a message. Ed25519
/// signing is deterministic: the signature is a function of the seed and the
/// message bytes alone.
pub uninterp spec fn ed25519_signature_of(seed: Seq<u8>, msg: Seq<u8>) -> Seq<u8>;

/// Relies on fastcrypto's `Ed25519KeyPair::generate` with `rand::thread_rng`:
/// a fresh keypair from a cryptographically secure source, whose byte form is
/// exactly the 32-byte private seed.
#[verifier::external_body]
fn generate_signing_seed() -> (r: Vec<u8>)
    ensures
        r@.len() == 32,
{
    Ed25519KeyPair::generate(&mut rand::thread_rng()).as_ref().to_vec()
}

/// Relies on fastcrypto's `Ed25519KeyPair::from_bytes` and `public`: every
/// 32-byte slice is a valid seed, and the 32-byte verification key is derived
/// from the seed alone.
#[verifier::external_body]
fn derive_public_key(seed: &Vec<u8>) -> (r: Vec<u8>)
    requires
        seed@.len() == 32,
    ensures
        r@ == ed25519_public_key_of(seed@),
        r@.len() == 32,
{
    let kp = Ed25519KeyPair::from_bytes(seed.as_slice()).unwrap();
    kp.public().as_ref().to_vec()
}

/// Relies on fastcrypto's `Ed25519KeyPair::sign` (RFC 8032 Ed25519): signing
/// is deterministic, mutates nothing, and returns the 64-byte signature over
/// exactly the message bytes given.
#[verifier::external_body]
fn sign_with_seed(seed: &Vec<u8>, msg: &Vec<u8>) -> (r: Vec<u8>)
    requires
        seed@.len() == 32,
    ensures
        r@ == ed25519_signature_of(seed@, msg@),
        r@.len() == 64,
{
    let kp = Ed25519KeyPair::from_bytes(seed.as_slice()).unwrap();
    kp.sign(msg.as_slice()).as_ref().to_vec()
}

/// Holds the process-lifetime signing keypair.
///
/// Generated once at startup, effectively immutable afterwards: signing and
/// public-key access are pure reads, so any number of concurrent handlers may
/// share one context without mutual exclusion. Restarting the process makes a
/// fresh keypair, so earlier signatures no longer match the new attestation
/// binding and callers must re-register the new public key.
pub struct EphemeralKeyContext {
    secret: Vec<u8>,
    public: Vec<u8>,
}

impl EphemeralKeyContext {
    /// The 32-byte signing seed; private to the context, never exported.
    pub closed spec fn seed(&self) -> Seq<u8> {
        self.secret@
    }

    /// The verification key bytes exported for attestation and responses.
    pub closed spec fn public_bytes(&self) -> Seq<u8> {
        self.public@
    }

    /// Key material has the fixed Ed25519 sizes.
    pub open spec fn wf(&self) -> bool {
        self.seed().len() == 32 && self.public_bytes().len() == 32
    }

    /// Generates the single fresh keypair for this process run. The public
    /// key is the one the seed determines, so every signature made through
    /// this context verifies under the key the context exports.
    pub fn initialize() -> (r: Self)
        ensures
            r.wf(),
            r.public_bytes() == ed25519_public_key_of(r.seed()),
    {
        let secret = generate_signing_seed();
        let public = derive_public_key(&secret);
        EphemeralKeyContext { secret, public }
    }

    /// Returns the public key bytes; pure, safe to call concurrently.
    pub fn public_key(&self) -> (r: Vec<u8>)
        ensures
            r@ == self.public_bytes(),
    {
        let n = self.public.len();
        let mut out: Vec<u8> = Vec::new();
        let mut i: usize = 0;
        while i < n
            invariant
                i <= n,
                n == self.public_bytes().len(),
                out@ == self.public_bytes().subrange(0, i as int),
            decreases n - i,
        {
            out.push(self.public[i]);
            i = i + 1;
            proof {
                assert(out@ =~= self.public_bytes().subrange(0, i as int));
            }
        }
        proof {
            assert(self.public_bytes().subrange(0, n as int) =~= self.public_bytes());
        }
        out
    }

    /// Signs exactly the bytes given: no hashing pre-step beyond what the
    /// signature scheme itself performs, no state mutated, deterministic.
    pub fn sign(&self, msg: &Vec<u8>) -> (r: Vec<u8>)
        requires
            self.wf(),
        ensures
            r@ == ed25519_signature_of(self.seed(), msg@),
            r@.len() == 64,
    {
        sign_with_seed(&self.secret, msg)
    }
}

/// Application state shared by every handler: the ephemeral keypair, plus the
/// API key handed to external collaborators.
pub struct AppState {
    /// Ephemeral keypair generated on boot.
    pub eph_kp: EphemeralKeyContext,
    /// API key for external services (unused in dataset verification).
    pub api_key: String,
}

} // verus!
