//! Signing and response assembly: one shared signing path for every
//! verification mode.

use vstd::prelude::*;

use crate::codec::enc_message;
use crate::codec::encode_intent_message;
use crate::keys::EphemeralKeyContext;
use crate::keys::ed25519_signature_of;
use crate::types::DatasetVerification;
use crate::types::IntentMessage;
use crate::types::IntentMessageModel;
use crate::types::IntentScope;
use crate::types::ProcessedDataResponse;

verus! {

/// Builds the envelope, canonically encodes it, signs the encoded bytes with
/// the ephemeral key, and bundles the readable envelope with the signature
/// and the public key.
///
/// What is signed is exactly the canonical encoding of the returned
/// envelope: nothing appended, nothing prepended, nothing hashed
/// differently. The transform is pure: no state is mutated, so concurrent
/// calls on one context cannot contaminate each other's responses.
pub fn to_signed_response(
    kp: &EphemeralKeyContext,
    payload: DatasetVerification,
    timestamp_ms: u64,
    scope: IntentScope,
) -> (r: ProcessedDataResponse<IntentMessage>)
    requires
        kp.wf(),
    ensures
        r.payload@ == (IntentMessageModel { intent: scope, timestamp_ms, data: payload@ }),
        r.signature@ == ed25519_signature_of(kp.seed(), enc_message(r.payload@)),
        r.signature@.len() == 64,
        r.public_key@ == kp.public_bytes(),
{
    let intent_msg = IntentMessage::new(payload, timestamp_ms, scope);
    let signing_payload = encode_intent_message(&intent_msg);
    let signature = kp.sign(&signing_payload);
    let public_key = kp.public_key();
    ProcessedDataResponse { payload: intent_msg, signature, public_key }
}

} // verus!
