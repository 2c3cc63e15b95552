//! Verification orchestrators: the validation rules and payload construction
//! of the two request-handling modes, both terminating in the shared signer,
//! and the attestation binding.
//!
//! I/O stays outside: the caller fetches content, reads the clock, and
//! queries the hardware root of trust, then hands the plain values in.

use vstd::prelude::*;

use vstd::string::StrSliceExecFns;
use vstd::utf8::encode_utf8;

use crate::digest::hex_bytes_of;
use crate::digest::hex_decode;
use crate::digest::is_hex_str;
use crate::digest::sha256_digest;
use crate::digest::sha256_of;
use crate::keys::AppState;
use crate::keys::ed25519_signature_of;
use crate::codec::enc_message;
use crate::signer::to_signed_response;
use crate::types::DatasetRequest;
use crate::types::DatasetVerification;
use crate::types::DatasetVerificationModel;
use crate::types::EnclaveError;
use crate::types::IntentMessage;
use crate::types::IntentMessageModel;
use crate::types::IntentScope;
use crate::types::MetadataField;
use crate::types::MetadataVerificationRequest;
use crate::types::ProcessDataRequest;
use crate::types::ProcessedDataResponse;

verus! {

/// Every required field of the claim — identifier, name, hash, storage
/// reference, policy reference, uploader — is non-empty.
pub open spec fn required_fields_nonempty(p: DatasetVerificationModel) -> bool {
    &&& p.dataset_id.len() > 0
    &&& p.name.len() > 0
    &&& p.original_hash.len() > 0
    &&& p.walrus_blob_id.len() > 0
    &&& p.seal_policy_id.len() > 0
    &&& p.uploader.len() > 0
}

/// The first required field, in validation order, that is empty.
pub open spec fn first_empty_field(p: DatasetVerificationModel) -> MetadataField {
    if p.dataset_id.len() == 0 {
        MetadataField::DatasetId
    } else if p.name.len() == 0 {
        MetadataField::Name
    } else if p.original_hash.len() == 0 {
        MetadataField::OriginalHash
    } else if p.walrus_blob_id.len() == 0 {
        MetadataField::WalrusBlobId
    } else if p.seal_policy_id.len() == 0 {
        MetadataField::SealPolicyId
    } else {
        MetadataField::Uploader
    }
}

/// Checks that the claim is structurally complete: accepts exactly the
/// claims whose required fields are all non-empty, and reports the first
/// empty one otherwise.
pub fn validate_metadata(p: &DatasetVerification) -> (r: Result<(), EnclaveError>)
    ensures
        r is Ok <==> required_fields_nonempty(p@),
        r matches Err(e) ==> e == EnclaveError::IncompleteMetadata(first_empty_field(p@)),
{
    if p.dataset_id.len() == 0 {
        return Err(EnclaveError::IncompleteMetadata(MetadataField::DatasetId));
    }
    if p.name.len() == 0 {
        return Err(EnclaveError::IncompleteMetadata(MetadataField::Name));
    }
    if p.original_hash.len() == 0 {
        return Err(EnclaveError::IncompleteMetadata(MetadataField::OriginalHash));
    }
    if p.walrus_blob_id.len() == 0 {
        return Err(EnclaveError::IncompleteMetadata(MetadataField::WalrusBlobId));
    }
    if p.seal_policy_id.len() == 0 {
        return Err(EnclaveError::IncompleteMetadata(MetadataField::SealPolicyId));
    }
    if p.uploader.len() == 0 {
        return Err(EnclaveError::IncompleteMetadata(MetadataField::Uploader));
    }
    Ok(())
}

/// Metadata-only verification: checks structural completeness, then signs
/// the claim under the fixed scope with the caller-supplied timestamp.
///
/// The timestamp is deliberately the caller's, not the server clock: the
/// oracle vouches for completeness and signature validity, not for
/// timestamp freshness.
pub fn verify_metadata(state: &AppState, request: MetadataVerificationRequest) -> (r: Result<
    ProcessedDataResponse<IntentMessage>,
    EnclaveError,
>)
    requires
        state.eph_kp.wf(),
    ensures
        r is Ok <==> required_fields_nonempty(request.metadata@),
        r matches Ok(resp) ==> {
            &&& resp.payload@ == (IntentMessageModel {
                intent: IntentScope::ProcessData,
                timestamp_ms: request.metadata.timestamp,
                data: request.metadata@,
            })
            &&& resp.signature@ == ed25519_signature_of(
                state.eph_kp.seed(),
                enc_message(resp.payload@),
            )
            &&& resp.public_key@ == state.eph_kp.public_bytes()
        },
        r matches Err(e) ==> e == EnclaveError::IncompleteMetadata(
            first_empty_field(request.metadata@),
        ),
{
    let metadata = request.metadata;
    match validate_metadata(&metadata) {
        Err(e) => Err(e),
        Ok(()) => {
            let timestamp = metadata.timestamp;
            Ok(to_signed_response(&state.eph_kp, metadata, timestamp, IntentScope::ProcessData))
        },
    }
}

/// Byte-for-byte comparison of two byte vectors.
fn bytes_equal(a: &Vec<u8>, b: &Vec<u8>) -> (r: bool)
    ensures
        r <==> a@ == b@,
{
    if a.len() != b.len() {
        return false;
    }
    let n = a.len();
    let mut i: usize = 0;
    while i < n
        invariant
            i <= n,
            n == a@.len(),
            n == b@.len(),
            forall|j: int| 0 <= j < i ==> a@[j] == b@[j],
        decreases n - i,
    {
        if a[i] != b[i] {
            return false;
        }
        i = i + 1;
    }
    proof {
        assert(a@ =~= b@);
    }
    true
}

/// The payload the legacy content-verification flow constructs from the
/// fetched content's properties and the server-observed timestamp.
pub open spec fn legacy_payload(
    url: Seq<char>,
    format: Seq<char>,
    content: Seq<u8>,
    now_ms: u64,
) -> DatasetVerificationModel {
    DatasetVerificationModel {
        dataset_id: encode_utf8("legacy"@),
        name: encode_utf8(url),
        description: encode_utf8("Legacy endpoint - use verify_metadata instead"@),
        format: encode_utf8(format),
        size: content.len() as u64,
        original_hash: sha256_of(content),
        walrus_blob_id: Seq::empty(),
        seal_policy_id: Seq::empty(),
        timestamp: now_ms,
        uploader: Seq::empty(),
    }
}

/// Legacy content-verification mode, after the fetch: hashes the fetched
/// content, compares it byte-for-byte against the caller-supplied expected
/// hash when one was given, and signs a payload built from the content's
/// properties and the server-observed timestamp.
///
/// A malformed expected hash and a mismatching one are rejected — each with
/// its own error kind — and nothing is signed.
pub fn process_data(
    state: &AppState,
    request: ProcessDataRequest<DatasetRequest>,
    content: Vec<u8>,
    now_ms: u64,
) -> (r: Result<ProcessedDataResponse<IntentMessage>, EnclaveError>)
    requires
        state.eph_kp.wf(),
    ensures
        r is Ok <==> (request.payload.expected_hash is None || (
        request.payload.expected_hash matches Some(s) && is_hex_str(s@) && hex_bytes_of(s@)
            == sha256_of(content@))),
        r matches Err(e) ==> request.payload.expected_hash matches Some(s) && ((!is_hex_str(s@)
            && e == EnclaveError::HashFormat) || (is_hex_str(s@) && hex_bytes_of(s@) != sha256_of(
            content@,
        ) && e == EnclaveError::HashMismatch)),
        r matches Ok(resp) ==> {
            &&& resp.payload@ == (IntentMessageModel {
                intent: IntentScope::ProcessData,
                timestamp_ms: now_ms,
                data: legacy_payload(
                    request.payload.dataset_url@,
                    request.payload.format@,
                    content@,
                    now_ms,
                ),
            })
            &&& resp.signature@ == ed25519_signature_of(
                state.eph_kp.seed(),
                enc_message(resp.payload@),
            )
            &&& resp.public_key@ == state.eph_kp.public_bytes()
        },
{
    let dataset_hash = sha256_digest(&content);
    match &request.payload.expected_hash {
        Some(expected) => {
            match hex_decode(expected.as_str()) {
                None => {
                    return Err(EnclaveError::HashFormat);
                },
                Some(expected_bytes) => {
                    if !bytes_equal(&dataset_hash, &expected_bytes) {
                        return Err(EnclaveError::HashMismatch);
                    }
                },
            }
        },
        None => {},
    }
    let size = content.len() as u64;
    let payload = DatasetVerification {
        dataset_id: "legacy".as_bytes_vec(),
        name: request.payload.dataset_url.as_str().as_bytes_vec(),
        description: "Legacy endpoint - use verify_metadata instead".as_bytes_vec(),
        format: request.payload.format.as_str().as_bytes_vec(),
        size,
        original_hash: dataset_hash,
        walrus_blob_id: Vec::new(),
        seal_policy_id: Vec::new(),
        timestamp: now_ms,
        uploader: Vec::new(),
    };
    Ok(to_signed_response(&state.eph_kp, payload, now_ms, IntentScope::ProcessData))
}

/// The bytes an attestation request binds: the current public key, so the
/// hardware document proves which enclave instance holds the signing key.
/// A re-initialized context makes earlier documents stale: they bind the old
/// key and must not be reused for registration.
pub fn attestation_user_data(state: &AppState) -> (r: Vec<u8>)
    ensures
        r@ == state.eph_kp.public_bytes(),
{
    state.eph_kp.public_key()
}

/// Wraps the outcome of a hardware attestation query: the document when the
/// root of trust answered, and the distinct hardware-unavailable error —
/// an environment fault, not a data fault — when it could not be reached.
pub fn get_attestation(document: Option<Vec<u8>>) -> (r: Result<Vec<u8>, EnclaveError>)
    ensures
        r is Ok <==> document is Some,
        r matches Ok(v) ==> document matches Some(d) && v@ == d@,
        r matches Err(e) ==> e == EnclaveError::AttestationUnavailable,
{
    match document {
        Some(d) => Ok(d),
        None => Err(EnclaveError::AttestationUnavailable),
    }
}

} // verus!
