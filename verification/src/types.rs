//! Data model of the attestation protocol: the intent scope, the envelope,
//! the dataset claim, the request/response wrappers, and the error kinds.

use vstd::prelude::*;

verus! {

/// Closed set of envelope purposes, encoded as a single discriminant byte.
///
/// The byte of each member is a cross-system contract with the external
/// verifier: members may only be appended, never reordered, or signatures
/// made under one purpose could be replayed under another.
#[derive(Clone, Copy, PartialEq, Eq, Structural, Debug)]
pub enum IntentScope {
    /// "process/verify data"; encodes to the single byte `0x00`.
    ProcessData,
}

/// The discriminant byte that a scope encodes to.
pub open spec fn scope_byte(scope: IntentScope) -> u8 {
    match scope {
        IntentScope::ProcessData => 0u8,
    }
}

/// The claim being attested: identity, shape and provenance of one dataset.
///
/// Every variable-length field is a byte string; in the canonical encoding
/// each is length-prefixed and the two integers are fixed-width
/// little-endian. The identifier, name, hash, storage reference, policy
/// reference and uploader must all be non-empty for the claim to be
/// signable.
#[derive(Clone, Debug, PartialEq, Eq)]
pub struct DatasetVerification {
    /// Unique dataset identifier.
    pub dataset_id: Vec<u8>,
    /// Human-readable dataset name.
    pub name: Vec<u8>,
    /// Human-readable description.
    pub description: Vec<u8>,
    /// File format tag.
    pub format: Vec<u8>,
    /// File size in bytes.
    pub size: u64,
    /// Hash of the unencrypted artifact.
    pub original_hash: Vec<u8>,
    /// Reference to where the artifact is stored.
    pub walrus_blob_id: Vec<u8>,
    /// Reference to the access-control policy governing the artifact.
    pub seal_policy_id: Vec<u8>,
    /// Verification timestamp in milliseconds.
    pub timestamp: u64,
    /// Uploader identity.
    pub uploader: Vec<u8>,
}

/// Mathematical value of a [`DatasetVerification`].
pub struct DatasetVerificationModel {
    pub dataset_id: Seq<u8>,
    pub name: Seq<u8>,
    pub description: Seq<u8>,
    pub format: Seq<u8>,
    pub size: u64,
    pub original_hash: Seq<u8>,
    pub walrus_blob_id: Seq<u8>,
    pub seal_policy_id: Seq<u8>,
    pub timestamp: u64,
    pub uploader: Seq<u8>,
}

impl View for DatasetVerification {
    type V = DatasetVerificationModel;

    open spec fn view(&self) -> DatasetVerificationModel {
        DatasetVerificationModel {
            dataset_id: self.dataset_id@,
            name: self.name@,
            description: self.description@,
            format: self.format@,
            size: self.size,
            original_hash: self.original_hash@,
            walrus_blob_id: self.walrus_blob_id@,
            seal_policy_id: self.seal_policy_id@,
            timestamp: self.timestamp,
            uploader: self.uploader@,
        }
    }
}

/// The envelope that is canonically encoded and signed: scope, then
/// timestamp, then payload, always in this order.
#[derive(Clone, Debug, PartialEq, Eq)]
pub struct IntentMessage {
    /// Purpose of the message.
    pub intent: IntentScope,
    /// Timestamp in milliseconds bound into the signature.
    pub timestamp_ms: u64,
    /// The payload being attested.
    pub data: DatasetVerification,
}

/// Mathematical value of an [`IntentMessage`].
pub struct IntentMessageModel {
    pub intent: IntentScope,
    pub timestamp_ms: u64,
    pub data: DatasetVerificationModel,
}

impl View for IntentMessage {
    type V = IntentMessageModel;

    open spec fn view(&self) -> IntentMessageModel {
        IntentMessageModel {
            intent: self.intent,
            timestamp_ms: self.timestamp_ms,
            data: self.data@,
        }
    }
}

impl IntentMessage {
    /// Wraps a payload with a timestamp and a scope.
    pub fn new(data: DatasetVerification, timestamp_ms: u64, intent: IntentScope) -> (r: Self)
        ensures
            r@ == (IntentMessageModel { intent, timestamp_ms, data: data@ }),
    {
        IntentMessage { intent, timestamp_ms, data }
    }
}

/// Inner payload of a legacy content-verification request.
#[derive(Clone, Debug, PartialEq, Eq)]
pub struct DatasetRequest {
    /// Where to fetch the dataset content from.
    pub dataset_url: String,
    /// Optional hex-encoded hash the content must match.
    pub expected_hash: Option<String>,
    /// File format tag.
    pub format: String,
    /// Schema version tag.
    pub schema_version: String,
}

/// A metadata-only verification request: a fully formed claim, no fetch.
#[derive(Clone, Debug, PartialEq, Eq)]
pub struct MetadataVerificationRequest {
    pub metadata: DatasetVerification,
}

/// Generic request envelope carrying exactly one payload field.
#[derive(Clone, Debug, PartialEq, Eq)]
pub struct ProcessDataRequest<T> {
    pub payload: T,
}

/// The signed response bundle: the readable envelope, the signature over its
/// canonical encoding, and the public key the signature verifies under.
#[derive(Clone, Debug, PartialEq, Eq)]
pub struct ProcessedDataResponse<T> {
    /// The signed envelope, unencoded, for the caller and the contract to read.
    pub payload: T,
    /// Signature over the canonical encoding of `payload`.
    pub signature: Vec<u8>,
    /// Public key of the ephemeral keypair that produced `signature`.
    pub public_key: Vec<u8>,
}

/// The required field that a rejected metadata claim left empty.
#[derive(Clone, Copy, PartialEq, Eq, Structural, Debug)]
pub enum MetadataField {
    DatasetId,
    Name,
    OriginalHash,
    WalrusBlobId,
    SealPolicyId,
    Uploader,
}

/// Closed enumeration of the failure causes the service can surface.
///
/// Caller-fault kinds are rejected with a client-error status at the
/// boundary; environment-fault kinds with a server-error status, eligible
/// for retry by the caller.
#[derive(Clone, Copy, PartialEq, Eq, Structural, Debug)]
pub enum EnclaveError {
    /// The external content fetch failed (network, timeout, non-2xx).
    UpstreamFetch,
    /// A caller-supplied expected hash was not valid hex.
    HashFormat,
    /// The computed content hash differs from the caller-supplied one.
    HashMismatch,
    /// A required metadata field was empty; carries the first such field.
    IncompleteMetadata(MetadataField),
    /// The current time could not be read.
    ClockUnavailable,
    /// The hardware root of trust could not be reached.
    AttestationUnavailable,
}

/// Whether an error kind is the caller's fault (reject, do not retry) rather
/// than an environment fault (server error, eligible for retry).
pub open spec fn spec_is_caller_fault(e: EnclaveError) -> bool {
    match e {
        EnclaveError::HashFormat => true,
        EnclaveError::HashMismatch => true,
        EnclaveError::IncompleteMetadata(_) => true,
        EnclaveError::UpstreamFetch => false,
        EnclaveError::ClockUnavailable => false,
        EnclaveError::AttestationUnavailable => false,
    }
}

impl EnclaveError {
    /// True for the kinds a caller can correct, false for environment faults.
    pub fn is_caller_fault(&self) -> (r: bool)
        ensures
            r == spec_is_caller_fault(*self),
    {
        match self {
            EnclaveError::HashFormat => true,
            EnclaveError::HashMismatch => true,
            EnclaveError::IncompleteMetadata(_) => true,
            EnclaveError::UpstreamFetch => false,
            EnclaveError::ClockUnavailable => false,
            EnclaveError::AttestationUnavailable => false,
        }
    }
}

} // verus!
