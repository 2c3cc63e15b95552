//! Enclave oracle core: canonical envelope encoding, ephemeral-key signing,
//! and the validation rules of the dataset-attestation protocol.
//!
//! The signed byte sequence is `scope_byte || timestamp_le_u64 || payload`,
//! where the payload serializes each field in declaration order, every
//! variable-length byte field with a ULEB128 length prefix and every integer
//! fixed-width little-endian. This layout must byte-match the external
//! verifier's decoder; the encoder, its decoder, and their round-trip and
//! injectivity laws live in [`codec`].

pub mod codec;
pub mod digest;
pub mod handlers;
pub mod keys;
pub mod signer;
pub mod types;

pub use handlers::get_attestation;
pub use handlers::process_data;
pub use handlers::validate_metadata;
pub use handlers::verify_metadata;
pub use keys::AppState;
pub use keys::EphemeralKeyContext;
pub use signer::to_signed_response;
pub use types::DatasetRequest;
pub use types::DatasetVerification;
pub use types::EnclaveError;
pub use types::IntentMessage;
pub use types::IntentScope;
pub use types::MetadataField;
pub use types::MetadataVerificationRequest;
pub use types::ProcessDataRequest;
pub use types::ProcessedDataResponse;
