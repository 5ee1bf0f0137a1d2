//! The errors of fraud proof verification.

use vstd::prelude::*;

verus! {

/// An error of `sp_api`.
#[verifier::external_type_specification]
#[verifier::external_body]
pub struct ExApiError(sp_api::ApiError);

/// An error of `sp_blockchain`.
#[verifier::external_type_specification]
#[verifier::external_body]
pub struct ExBlockchainError(sp_blockchain::Error);

/// Error type of fraud proof verification on consensus node.
#[derive(Debug)]
pub enum VerificationError {
    /// Hash of the consensus block being challenged not found.
    ConsensusBlockHashNotFound,
    /// Failed to pass the execution proof check.
    BadExecutionProof,
    /// The fraud proof prove nothing invalid
    InvalidProof,
    /// Failed to decode the return value of `initialize_block` and `apply_extrinsic`.
    InitializeBlockOrApplyExtrinsicDecode(parity_scale_codec::Error),
    /// Failed to decode the storage root produced by verifying `initialize_block` or
    /// `apply_extrinsic`.
    StorageRootDecode(parity_scale_codec::Error),
    /// Failed to decode the header produced by `finalize_block`.
    HeaderDecode(parity_scale_codec::Error),
    /// Transaction validity check passes.
    ValidTransaction,
    /// State not found in the storage proof.
    StateNotFound(Vec<u8>),
    /// Decode error.
    Decode(parity_scale_codec::Error),
    /// Runtime api error.
    RuntimeApi(sp_api::ApiError),
    /// Client error.
    Client(sp_blockchain::Error),
    /// Invalid storage proof.
    InvalidStorageProof,
    /// Can not find signer from the domain extrinsic.
    SignerNotFound,
    /// Domain state root not found.
    DomainStateRootNotFound,
    /// Fail to get runtime code.
    RuntimeCode(String),
    /// Failed to get domain runtime code.
    FailedToGetDomainRuntimeCode,
    /// Oneshot error when verifying fraud proof in tx pool.
    Oneshot(String),
    /// The receipt's execution trace has less than 2 traces.
    InvalidExecutionTrace,
    /// Invalid `ApplyExtrinsic` trace index.
    InvalidApplyExtrinsicTraceIndex,
    /// Invalid `ApplyExtrinsic` call data.
    InvalidApplyExtrinsicCallData,
    /// Invalid bundle digest
    InvalidBundleDigest,
    /// Failed to get block randomness
    FailedToGetBlockRandomness,
    /// Failed to derive domain timestamp extrinsic
    FailedToDeriveDomainTimestampExtrinsic,
    /// Failed to derive domain set code extrinsic
    FailedToDeriveDomainSetCodeExtrinsic,
    /// Bundle with requested index not found in execution receipt
    BundleNotFound,
    /// Invalid bundle entry in bad receipt was expected to be valid but instead found invalid entry
    UnexpectedTargetedBundleEntry {
        /// The index of the bundle in the receipt.
        bundle_index: u32,
        /// The kind of invalidity that the fraud proof shows, as text.
        fraud_proof_invalid_type_of_proof: String,
        /// The entry of the bundle in the receipt, as text.
        targeted_entry_bundle: String,
    },
    /// Tx range host function did not return response (returned None)
    FailedToGetResponseFromTxRangeHostFn,
    /// Unable to receive tx range from host function
    ReceivedInvalidInfoFromTxRangeHostFn,
    /// Failed to get the bundle body
    FailedToGetDomainBundleBody,
    /// Failed to derive bundle digest
    FailedToDeriveBundleDigest,
    /// The target valid bundle not found from the target bad receipt
    TargetValidBundleNotFound,
}

impl From<parity_scale_codec::Error> for VerificationError {
    fn from(error: parity_scale_codec::Error) -> (converted: Self)
        ensures
            converted == VerificationError::Decode(error),
    {
        VerificationError::Decode(error)
    }
}

impl vstd::std_specs::convert::FromSpecImpl<parity_scale_codec::Error> for VerificationError {
    open spec fn obeys_from_spec() -> bool {
        true
    }

    open spec fn from_spec(error: parity_scale_codec::Error) -> Self {
        VerificationError::Decode(error)
    }
}

impl From<sp_api::ApiError> for VerificationError {
    fn from(error: sp_api::ApiError) -> (converted: Self)
        ensures
            converted == VerificationError::RuntimeApi(error),
    {
        VerificationError::RuntimeApi(error)
    }
}

impl vstd::std_specs::convert::FromSpecImpl<sp_api::ApiError> for VerificationError {
    open spec fn obeys_from_spec() -> bool {
        true
    }

    open spec fn from_spec(error: sp_api::ApiError) -> Self {
        VerificationError::RuntimeApi(error)
    }
}

impl From<sp_blockchain::Error> for VerificationError {
    fn from(error: sp_blockchain::Error) -> (converted: Self)
        ensures
            converted == VerificationError::Client(error),
    {
        VerificationError::Client(error)
    }
}

impl vstd::std_specs::convert::FromSpecImpl<sp_blockchain::Error> for VerificationError {
    open spec fn obeys_from_spec() -> bool {
        true
    }

    open spec fn from_spec(error: sp_blockchain::Error) -> Self {
        VerificationError::Client(error)
    }
}

} // verus!
