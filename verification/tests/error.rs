use sp_domains_fraud_proof::error::VerificationError;

#[test]
fn outside_errors_are_wrapped() {
    let codec = parity_scale_codec::Error::from("no bytes");
    assert!(matches!(
        VerificationError::from(codec.clone()),
        VerificationError::Decode(error) if error == codec
    ));
    let api = sp_api::ApiError::StateBackendIsNotTrie;
    assert!(matches!(
        VerificationError::from(api),
        VerificationError::RuntimeApi(sp_api::ApiError::StateBackendIsNotTrie)
    ));
    let client = sp_blockchain::Error::Backend("gone".to_string());
    assert!(matches!(
        VerificationError::from(client),
        VerificationError::Client(sp_blockchain::Error::Backend(message)) if message == "gone"
    ));
}
