use oasis_rofl_client::api::{
    app_id_from_body, eth_transaction, metadata_from_body, query_result_from_body, key_generation_request, query_request, query_result,
    sign_submit_request, Endpoint, KeyKind, Tx,
};
use oasis_rofl_client::error::{ClientError, HexError, Utf8Failure};

#[test]
fn key_kind_names() {
    assert_eq!(KeyKind::Raw256.to_string(), "raw-256");
    assert_eq!(KeyKind::Raw384.to_string(), "raw-384");
    assert_eq!(KeyKind::Ed25519.to_string(), "ed25519");
    assert_eq!(KeyKind::Secp256k1.to_string(), "secp256k1");
}

#[test]
fn key_generation_body() {
    let req = key_generation_request("test-key-id", KeyKind::Secp256k1);
    assert_eq!(req.key_id, "test-key-id");
    assert_eq!(req.kind, "secp256k1");
}

#[test]
fn query_arguments_are_lower_hex() {
    let args = b"\xa1\x64test\x65value";
    let req = query_request("test.Method", args);
    assert_eq!(req.method, "test.Method");
    assert_eq!(req.args, "a164746573746576616c7565");
}

#[test]
fn query_result_decodes_data() {
    assert_eq!(query_result(Some("48656c6c6f")).unwrap(), b"Hello".to_vec());
    assert_eq!(query_result(Some("48656C6c6F")).unwrap(), b"Hello".to_vec());
    assert_eq!(query_result(Some("")).unwrap(), Vec::<u8>::new());
    assert_eq!(query_result(None).unwrap_err(), ClientError::MissingDataField);
    assert_eq!(
        query_result(Some("123")).unwrap_err(),
        ClientError::InvalidHex(HexError::OddLength)
    );
    assert_eq!(
        query_result(Some("12zq")).unwrap_err(),
        ClientError::InvalidHex(HexError::InvalidHexCharacter { c: 'z', index: 2 })
    );
    assert_eq!(
        query_result(Some("12zq")).unwrap_err().to_string(),
        "Invalid character 'z' at position 2"
    );
    assert_eq!(ClientError::MissingDataField.to_string(), "Missing 'data' field");
}

#[test]
fn hex_round_trip_of_query_data() {
    let data: Vec<u8> = (0u8..=255).collect();
    let req = query_request("m", &data);
    assert_eq!(query_result(Some(&req.args)).unwrap(), data);
}

#[test]
fn app_id_is_trimmed_text() {
    assert_eq!(
        app_id_from_body(b"  oasis1qr677rv0dcnh7ys4yanlynysvnjtk9gnsyhvm5wj\n".to_vec()).unwrap(),
        "oasis1qr677rv0dcnh7ys4yanlynysvnjtk9gnsyhvm5wj"
    );
    assert_eq!(app_id_from_body(b" \t\n".to_vec()).unwrap(), "");
    let err = app_id_from_body(b"ab\xff".to_vec()).unwrap_err();
    assert_eq!(err, ClientError::BodyNotUtf8(Utf8Failure { valid_up_to: 2, error_len: Some(1) }));
    assert_eq!(err.to_string(), "invalid utf-8 sequence of 1 bytes from index 2");
}

#[test]
fn eth_call_transaction() {
    let tx = eth_transaction(200000, "0x5FbDB2315678afecb367f032d93F642f64180aa3", "0", "abcd");
    match &tx {
        Tx::Eth(c) => {
            assert_eq!(c.gas_limit, 200000);
            assert_eq!(c.to, "0x5FbDB2315678afecb367f032d93F642f64180aa3");
            assert_eq!(c.value, "0");
            assert_eq!(c.data, "abcd");
        }
        Tx::Std(_) => panic!("expected an Ethereum call"),
    }
    let req = sign_submit_request(tx, Some(true));
    assert_eq!(req.encrypt, Some(true));
}

#[test]
fn endpoints() {
    assert_eq!(Endpoint::AppId.method(), "GET");
    assert_eq!(Endpoint::AppId.path(), "/rofl/v1/app/id");
    assert_eq!(Endpoint::GenerateKey.method(), "POST");
    assert_eq!(Endpoint::GenerateKey.path(), "/rofl/v1/keys/generate");
    assert_eq!(Endpoint::SignSubmit.path(), "/rofl/v1/tx/sign-submit");
    assert_eq!(Endpoint::GetMetadata.method(), "GET");
    assert_eq!(Endpoint::SetMetadata.method(), "POST");
    assert_eq!(Endpoint::SetMetadata.path(), "/rofl/v1/metadata");
    assert_eq!(Endpoint::Query.path(), "/rofl/v1/query");
}

#[test]
fn query_result_from_response_body() {
    assert_eq!(query_result_from_body(br#"{"data":"48656c6c6f"}"#).unwrap(), b"Hello".to_vec());
    assert_eq!(
        query_result_from_body(br#"{"other":1}"#).unwrap_err(),
        ClientError::MissingDataField
    );
    assert_eq!(query_result_from_body(br#"{"data":5}"#).unwrap_err(), ClientError::MissingDataField);
    assert_eq!(query_result_from_body(br#"[1,2]"#).unwrap_err(), ClientError::MissingDataField);
    assert_eq!(
        query_result_from_body(br#"{"data":"4"}"#).unwrap_err(),
        ClientError::InvalidHex(HexError::OddLength)
    );
    let err = query_result_from_body(b"not json").unwrap_err();
    assert!(matches!(err, ClientError::InvalidJson(_)));
    assert_eq!(err.to_string(), "expected ident at line 1 column 2");
}

#[test]
fn metadata_from_response_body() {
    let m = metadata_from_body(br#"{"key2":"value2","key1":"value1"}"#).unwrap();
    assert_eq!(
        m,
        vec![
            ("key1".to_string(), "value1".to_string()),
            ("key2".to_string(), "value2".to_string())
        ]
    );
    assert!(metadata_from_body(b"{}").unwrap().is_empty());
    let err = metadata_from_body(br#"{"k":1}"#).unwrap_err();
    assert!(matches!(err, ClientError::InvalidJson(_)));
    assert!(matches!(metadata_from_body(b"").unwrap_err(), ClientError::InvalidJson(_)));
}
