use frodo_pir::credentials::api::{ClientMessage, ServerResponse};
use frodo_pir::credentials::rpc::{
    ClientOfflineRequest, ClientOnlineRequest, ClientRequestParams, KeywordIndexMappingMessage,
    OfflineResponseResult, RPCError, ResponseError, ServerOfflineResponse, ServerOnlineResponse,
    ValidateRequest, ValidateResponse, INTERNAL_ERROR_CODE, VALIDATION_ERROR_CODE,
};

#[test]
fn offline_request_names_its_method() {
    let request = ClientOfflineRequest::new(vec![3, 5]);
    assert_eq!(request.jsonrpc, "2.0");
    assert_eq!(request.method, "get_public_params");
    assert_eq!(request.params, vec![3, 5]);
    assert_eq!(request.id, 1);
    assert!(request.validate().is_ok());
    let default = ClientOfflineRequest::default();
    assert_eq!(default.method, "get_public_params");
    assert!(default.params.is_empty());
}

#[test]
fn offline_request_is_checked() {
    let mut request = ClientOfflineRequest::new(vec![]);
    match request.validate() {
        Err(RPCError::RequestParamsValidation(s)) => assert_eq!(s, "Params object is empty"),
        other => panic!("{:?}", other),
    }
    request.jsonrpc = "1.0".to_string();
    // the version comes first
    match request.validate() {
        Err(RPCError::VersionValidation(s)) => assert_eq!(s, "1.0"),
        other => panic!("{:?}", other),
    }
    request.params = vec![1];
    let err = request.validate().unwrap_err();
    assert_eq!(
        err.message(),
        "JSONRPC: request version (1.0) is incorrect, should be '2.0'."
    );
}

#[test]
fn online_request_names_its_method() {
    let cm = ClientMessage::from_parts(vec![vec![1, 2]], vec![3]);
    let request = ClientOnlineRequest::new(cm, 7);
    assert_eq!(request.jsonrpc, "2.0");
    assert_eq!(request.method, "client_query");
    assert_eq!(request.params.bucket_id, 7);
    assert_eq!(request.id, 1);
    assert_eq!(request.params.message.as_ref().unwrap().get_oprf_query(), [3]);
    assert!(request.validate().is_ok());
}

#[test]
fn online_request_is_checked() {
    let default = ClientOnlineRequest::default();
    assert_eq!(default.method, "client_query");
    assert_eq!(default.params.bucket_id, usize::MAX);
    assert!(default.params.message.is_none());
    match default.validate() {
        Err(RPCError::RequestParamsValidation(s)) => assert_eq!(s, "No Client message enclosed"),
        other => panic!("{:?}", other),
    }
    let params = ClientRequestParams::default();
    assert_eq!(params.bucket_id, usize::MAX);
    let cm = ClientMessage::from_parts(vec![], vec![]);
    let unset = ClientOnlineRequest::new(cm, usize::MAX);
    match unset.validate() {
        Err(RPCError::RequestParamsValidation(s)) => assert_eq!(s, "Bucket ID has not been set"),
        other => panic!("{:?}", other),
    }
    let mut wrong = ClientOnlineRequest::default();
    wrong.jsonrpc = "2.1".to_string();
    assert!(matches!(wrong.validate(), Err(RPCError::VersionValidation(_))));
}

#[test]
fn error_codes_are_fixed() {
    assert_eq!(VALIDATION_ERROR_CODE, -32600);
    assert_eq!(INTERNAL_ERROR_CODE, -32602);
    let offline = ResponseError::offline_internal();
    assert_eq!((offline.code, offline.message.as_str()), (-32602, "Error retrieving public parameters"));
    let online = ResponseError::online_internal();
    assert_eq!((online.code, online.message.as_str()), (-32602, "Failed to respond to query"));
    let input = ResponseError::online_client_input();
    assert_eq!((input.code, input.message.as_str()), (-32602, "Failed to deserialize client query"));
    let refused = ResponseError::request_validation_error(RPCError::IDValidation(1, 2));
    assert_eq!(refused.code, -32600);
    assert_eq!(
        refused.message,
        "JSONRPC: bad response id error, request_id = 1, response_id = 2"
    );
}

#[test]
fn offline_response_carries_both_jsons() {
    let bp_json = "{\"dim\":3}".to_string();
    let hpt_json = "{\"prefixes\":[1,2],\"prefix_bit_len\":16}".to_string();
    let response =
        ServerOfflineResponse::from_local_hpt(Some(bp_json.clone()), Some(hpt_json.clone()), 9);
    assert_eq!(response.jsonrpc, "2.0");
    assert_eq!(response.id, 9);
    assert!(response.error.is_none());
    assert!(response.validate(9).is_ok());
    let result = response.result.unwrap();
    assert_eq!(result.base_params, base64::encode(&bp_json));
    assert_eq!(result.kimm.method, "local_hpt");
    assert_eq!(result.kimm.data, base64::encode(&hpt_json));
    let (bp, hpt) = result.deserialize_local_hpt().unwrap();
    assert_eq!(bp, bp_json.as_bytes());
    assert_eq!(hpt, hpt_json.as_bytes());
}

#[test]
fn offline_response_without_a_json_is_an_error() {
    for (bp, hpt) in [
        (None, Some("{}".to_string())),
        (Some("{}".to_string()), None),
        (None, None),
    ] {
        let response = ServerOfflineResponse::from_local_hpt(bp, hpt, 4);
        assert!(response.result.is_none());
        let error = response.error.as_ref().unwrap();
        assert_eq!(error.code, -32602);
        assert_eq!(error.message, "Error retrieving public parameters");
        match response.validate(4) {
            Err(RPCError::Response(code, message)) => {
                assert_eq!(code, -32602);
                assert_eq!(message, "Error retrieving public parameters");
            }
            other => panic!("{:?}", other),
        }
    }
}

#[test]
fn offline_result_is_unwrapped_with_care() {
    let kimm = KeywordIndexMappingMessage::from_local_hpt_json("{}");
    assert_eq!(kimm.method, "local_hpt");
    assert_eq!(kimm.data, "e30=");
    let mut result = OfflineResponseResult::new("[]", kimm);
    assert_eq!(result.base_params, "W10=");
    result.kimm.method = "other".to_string();
    match result.deserialize_local_hpt() {
        Err(RPCError::ResultValidation(s)) => {
            assert_eq!(s, "Invalid keyword mapping method specified (other)")
        }
        other => panic!("{:?}", other),
    }
    result.kimm.method = "local_hpt".to_string();
    result.base_params = "???".to_string();
    assert!(matches!(result.deserialize_local_hpt(), Err(RPCError::Base64)));
    result.base_params = "W10=".to_string();
    result.kimm.data = "!".to_string();
    let err = result.deserialize_local_hpt().unwrap_err();
    assert_eq!(err.message(), "Error occurred during base64 decoding of data.");
}

#[test]
fn responses_are_checked_in_order() {
    let mut response = ServerOfflineResponse::error(ResponseError::offline_internal(), 2);
    response.jsonrpc = "3".to_string();
    // a wrong version, then a wrong id, then the error, then the missing result
    assert!(matches!(response.validate(5), Err(RPCError::VersionValidation(_))));
    response.jsonrpc = "2.0".to_string();
    assert!(matches!(response.validate(5), Err(RPCError::IDValidation(5, 2))));
    assert!(matches!(response.validate(2), Err(RPCError::Response(-32602, _))));
    response.error = None;
    match response.validate(2) {
        Err(RPCError::ResultValidation(s)) => assert_eq!(s, "No result object"),
        other => panic!("{:?}", other),
    }
}

#[test]
fn online_response_carries_the_answer() {
    let response = ServerOnlineResponse::new(ServerResponse::from_parts(vec![vec![7]], vec![8]), 3);
    assert_eq!(response.jsonrpc, "2.0");
    assert_eq!(response.id, 3);
    assert!(response.error.is_none());
    assert!(response.validate(3).is_ok());
    assert!(matches!(response.validate(4), Err(RPCError::IDValidation(4, 3))));
    assert_eq!(response.result.unwrap().get_pir_resp(), [vec![7u8]]);
    let failed = ServerOnlineResponse::error(6);
    assert_eq!(failed.id, 6);
    assert!(failed.result.is_none());
    match failed.validate(6) {
        Err(RPCError::Response(code, message)) => {
            assert_eq!(code, -32602);
            assert_eq!(message, "Failed to respond to query");
        }
        other => panic!("{:?}", other),
    }
    let mut empty = ServerOnlineResponse::error(6);
    empty.error = None;
    assert!(matches!(empty.validate(6), Err(RPCError::ResultValidation(_))));
    empty.jsonrpc = String::new();
    assert!(matches!(empty.validate(6), Err(RPCError::VersionValidation(_))));
}

#[test]
fn every_rpc_error_has_its_message() {
    assert_eq!(
        RPCError::SerdeJSON.message(),
        "Error occurred during JSON serialization of data."
    );
    assert_eq!(
        RPCError::SerdeBincode.message(),
        "Error occurred during bincode serialization of data."
    );
    assert_eq!(
        RPCError::RequestParamsValidation("x".to_string()).message(),
        "JSONRPC: bad request params error, x"
    );
    assert_eq!(
        RPCError::ResultValidation("y".to_string()).message(),
        "JSONRPC: bad response result error, y"
    );
    assert_eq!(
        RPCError::Response(-5, "z".to_string()).message(),
        "JSONRPC: response returned error, code: -5, message: z"
    );
}
