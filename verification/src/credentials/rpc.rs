//! The messages that client and server exchange, in the shape of JSON-RPC 2.0.
//!
//! The offline request asks for the public parameters of buckets; the online
//! request carries the message of a client for one bucket. Every response
//! echoes the id of its request and holds either a result or an error.
//! Values travel inside these messages as base64 text of their JSON or wire
//! form; turning values into JSON and back is left to the caller.
use crate::credentials::api::{ClientMessage, ServerResponse};
use crate::numbers::{decimal_string, decimal_text, signed_decimal_string, signed_decimal_text};
use crate::trusted::text::{base64_decode, base64_decoding, base64_encode, base64_encoding};
use vstd::prelude::*;
use vstd::utf8::encode_utf8;

verus! {

/// The version that every message names.
pub open spec fn rpc_version() -> Seq<char> {
    "2.0"@
}

/// The code of an error that a request brought on itself.
pub const VALIDATION_ERROR_CODE: i32 = -32600;

/// The code of an error inside the server.
pub const INTERNAL_ERROR_CODE: i32 = -32602;

/// Why a message is refused.
#[derive(Debug)]
pub enum RPCError {
    /// A value is no JSON of its type.
    SerdeJSON,
    /// A value is no wire form of its type.
    SerdeBincode,
    /// A text is no base64.
    Base64,
    /// The message names this version, which is not "2.0".
    VersionValidation(String),
    /// The parameters of a request are unfit, with the reason.
    RequestParamsValidation(String),
    /// The result of a response is unfit, with the reason.
    ResultValidation(String),
    /// The response answers another request: the id of the request, then that
    /// of the response.
    IDValidation(usize, usize),
    /// The response holds an error: its code and message.
    Response(i32, String),
}

impl RPCError {
    /// The message of this error, as a text.
    pub open spec fn message_text(&self) -> Seq<char> {
        match self {
            RPCError::SerdeJSON => "Error occurred during JSON serialization of data."@,
            RPCError::SerdeBincode => "Error occurred during bincode serialization of data."@,
            RPCError::Base64 => "Error occurred during base64 decoding of data."@,
            RPCError::VersionValidation(s) => "JSONRPC: request version ("@ + s@
                + ") is incorrect, should be '2.0'."@,
            RPCError::RequestParamsValidation(s) => "JSONRPC: bad request params error, "@ + s@,
            RPCError::IDValidation(id1, id2) => "JSONRPC: bad response id error, request_id = "@
                + decimal_text(*id1 as nat) + ", response_id = "@ + decimal_text(*id2 as nat),
            RPCError::ResultValidation(s) => "JSONRPC: bad response result error, "@ + s@,
            RPCError::Response(c, s) => "JSONRPC: response returned error, code: "@
                + signed_decimal_text(*c as int) + ", message: "@ + s@,
        }
    }

    /// The message of this error.
    pub fn message(&self) -> (text: String)
        ensures
            text@ == self.message_text(),
    {
        match self {
            RPCError::SerdeJSON => String::from_str(
                "Error occurred during JSON serialization of data.",
            ),
            RPCError::SerdeBincode => String::from_str(
                "Error occurred during bincode serialization of data.",
            ),
            RPCError::Base64 => String::from_str("Error occurred during base64 decoding of data."),
            RPCError::VersionValidation(s) => String::from_str(
                "JSONRPC: request version (",
            ).concat(s.as_str()).concat(") is incorrect, should be '2.0'."),
            RPCError::RequestParamsValidation(s) => String::from_str(
                "JSONRPC: bad request params error, ",
            ).concat(s.as_str()),
            RPCError::IDValidation(id1, id2) => String::from_str(
                "JSONRPC: bad response id error, request_id = ",
            ).concat(decimal_string(*id1).as_str()).concat(", response_id = ").concat(
                decimal_string(*id2).as_str(),
            ),
            RPCError::ResultValidation(s) => String::from_str(
                "JSONRPC: bad response result error, ",
            ).concat(s.as_str()),
            RPCError::Response(c, s) => String::from_str(
                "JSONRPC: response returned error, code: ",
            ).concat(signed_decimal_string(*c).as_str()).concat(", message: ").concat(s.as_str()),
        }
    }
}

/// A request that can be checked before it is served.
pub trait ValidateRequest {
    /// What is wrong with the request, if anything.
    spec fn request_fault(&self) -> Option<RequestFault>;

    /// Checks the request.
    fn validate(&self) -> (checked: Result<(), RPCError>)
        ensures
            fault_reported(checked, self.request_fault()),
    ;
}

/// A response that can be checked against the id of its request.
pub trait ValidateResponse {
    /// What is wrong with the response to request `req_id`, if anything.
    spec fn response_fault(&self, req_id: usize) -> Option<ResponseFault>;

    /// Checks the response to request `req_id`.
    fn validate(&self, req_id: usize) -> (checked: Result<(), RPCError>)
        ensures
            response_fault_reported(checked, self.response_fault(req_id)),
    ;
}

/// What can be wrong with a request.
pub enum RequestFault {
    /// It names this version, which is not "2.0".
    Version(Seq<char>),
    /// An offline request names no bucket.
    NoParams,
    /// An online request holds no client message.
    NoMessage,
    /// An online request names no bucket.
    NoBucket,
}

/// What can be wrong with a response.
pub enum ResponseFault {
    /// It names this version, which is not "2.0".
    Version(Seq<char>),
    /// It answers another request: the id asked for, then the id it holds.
    Id(usize, usize),
    /// It holds an error: its code and message.
    Error(i32, Seq<char>),
    /// It holds neither an error nor a result.
    NoResult,
}

/// The outcome of a check says exactly what is wrong with the request.
pub open spec fn fault_reported(checked: Result<(), RPCError>, fault: Option<RequestFault>) -> bool {
    match fault {
        None => checked is Ok,
        Some(RequestFault::Version(v)) => checked matches Err(RPCError::VersionValidation(s))
            && s@ == v,
        Some(RequestFault::NoParams) => checked matches Err(RPCError::RequestParamsValidation(s))
            && s@ == "Params object is empty"@,
        Some(RequestFault::NoMessage) => checked matches Err(RPCError::RequestParamsValidation(s))
            && s@ == "No Client message enclosed"@,
        Some(RequestFault::NoBucket) => checked matches Err(RPCError::RequestParamsValidation(s))
            && s@ == "Bucket ID has not been set"@,
    }
}

/// The outcome of a check says exactly what is wrong with the response.
pub open spec fn response_fault_reported(
    checked: Result<(), RPCError>,
    fault: Option<ResponseFault>,
) -> bool {
    match fault {
        None => checked is Ok,
        Some(ResponseFault::Version(v)) => checked matches Err(RPCError::VersionValidation(s))
            && s@ == v,
        Some(ResponseFault::Id(asked, held)) => checked matches Err(RPCError::IDValidation(a, h))
            && a == asked && h == held,
        Some(ResponseFault::Error(code, message)) => checked matches Err(
            RPCError::Response(c, m),
        ) && c == code && m@ == message,
        Some(ResponseFault::NoResult) => checked matches Err(RPCError::ResultValidation(s)) && s@
            == "No result object"@,
    }
}

/// What is wrong with a response that names `jsonrpc` and `id`, holds the
/// error `error` and has a result or not: the first of a wrong version, a
/// wrong id, an error and a missing result.
pub open spec fn response_fault_of(
    jsonrpc: Seq<char>,
    id: usize,
    error: Option<(i32, Seq<char>)>,
    has_result: bool,
    req_id: usize,
) -> Option<ResponseFault> {
    if jsonrpc != rpc_version() {
        Some(ResponseFault::Version(jsonrpc))
    } else if id != req_id {
        Some(ResponseFault::Id(req_id, id))
    } else if error is Some {
        Some(ResponseFault::Error(error.unwrap().0, error.unwrap().1))
    } else if !has_result {
        Some(ResponseFault::NoResult)
    } else {
        None
    }
}

/// Tells whether a text is the version "2.0".
fn is_rpc_version(jsonrpc: &String) -> (same: bool)
    ensures
        same == (jsonrpc@ == rpc_version()),
{
    let version = String::from_str("2.0");
    *jsonrpc == version
}

/// The request for the public parameters of buckets.
pub struct ClientOfflineRequest {
    pub jsonrpc: String,
    pub method: String,
    /// The buckets asked for.
    pub params: Vec<usize>,
    pub id: usize,
}

impl ClientOfflineRequest {
    /// The request for the parameters of the buckets `bucket_ids`.
    pub fn new(bucket_ids: Vec<usize>) -> (request: Self)
        ensures
            request.jsonrpc@ == rpc_version(),
            request.method@ == "get_public_params"@,
            request.params == bucket_ids,
            request.id == 1,
    {
        Self {
            jsonrpc: String::from_str("2.0"),
            method: String::from_str("get_public_params"),
            params: bucket_ids,
            id: 1,
        }
    }
}

impl Default for ClientOfflineRequest {
    /// The request that names no bucket yet.
    fn default() -> (request: ClientOfflineRequest)
        ensures
            request.jsonrpc@ == rpc_version(),
            request.method@ == "get_public_params"@,
            request.params@.len() == 0,
            request.id == 1,
    {
        ClientOfflineRequest {
            jsonrpc: String::from_str("2.0"),
            method: String::from_str("get_public_params"),
            params: Vec::new(),
            id: 1,
        }
    }
}

impl ValidateRequest for ClientOfflineRequest {
    /// A wrong version comes first, then a request that names no bucket.
    open spec fn request_fault(&self) -> Option<RequestFault> {
        if self.jsonrpc@ != rpc_version() {
            Some(RequestFault::Version(self.jsonrpc@))
        } else if self.params@.len() == 0 {
            Some(RequestFault::NoParams)
        } else {
            None
        }
    }

    fn validate(&self) -> (checked: Result<(), RPCError>) {
        if !is_rpc_version(&self.jsonrpc) {
            return Err(RPCError::VersionValidation(self.jsonrpc.clone()));
        } else if self.params.len() == 0 {
            return Err(
                RPCError::RequestParamsValidation(String::from_str("Params object is empty")),
            );
        }
        Ok(())
    }
}

/// A keyword table inside a response: how it is encoded, and the encoding.
pub struct KeywordIndexMappingMessage {
    pub method: String,
    /// The JSON of the table as base64 text.
    pub data: String,
}

impl KeywordIndexMappingMessage {
    /// Wraps the JSON of a prefix table.
    pub fn from_local_hpt_json(json: &str) -> (message: Self)
        ensures
            message.method@ == "local_hpt"@,
            message.data@ == base64_encoding(encode_utf8(json@)),
            base64_decoding(message.data@) == Some(encode_utf8(json@)),
    {
        let data = base64_encode(json.as_bytes());
        Self { method: String::from_str("local_hpt"), data }
    }
}

/// The result of an offline response: the public parameters of a bucket and
/// its keyword table.
pub struct OfflineResponseResult {
    /// The JSON of the public parameters as base64 text.
    pub base_params: String,
    pub kimm: KeywordIndexMappingMessage,
}

impl OfflineResponseResult {
    /// Wraps the JSON of public parameters, with a keyword table.
    pub fn new(base_params_json: &str, kimm: KeywordIndexMappingMessage) -> (result: Self)
        ensures
            result.base_params@ == base64_encoding(encode_utf8(base_params_json@)),
            base64_decoding(result.base_params@) == Some(encode_utf8(base_params_json@)),
            result.kimm == kimm,
    {
        Self { base_params: base64_encode(base_params_json.as_bytes()), kimm }
    }

    /// Unwraps the JSON of the public parameters and that of the prefix table.
    ///
    /// Fails with `ResultValidation` where the table is not encoded as
    /// "local_hpt", else with `Base64` where one of the two is no base64 text.
    pub fn deserialize_local_hpt(&self) -> (jsons: Result<(Vec<u8>, Vec<u8>), RPCError>)
        ensures
            match jsons {
                Ok((base_params, local_hpt)) => {
                    &&& self.kimm.method@ == "local_hpt"@
                    &&& base64_decoding(self.base_params@) == Some(base_params@)
                    &&& base64_decoding(self.kimm.data@) == Some(local_hpt@)
                },
                Err(RPCError::ResultValidation(reason)) => self.kimm.method@ != "local_hpt"@
                    && reason@ == "Invalid keyword mapping method specified ("@
                    + self.kimm.method@ + ")"@,
                Err(RPCError::Base64) => {
                    &&& self.kimm.method@ == "local_hpt"@
                    &&& base64_decoding(self.base_params@) is None || base64_decoding(
                        self.kimm.data@,
                    ) is None
                },
                Err(_) => false,
            },
    {
        let expected = String::from_str("local_hpt");
        if self.kimm.method != expected {
            return Err(
                RPCError::ResultValidation(
                    String::from_str("Invalid keyword mapping method specified (").concat(
                        self.kimm.method.as_str(),
                    ).concat(")"),
                ),
            );
        }
        let sbp = match base64_decode(self.base_params.as_str()) {
            Ok(bytes) => bytes,
            Err(_) => {
                return Err(RPCError::Base64);
            },
        };
        let local_hpt_data = match base64_decode(self.kimm.data.as_str()) {
            Ok(bytes) => bytes,
            Err(_) => {
                return Err(RPCError::Base64);
            },
        };
        Ok((sbp, local_hpt_data))
    }
}

/// The error of a response.
#[derive(Debug)]
pub struct ResponseError {
    pub code: i32,
    pub message: String,
}

impl ResponseError {
    /// The error for a request that was refused.
    pub fn request_validation_error(e: RPCError) -> (error: ResponseError)
        ensures
            error.code == VALIDATION_ERROR_CODE,
            error.message@ == e.message_text(),
    {
        ResponseError { code: -32600, message: e.message() }
    }

    /// The error for public parameters that could not be produced.
    pub fn offline_internal() -> (error: ResponseError)
        ensures
            error.code == INTERNAL_ERROR_CODE,
            error.message@ == "Error retrieving public parameters"@,
    {
        ResponseError {
            code: -32602,
            message: String::from_str("Error retrieving public parameters"),
        }
    }

    /// The error for a query that could not be answered.
    pub fn online_internal() -> (error: ResponseError)
        ensures
            error.code == INTERNAL_ERROR_CODE,
            error.message@ == "Failed to respond to query"@,
    {
        ResponseError { code: -32602, message: String::from_str("Failed to respond to query") }
    }

    /// The error for a client message that could not be read.
    pub fn online_client_input() -> (error: ResponseError)
        ensures
            error.code == INTERNAL_ERROR_CODE,
            error.message@ == "Failed to deserialize client query"@,
    {
        ResponseError {
            code: -32602,
            message: String::from_str("Failed to deserialize client query"),
        }
    }
}

/// The response to an offline request.
pub struct ServerOfflineResponse {
    pub jsonrpc: String,
    pub result: Option<OfflineResponseResult>,
    pub error: Option<ResponseError>,
    pub id: usize,
}

impl ServerOfflineResponse {
    /// The response that carries public parameters and a prefix table, each
    /// given as its JSON, or nothing where it could not be written as JSON.
    /// Where one of the two is missing the response holds the error
    /// `offline_internal` and no result.
    pub fn from_local_hpt(base_params_json: Option<String>, hpt_json: Option<String>, id: usize) -> (response:
        Self)
        ensures
            response.jsonrpc@ == rpc_version(),
            response.id == id,
            match (base_params_json, hpt_json) {
                (Some(bp), Some(hpt)) => {
                    &&& response.error is None
                    &&& response.result matches Some(result)
                    &&& result.base_params@ == base64_encoding(encode_utf8(bp@))
                    &&& result.kimm.method@ == "local_hpt"@
                    &&& result.kimm.data@ == base64_encoding(encode_utf8(hpt@))
                },
                _ => {
                    &&& response.result is None
                    &&& response.error matches Some(error)
                    &&& error.code == INTERNAL_ERROR_CODE
                    &&& error.message@ == "Error retrieving public parameters"@
                },
            },
    {
        let kimm = match &hpt_json {
            Some(json) => KeywordIndexMappingMessage::from_local_hpt_json(json.as_str()),
            None => {
                return Self::error(ResponseError::offline_internal(), id);
            },
        };
        let result = match &base_params_json {
            Some(json) => OfflineResponseResult::new(json.as_str(), kimm),
            None => {
                return Self::error(ResponseError::offline_internal(), id);
            },
        };
        Self { jsonrpc: String::from_str("2.0"), id, result: Some(result), error: None }
    }

    /// The response that holds an error and no result.
    pub fn error(resp_err: ResponseError, id: usize) -> (response: Self)
        ensures
            response.jsonrpc@ == rpc_version(),
            response.id == id,
            response.error == Some(resp_err),
            response.result is None,
    {
        Self { jsonrpc: String::from_str("2.0"), id, error: Some(resp_err), result: None }
    }
}

impl ValidateResponse for ServerOfflineResponse {
    /// The first of a wrong version, a wrong id, an error and a missing result.
    open spec fn response_fault(&self, req_id: usize) -> Option<ResponseFault> {
        response_fault_of(
            self.jsonrpc@,
            self.id,
            match self.error {
                Some(e) => Some((e.code, e.message@)),
                None => None,
            },
            self.result is Some,
            req_id,
        )
    }

    fn validate(&self, req_id: usize) -> (checked: Result<(), RPCError>) {
        if !is_rpc_version(&self.jsonrpc) {
            return Err(RPCError::VersionValidation(self.jsonrpc.clone()));
        } else if self.id != req_id {
            return Err(RPCError::IDValidation(req_id, self.id));
        }
        match &self.error {
            Some(e) => {
                return Err(RPCError::Response(e.code, e.message.clone()));
            },
            None => {},
        }
        if self.result.is_none() {
            return Err(RPCError::ResultValidation(String::from_str("No result object")));
        }
        Ok(())
    }
}

/// The parameters of an online request: the bucket and the client message.
#[derive(Debug)]
pub struct ClientRequestParams {
    pub bucket_id: usize,
    pub message: Option<ClientMessage>,
}

impl Default for ClientRequestParams {
    /// Parameters that name no bucket and hold no message.
    fn default() -> (params: ClientRequestParams)
        ensures
            params.bucket_id == usize::MAX,
            params.message is None,
    {
        ClientRequestParams { bucket_id: usize::MAX, message: None }
    }
}

/// The request that carries the message of a client for one bucket.
#[derive(Debug)]
pub struct ClientOnlineRequest {
    pub jsonrpc: String,
    pub method: String,
    pub params: ClientRequestParams,
    pub id: usize,
}

impl ClientOnlineRequest {
    /// The request that carries `cms` for the bucket `bucket_id`.
    pub fn new(cms: ClientMessage, bucket_id: usize) -> (request: Self)
        ensures
            request.jsonrpc@ == rpc_version(),
            request.method@ == "client_query"@,
            request.params.message == Some(cms),
            request.params.bucket_id == bucket_id,
            request.id == 1,
    {
        Self {
            jsonrpc: String::from_str("2.0"),
            method: String::from_str("client_query"),
            params: ClientRequestParams { message: Some(cms), bucket_id },
            id: 1,
        }
    }
}

impl Default for ClientOnlineRequest {
    /// The request that names no bucket and holds no message yet.
    fn default() -> (request: ClientOnlineRequest)
        ensures
            request.jsonrpc@ == rpc_version(),
            request.method@ == "client_query"@,
            request.params.bucket_id == usize::MAX,
            request.params.message is None,
            request.id == 1,
    {
        ClientOnlineRequest {
            jsonrpc: String::from_str("2.0"),
            method: String::from_str("client_query"),
            params: ClientRequestParams::default(),
            id: 1,
        }
    }
}

impl ValidateRequest for ClientOnlineRequest {
    /// A wrong version comes first, then a missing message, then a missing bucket.
    open spec fn request_fault(&self) -> Option<RequestFault> {
        if self.jsonrpc@ != rpc_version() {
            Some(RequestFault::Version(self.jsonrpc@))
        } else if self.params.message is None {
            Some(RequestFault::NoMessage)
        } else if self.params.bucket_id == usize::MAX {
            Some(RequestFault::NoBucket)
        } else {
            None
        }
    }

    fn validate(&self) -> (checked: Result<(), RPCError>) {
        if !is_rpc_version(&self.jsonrpc) {
            return Err(RPCError::VersionValidation(self.jsonrpc.clone()));
        } else if self.params.message.is_none() {
            return Err(
                RPCError::RequestParamsValidation(String::from_str("No Client message enclosed")),
            );
        } else if self.params.bucket_id == usize::MAX {
            return Err(
                RPCError::RequestParamsValidation(String::from_str("Bucket ID has not been set")),
            );
        }
        Ok(())
    }
}

/// The response to an online request.
#[derive(Debug)]
pub struct ServerOnlineResponse {
    pub jsonrpc: String,
    pub result: Option<ServerResponse>,
    pub error: Option<ResponseError>,
    pub id: usize,
}

impl ServerOnlineResponse {
    /// The response that carries the answer of the server.
    pub fn new(resps: ServerResponse, id: usize) -> (response: Self)
        ensures
            response.jsonrpc@ == rpc_version(),
            response.id == id,
            response.result == Some(resps),
            response.error is None,
    {
        Self { jsonrpc: String::from_str("2.0"), id, result: Some(resps), error: None }
    }

    /// The response that holds the error `online_internal` and no result.
    pub fn error(id: usize) -> (response: Self)
        ensures
            response.jsonrpc@ == rpc_version(),
            response.id == id,
            response.result is None,
            response.error matches Some(error) && error.code == INTERNAL_ERROR_CODE
                && error.message@ == "Failed to respond to query"@,
    {
        Self {
            jsonrpc: String::from_str("2.0"),
            id,
            result: None,
            error: Some(ResponseError::online_internal()),
        }
    }
}

impl ValidateResponse for ServerOnlineResponse {
    /// The first of a wrong version, a wrong id, an error and a missing result.
    open spec fn response_fault(&self, req_id: usize) -> Option<ResponseFault> {
        response_fault_of(
            self.jsonrpc@,
            self.id,
            match self.error {
                Some(e) => Some((e.code, e.message@)),
                None => None,
            },
            self.result is Some,
            req_id,
        )
    }

    fn validate(&self, req_id: usize) -> (checked: Result<(), RPCError>) {
        if !is_rpc_version(&self.jsonrpc) {
            return Err(RPCError::VersionValidation(self.jsonrpc.clone()));
        } else if self.id != req_id {
            return Err(RPCError::IDValidation(req_id, self.id));
        }
        match &self.error {
            Some(e) => {
                return Err(RPCError::Response(e.code, e.message.clone()));
            },
            None => {},
        }
        if self.result.is_none() {
            return Err(RPCError::ResultValidation(String::from_str("No result object")));
        }
        Ok(())
    }
}

} // verus!
