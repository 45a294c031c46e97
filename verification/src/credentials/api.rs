//! What the server and the client of the credential lookup run.
//!
//! Ahead of time the client turns the public parameters of a bucket into
//! query parameters. To check a credential it asks for the rows that the
//! keyword table names and, in the same message, for the keyed hash of the
//! credential, which the server computes blindly. The credential is in the
//! leak where one of the rows that come back is that keyed hash.
pub use crate::api::{BaseParams, QueryParams as PIRQueryParams};
use crate::api::{
    decoded_row, CommonParams, Query as PIRQuery, QueryParamsView, Response as PIRResponse,
    Shard as Bucket,
};
use crate::credentials::errors::C3Error;
use crate::credentials::utils::{get_mod_prefix, hex_prefix_value, lemma_hex_prefix_value_bound};
use crate::db::{matrix_width, record_matrix, records_good, BaseParamsView};
use crate::errors::{ErrorUnexpectedInputSize, PirError};
use crate::trusted::digest::{sha256, sha256_digest};
use crate::trusted::oprf::{
    blinded_element_decoding, evaluation_element_decoding, oprf_blind, oprf_blind_evaluate,
    oprf_evaluation, oprf_finalization, oprf_finalize, parse_blinded_element,
    parse_evaluation_element,
};
use crate::wire::{wire_decoding, wire_encoding};
use crate::utils::format::{limb_bits, packed};
use crate::utils::lwe::rounding_factor;
use crate::utils::matrices::{is_ternary, products, rectangular, transposed};
use vstd::arithmetic::power2::lemma2_to64;
use vstd::prelude::*;
use vstd::std_specs::convert::FromSpecImpl;
use vstd::utf8::encode_utf8;

verus! {

/// The byte strings that a vector of byte vectors holds.
pub open spec fn byte_rows(v: Seq<Vec<u8>>) -> Seq<Seq<u8>> {
    Seq::new(v.len(), |i: int| v[i]@)
}

/// Copies a vector of byte vectors.
fn clone_byte_rows(v: &Vec<Vec<u8>>) -> (copy: Vec<Vec<u8>>)
    ensures
        byte_rows(copy@) == byte_rows(v@),
{
    let mut copy: Vec<Vec<u8>> = Vec::with_capacity(v.len());
    let mut i: usize = 0;
    while i < v.len()
        invariant
            i <= v.len(),
            copy.len() == i,
            forall|k: int| 0 <= k < i ==> (#[trigger] copy[k])@ == v[k]@,
        decreases v.len() - i,
    {
        copy.push(v[i].clone());
        i = i + 1;
    }
    proof {
        assert(byte_rows(copy@) =~= byte_rows(v@));
    }
    copy
}

/// What the query parameters of a vector hold.
pub open spec fn params_views(v: Seq<PIRQueryParams>) -> Seq<QueryParamsView> {
    Seq::new(v.len(), |i: int| v[i]@)
}

/// What the parameters of a client for a bucket hold.
pub struct ClientBucketParamsView {
    pub base: BaseParamsView,
    pub common: Seq<Seq<u32>>,
}

/// The parameters that a client derives queries from: the public parameters
/// of a bucket and the matrix expanded from their seed.
pub struct ClientBucketParams {
    base: BaseParams,
    common: CommonParams,
}

impl View for ClientBucketParams {
    type V = ClientBucketParamsView;

    closed spec fn view(&self) -> ClientBucketParamsView {
        ClientBucketParamsView { base: self.base@, common: self.common@ }
    }
}

impl FromSpecImpl<BaseParams> for ClientBucketParams {
    open spec fn obeys_from_spec() -> bool {
        false
    }

    open spec fn from_spec(bp: BaseParams) -> Self {
        arbitrary()
    }
}

impl From<BaseParams> for ClientBucketParams {
    /// Expands the seed of the public parameters and keeps both.
    fn from(bp: BaseParams) -> (params: Self)
        ensures
            params@.base == bp@,
            params@.common == bp@.lhs(),
    {
        let common = CommonParams::from(&bp);
        Self { base: bp, common }
    }
}

impl ClientBucketParams {
    /// Returns the public parameters.
    pub fn get_base(&self) -> (base: &BaseParams)
        ensures
            base@ == self@.base,
    {
        &self.base
    }

    /// Returns the expanded matrix.
    pub fn get_common(&self) -> (common: &CommonParams)
        ensures
            common@ == self@.common,
    {
        &self.common
    }
}

/// What the state of a client holds.
pub struct ClientStateView {
    /// The parameters that the queries were built from, one per query, used.
    pub pir_state: Seq<QueryParamsView>,
    /// The credential.
    pub oprf_input: Seq<u8>,
    /// The blinding of the credential, in the encoding of the client state.
    pub oprf_state: Seq<u8>,
}

/// What a client keeps between its message and the server's response.
pub struct ClientState {
    pir_state: Vec<PIRQueryParams>,
    oprf_input: Vec<u8>,
    oprf_state: Vec<u8>,
}

impl View for ClientState {
    type V = ClientStateView;

    closed spec fn view(&self) -> ClientStateView {
        ClientStateView {
            pir_state: params_views(self.pir_state@),
            oprf_input: self.oprf_input@,
            oprf_state: self.oprf_state@,
        }
    }
}

impl Clone for ClientState {
    fn clone(&self) -> (copy: Self)
        ensures
            copy@ == self@,
    {
        let mut pir_state: Vec<PIRQueryParams> = Vec::with_capacity(self.pir_state.len());
        let mut i: usize = 0;
        while i < self.pir_state.len()
            invariant
                i <= self.pir_state.len(),
                pir_state.len() == i,
                forall|k: int| 0 <= k < i ==> (#[trigger] pir_state[k])@ == self.pir_state[k]@,
            decreases self.pir_state.len() - i,
        {
            pir_state.push(self.pir_state[i].clone());
            i = i + 1;
        }
        proof {
            assert(params_views(pir_state@) =~= params_views(self.pir_state@));
        }
        Self {
            pir_state,
            oprf_input: self.oprf_input.clone(),
            oprf_state: self.oprf_state.clone(),
        }
    }
}

impl ClientState {
    /// Builds a state from its parts as they are.
    pub fn from_parts(pir_state: Vec<PIRQueryParams>, oprf_input: Vec<u8>, oprf_state: Vec<u8>) -> (state:
        Self)
        ensures
            state@ == (ClientStateView {
                pir_state: params_views(pir_state@),
                oprf_input: oprf_input@,
                oprf_state: oprf_state@,
            }),
    {
        Self { pir_state, oprf_input, oprf_state }
    }

    /// Returns the parameters of the queries.
    pub fn get_pir_state(&self) -> (pir_state: &[PIRQueryParams])
        ensures
            params_views(pir_state@) == self@.pir_state,
    {
        self.pir_state.as_slice()
    }

    /// Returns the credential.
    pub fn get_oprf_input(&self) -> (oprf_input: &[u8])
        ensures
            oprf_input@ == self@.oprf_input,
    {
        self.oprf_input.as_slice()
    }

    /// Returns the blinding of the credential.
    pub fn get_oprf_state(&self) -> (oprf_state: &[u8])
        ensures
            oprf_state@ == self@.oprf_state,
    {
        self.oprf_state.as_slice()
    }
}

/// What a message of a client holds.
pub struct ClientMessageView {
    /// The queries, each in wire form.
    pub pir_queries: Seq<Seq<u8>>,
    /// The blinded credential.
    pub oprf_query: Seq<u8>,
}

/// What a client sends to the server.
#[derive(Debug)]
pub struct ClientMessage {
    pir_queries: Vec<Vec<u8>>,
    oprf_query: Vec<u8>,
}

impl View for ClientMessage {
    type V = ClientMessageView;

    closed spec fn view(&self) -> ClientMessageView {
        ClientMessageView {
            pir_queries: byte_rows(self.pir_queries@),
            oprf_query: self.oprf_query@,
        }
    }
}

impl Clone for ClientMessage {
    fn clone(&self) -> (copy: Self)
        ensures
            copy@ == self@,
    {
        Self {
            pir_queries: clone_byte_rows(&self.pir_queries),
            oprf_query: self.oprf_query.clone(),
        }
    }
}

impl ClientMessage {
    /// Builds a message from its parts as they are.
    pub fn from_parts(pir_queries: Vec<Vec<u8>>, oprf_query: Vec<u8>) -> (message: Self)
        ensures
            message@ == (ClientMessageView {
                pir_queries: byte_rows(pir_queries@),
                oprf_query: oprf_query@,
            }),
    {
        Self { pir_queries, oprf_query }
    }

    /// Returns the queries, each in wire form.
    pub fn get_pir_queries(&self) -> (pir_queries: &[Vec<u8>])
        ensures
            byte_rows(pir_queries@) == self@.pir_queries,
    {
        self.pir_queries.as_slice()
    }

    /// Returns the blinded credential.
    pub fn get_oprf_query(&self) -> (oprf_query: &[u8])
        ensures
            oprf_query@ == self@.oprf_query,
    {
        self.oprf_query.as_slice()
    }
}

/// What a response of the server holds.
pub struct ServerResponseView {
    /// The answers to the queries, each in wire form.
    pub pir_resp: Seq<Seq<u8>>,
    /// The evaluated credential.
    pub oprf_resp: Seq<u8>,
}

/// What the server sends back.
#[derive(Debug)]
pub struct ServerResponse {
    pir_resp: Vec<Vec<u8>>,
    oprf_resp: Vec<u8>,
}

impl View for ServerResponse {
    type V = ServerResponseView;

    closed spec fn view(&self) -> ServerResponseView {
        ServerResponseView { pir_resp: byte_rows(self.pir_resp@), oprf_resp: self.oprf_resp@ }
    }
}

impl ServerResponse {
    /// Builds a response from its parts as they are.
    pub fn from_parts(pir_resp: Vec<Vec<u8>>, oprf_resp: Vec<u8>) -> (response: Self)
        ensures
            response@ == (ServerResponseView {
                pir_resp: byte_rows(pir_resp@),
                oprf_resp: oprf_resp@,
            }),
    {
        Self { pir_resp, oprf_resp }
    }

    /// Returns the answers to the queries, each in wire form.
    pub fn get_pir_resp(&self) -> (pir_resp: &[Vec<u8>])
        ensures
            byte_rows(pir_resp@) == self@.pir_resp,
    {
        self.pir_resp.as_slice()
    }

    /// Returns the evaluated credential.
    pub fn get_oprf_resp(&self) -> (oprf_resp: &[u8])
        ensures
            oprf_resp@ == self@.oprf_resp,
    {
        self.oprf_resp.as_slice()
    }
}

/// Loads a bucket from hashed credentials, one base64 text per record.
///
/// Fails at the first record that is no base64 text or whose bits do not fill
/// the limbs.
pub fn load_bucket_from_hashes(
    hashes: &[String],
    lwe_dim: usize,
    element_bit_len: usize,
    db_matrix_entry_bit_len: usize,
) -> (bucket: Result<Bucket, PirError>)
    requires
        db_matrix_entry_bit_len >= 1,
        hashes.len() >= 1,
        element_bit_len + db_matrix_entry_bit_len <= usize::MAX,
    ensures
        match bucket {
            Ok(bucket) => {
                &&& records_good(
                    hashes@,
                    hashes.len() as nat,
                    matrix_width(element_bit_len as nat, db_matrix_entry_bit_len as nat),
                    db_matrix_entry_bit_len as nat,
                )
                &&& bucket@.db.columns == transposed(
                    record_matrix(
                        hashes@,
                        hashes.len() as nat,
                        matrix_width(element_bit_len as nat, db_matrix_entry_bit_len as nat),
                        db_matrix_entry_bit_len as nat,
                    ),
                )
                &&& bucket@.db.m == hashes.len()
                &&& bucket@.db.elem_size == element_bit_len
                &&& bucket@.db.plaintext_bits == db_matrix_entry_bit_len
                &&& bucket@.base_params.dim == lwe_dim
                &&& bucket@.wf()
            },
            Err(PirError::BadRecord { index }) => {
                &&& index < hashes.len()
                &&& records_good(
                    hashes@,
                    index as nat,
                    matrix_width(element_bit_len as nat, db_matrix_entry_bit_len as nat),
                    db_matrix_entry_bit_len as nat,
                )
                &&& !records_good(
                    hashes@,
                    (index + 1) as nat,
                    matrix_width(element_bit_len as nat, db_matrix_entry_bit_len as nat),
                    db_matrix_entry_bit_len as nat,
                )
            },
            Err(_) => false,
        },
{
    Bucket::from_base64_strings(
        hashes,
        lwe_dim,
        hashes.len(),
        element_bit_len,
        db_matrix_entry_bit_len,
    )
}

/// Returns the bucket that a username belongs to: the first
/// `bucket_prefix_len` hexadecimal digits of the SHA-256 digest of the
/// username, as a number, modulo the number of buckets.
pub fn client_get_bucket_id(username: &str, bucket_prefix_len: usize, total_buckets: u32) -> (id:
    usize)
    requires
        1 <= bucket_prefix_len <= 16,
        total_buckets > 0,
    ensures
        id == hex_prefix_value(sha256_digest(encode_utf8(username@)), bucket_prefix_len as nat) % (
        total_buckets as nat),
{
    let digest = sha256(username.as_bytes());
    proof {
        lemma_hex_prefix_value_bound(digest@, bucket_prefix_len as nat);
        lemma2_to64();
        if bucket_prefix_len < 16 {
            vstd::arithmetic::power2::lemma_pow2_strictly_increases(
                (4 * bucket_prefix_len) as nat,
                64,
            );
        }
    }
    get_mod_prefix(digest.as_slice(), bucket_prefix_len, total_buckets) as usize
}

/// Derives `n` fresh query parameters. Each of them serves one query.
///
/// Fails exactly when parameters are asked for and a vector of the expanded
/// matrix or of the right-hand side has not `dim` words.
pub fn client_preproc_n_queries(cbp: &ClientBucketParams, n: usize) -> (params: Result<
    Vec<PIRQueryParams>,
    PirError,
>)
    ensures
        match params {
            Ok(params) => {
                &&& params.len() == n
                &&& n > 0 ==> rectangular(cbp@.common, cbp@.base.dim) && rectangular(
                    cbp@.base.rhs,
                    cbp@.base.dim,
                )
                &&& forall|i: int| 0 <= i < n ==> fresh_params((#[trigger] params[i])@, cbp@)
            },
            Err(PirError::DimensionMismatch(_)) => n > 0 && !(rectangular(
                cbp@.common,
                cbp@.base.dim,
            ) && rectangular(cbp@.base.rhs, cbp@.base.dim)),
            Err(_) => false,
        },
{
    let mut params: Vec<PIRQueryParams> = Vec::with_capacity(n);
    let mut i: usize = 0;
    while i < n
        invariant
            i <= n,
            params.len() == i,
            i > 0 ==> rectangular(cbp@.common, cbp@.base.dim) && rectangular(
                cbp@.base.rhs,
                cbp@.base.dim,
            ),
            forall|k: int| 0 <= k < i ==> fresh_params((#[trigger] params[k])@, cbp@),
        decreases n - i,
    {
        let fresh = PIRQueryParams::new(&cbp.common, &cbp.base)?;
        params.push(fresh);
        i = i + 1;
    }
    Ok(params)
}

/// Query parameters were derived from the parameters of a bucket with some
/// ternary secret and some ternary noise, and are unused.
pub open spec fn fresh_params(params: QueryParamsView, cbp: ClientBucketParamsView) -> bool {
    exists|s: Seq<u32>, noise: Seq<u32>|
        {
            &&& s.len() == cbp.base.dim
            &&& noise.len() == cbp.common.len()
            &&& forall|i: int| 0 <= i < s.len() ==> is_ternary(#[trigger] s[i])
            &&& forall|i: int| 0 <= i < noise.len() ==> is_ternary(#[trigger] noise[i])
            &&& #[trigger] params.made_from(cbp.common, cbp.base, s, noise)
        }
}

/// A query for row `idx` can be built from the parameters: they are unused,
/// have a word for that row, and the indicator fits on top of it.
pub open spec fn query_ready(params: QueryParamsView, idx: usize) -> bool {
    &&& !params.used
    &&& idx < params.lhs.len()
    &&& params.lhs[idx as int] + rounding_factor(params.plaintext_bits) <= u32::MAX
}

/// The words of the query for row `idx`.
pub open spec fn query_words(params: QueryParamsView, idx: usize) -> Seq<u32> {
    params.lhs.update(
        idx as int,
        (params.lhs[idx as int] + rounding_factor(params.plaintext_bits)) as u32,
    )
}

/// The error says why no query for row `idx` can be built from the parameters.
pub open spec fn query_fault(e: PirError, params: QueryParamsView, idx: usize) -> bool {
    match e {
        PirError::QueryParamsReused(_) => params.used,
        PirError::DimensionMismatch(_) => !params.used && idx >= params.lhs.len(),
        PirError::OverflowAdd(_) => !params.used && idx < params.lhs.len() && params.lhs[idx as int]
            + rounding_factor(params.plaintext_bits) > u32::MAX,
        _ => false,
    }
}

/// Builds the query for row `idx` in wire form and marks the parameters as used.
fn client_prepare_pir_query(qp: &mut PIRQueryParams, idx: usize) -> (query: Result<Vec<u8>, PirError>)
    requires
        !old(qp)@.used ==> 1 <= old(qp)@.plaintext_bits < 32,
    ensures
        match query {
            Ok(bytes) => {
                &&& query_ready(old(qp)@, idx)
                &&& bytes@ == wire_encoding(query_words(old(qp)@, idx))
                &&& final(qp)@ == old(qp)@.spent()
            },
            Err(e) => query_fault(e, old(qp)@, idx),
        },
{
    if !qp.is_used() && idx >= qp.get_lhs().len() {
        return Err(
            PirError::DimensionMismatch(
                ErrorUnexpectedInputSize::new(
                    String::from_str("row index is beyond the query parameters"),
                ),
            ),
        );
    }
    let q = qp.prepare_query(idx)?;
    q.serialize()
}

/// Builds one query per row index, each from a copy of the parameters at the
/// same position, and returns the queries in wire form with the copies, which
/// are now used. The parameters that were handed in stay as they are.
///
/// Fails at the first position where no query can be built: the parameters
/// were used (`QueryParamsReused`), have no word for the row
/// (`DimensionMismatch`), or the indicator does not fit (`OverflowAdd`).
pub fn client_prepare_pir_queries(qps: &[PIRQueryParams], db_indices: &[usize]) -> (prepared: Result<
    (Vec<Vec<u8>>, Vec<PIRQueryParams>),
    PirError,
>)
    requires
        qps.len() == db_indices.len(),
        forall|i: int|
            0 <= i < qps.len() && !(#[trigger] qps[i])@.used ==> 1 <= qps[i]@.plaintext_bits < 32,
    ensures
        match prepared {
            Ok((queries, updated)) => {
                &&& forall|i: int|
                    0 <= i < qps.len() ==> query_ready((#[trigger] qps[i])@, db_indices[i])
                &&& byte_rows(queries@) == Seq::new(
                    qps.len() as nat,
                    |i: int| wire_encoding(query_words(qps[i]@, db_indices[i])),
                )
                &&& params_views(updated@) == Seq::new(qps.len() as nat, |i: int| qps[i]@.spent())
            },
            Err(e) => exists|i: int|
                {
                    &&& 0 <= i < qps.len()
                    &&& forall|k: int| 0 <= k < i ==> query_ready((#[trigger] qps[k])@, db_indices[k])
                    &&& #[trigger] query_fault(e, qps[i]@, db_indices[i])
                },
        },
{
    let mut pir_queries: Vec<Vec<u8>> = Vec::with_capacity(db_indices.len());
    let mut updated_params: Vec<PIRQueryParams> = Vec::with_capacity(qps.len());
    let mut i: usize = 0;
    while i < qps.len()
        invariant
            i <= qps.len(),
            qps.len() == db_indices.len(),
            forall|k: int|
                0 <= k < qps.len() && !(#[trigger] qps[k])@.used ==> 1 <= qps[k]@.plaintext_bits
                    < 32,
            pir_queries.len() == i,
            updated_params.len() == i,
            forall|k: int| 0 <= k < i ==> query_ready((#[trigger] qps[k])@, db_indices[k]),
            forall|k: int|
                0 <= k < i ==> (#[trigger] pir_queries[k])@ == wire_encoding(
                    query_words(qps[k]@, db_indices[k]),
                ),
            forall|k: int| 0 <= k < i ==> (#[trigger] updated_params[k])@ == qps[k]@.spent(),
        decreases qps.len() - i,
    {
        let idx: usize = db_indices[i];
        let mut params = qps[i].clone();
        match client_prepare_pir_query(&mut params, idx) {
            Ok(pir_query) => {
                pir_queries.push(pir_query);
                updated_params.push(params);
            },
            Err(e) => {
                proof {
                    assert(query_fault(e, qps[i as int]@, db_indices[i as int]));
                }
                return Err(e);
            },
        }
        i = i + 1;
    }
    proof {
        assert(byte_rows(pir_queries@) =~= Seq::new(
            qps.len() as nat,
            |i: int| wire_encoding(query_words(qps[i]@, db_indices[i])),
        ));
        assert(params_views(updated_params@) =~= Seq::new(
            qps.len() as nat,
            |i: int| qps[i]@.spent(),
        ));
    }
    Ok((pir_queries, updated_params))
}

/// Puts the message and the state of a client together from the queries, the
/// used parameters, the credential and its blinding: the blinded element and
/// the client state, or nothing where the credential could not be blinded.
///
/// Fails with `OprfError` exactly when there is no blinding.
pub fn client_message_from_blinding(
    pir_queries: Vec<Vec<u8>>,
    updated_params: Vec<PIRQueryParams>,
    oprf_input: &[u8],
    blinding: Option<(Vec<u8>, Vec<u8>)>,
) -> (message: Result<(ClientMessage, ClientState), C3Error>)
    ensures
        match message {
            Ok((cm, cs)) => {
                &&& blinding matches Some((element, state))
                &&& cm@ == (ClientMessageView {
                    pir_queries: byte_rows(pir_queries@),
                    oprf_query: element@,
                })
                &&& cs@ == (ClientStateView {
                    pir_state: params_views(updated_params@),
                    oprf_input: oprf_input@,
                    oprf_state: state@,
                })
            },
            Err(C3Error::OprfError) => blinding is None,
            Err(_) => false,
        },
{
    match blinding {
        Some((element, state)) => Ok(
            (
                ClientMessage { pir_queries, oprf_query: element },
                ClientState {
                    pir_state: updated_params,
                    oprf_input: vstd::slice::slice_to_vec(oprf_input),
                    oprf_state: state,
                },
            ),
        ),
        None => Err(C3Error::OprfError),
    }
}

/// Builds the message of a client and the state it keeps: one query per row
/// index, each from a copy of the parameters at the same position, and the
/// blinded credential.
///
/// Fails with `ClientQueryError` when there are not as many parameters as row
/// indices; else with the error of the first query that cannot be built; else
/// with `OprfError` when the credential cannot be blinded.
pub fn client_prepare_queries(qps: &[PIRQueryParams], db_indices: &[usize], oprf_input: &[u8]) -> (message:
    Result<(ClientMessage, ClientState), C3Error>)
    requires
        forall|i: int|
            0 <= i < qps.len() && !(#[trigger] qps[i])@.used ==> 1 <= qps[i]@.plaintext_bits < 32,
    ensures
        match message {
            Ok((cm, cs)) => {
                &&& qps.len() == db_indices.len()
                &&& forall|i: int|
                    0 <= i < qps.len() ==> query_ready((#[trigger] qps[i])@, db_indices[i])
                &&& cm@.pir_queries == Seq::new(
                    qps.len() as nat,
                    |i: int| wire_encoding(query_words(qps[i]@, db_indices[i])),
                )
                &&& cs@.pir_state == Seq::new(qps.len() as nat, |i: int| qps[i]@.spent())
                &&& cs@.oprf_input == oprf_input@
            },
            Err(C3Error::ClientQueryError(params_len, indices_len)) => {
                &&& params_len == qps.len()
                &&& indices_len == db_indices.len()
                &&& params_len != indices_len
            },
            Err(C3Error::PIRError(e)) => {
                &&& qps.len() == db_indices.len()
                &&& exists|i: int|
                    {
                        &&& 0 <= i < qps.len()
                        &&& forall|k: int|
                            0 <= k < i ==> query_ready((#[trigger] qps[k])@, db_indices[k])
                        &&& #[trigger] query_fault(e, qps[i]@, db_indices[i])
                    }
            },
            Err(C3Error::OprfError) => {
                &&& qps.len() == db_indices.len()
                &&& forall|i: int|
                    0 <= i < qps.len() ==> query_ready((#[trigger] qps[i])@, db_indices[i])
            },
            Err(_) => false,
        },
{
    if qps.len() != db_indices.len() {
        return Err(C3Error::ClientQueryError(qps.len(), db_indices.len()));
    }
    let (pir_queries, updated_params) = match client_prepare_pir_queries(qps, db_indices) {
        Ok(prepared) => prepared,
        Err(e) => {
            return Err(C3Error::PIRError(e));
        },
    };
    let blinding = match oprf_blind(oprf_input) {
        Ok(blinding) => Some(blinding),
        Err(_) => None,
    };
    client_message_from_blinding(pir_queries, updated_params, oprf_input, blinding)
}

/// The answer of a database to a query in wire form, in wire form, or nothing
/// where the bytes are no query or the query has not one word per record.
pub open spec fn answer_of(db: crate::db::DatabaseView, query: Seq<u8>) -> Option<Seq<u8>> {
    match wire_decoding(query) {
        Some(words) => if db.width() == 0 || words.len() == db.m {
            Some(wire_encoding(products(words, db.columns)))
        } else {
            None
        },
        None => None,
    }
}

/// The error says why a query in wire form has no answer.
pub open spec fn answer_fault(e: C3Error, db: crate::db::DatabaseView, query: Seq<u8>) -> bool {
    match e {
        C3Error::SerdeError => wire_decoding(query) is None,
        C3Error::PIRError(PirError::DimensionMismatch(_)) => wire_decoding(query) is Some
            && answer_of(db, query) is None,
        _ => false,
    }
}

/// Answers every query of a message, in order.
///
/// Fails at the first query that has no answer: with `SerdeError` where the
/// bytes are no query, with `DimensionMismatch` where the query has not one
/// word per record.
pub fn server_answer_queries(bucket: &Bucket, pir_queries: &[Vec<u8>]) -> (answers: Result<
    Vec<Vec<u8>>,
    C3Error,
>)
    requires
        bucket@.db.wf(),
    ensures
        match answers {
            Ok(answers) => {
                &&& forall|i: int|
                    0 <= i < pir_queries.len() ==> (#[trigger] answer_of(
                        bucket@.db,
                        pir_queries[i]@,
                    )) is Some
                &&& byte_rows(answers@) == Seq::new(
                    pir_queries.len() as nat,
                    |i: int| answer_of(bucket@.db, pir_queries[i]@).unwrap(),
                )
            },
            Err(e) => exists|i: int|
                {
                    &&& 0 <= i < pir_queries.len()
                    &&& forall|k: int|
                        0 <= k < i ==> (#[trigger] answer_of(bucket@.db, pir_queries[k]@)) is Some
                    &&& #[trigger] answer_fault(e, bucket@.db, pir_queries[i]@)
                },
        },
{
    let mut pir_resp: Vec<Vec<u8>> = Vec::with_capacity(pir_queries.len());
    let mut i: usize = 0;
    while i < pir_queries.len()
        invariant
            i <= pir_queries.len(),
            bucket@.db.wf(),
            pir_resp.len() == i,
            forall|k: int|
                0 <= k < i ==> (#[trigger] answer_of(bucket@.db, pir_queries[k]@)) == Some(
                    pir_resp[k]@,
                ),
        decreases pir_queries.len() - i,
    {
        let pir_query = match PIRQuery::deserialize(pir_queries[i].as_slice()) {
            Ok(q) => q,
            Err(_) => {
                proof {
                    assert(answer_fault(C3Error::SerdeError, bucket@.db, pir_queries[i as int]@));
                }
                return Err(C3Error::SerdeError);
            },
        };
        match bucket.respond(&pir_query) {
            Ok(resp) => {
                pir_resp.push(resp);
            },
            Err(e) => {
                let e = C3Error::PIRError(e);
                proof {
                    assert(answer_fault(e, bucket@.db, pir_queries[i as int]@));
                }
                return Err(e);
            },
        }
        i = i + 1;
    }
    proof {
        assert(byte_rows(pir_resp@) =~= Seq::new(
            pir_queries.len() as nat,
            |i: int| answer_of(bucket@.db, pir_queries[i]@).unwrap(),
        ));
    }
    Ok(pir_resp)
}

/// Answers the message of a client: evaluates the blinded credential under
/// the key and answers every query.
///
/// Fails with `SerdeError` where the blinded credential is no element, else
/// with `OprfError` where the key or the element is refused, else at the first
/// query that has no answer.
pub fn server_calculate_response(bucket: &Bucket, cm: &ClientMessage, key_oprf: &[u8]) -> (response:
    Result<ServerResponse, C3Error>)
    requires
        bucket@.db.wf(),
    ensures
        match response {
            Ok(response) => {
                &&& blinded_element_decoding(cm@.oprf_query) matches Some(element)
                &&& oprf_evaluation(key_oprf@, element) == Some(response@.oprf_resp)
                &&& forall|i: int|
                    0 <= i < cm@.pir_queries.len() ==> (#[trigger] answer_of(
                        bucket@.db,
                        cm@.pir_queries[i],
                    )) is Some
                &&& response@.pir_resp == Seq::new(
                    cm@.pir_queries.len(),
                    |i: int| answer_of(bucket@.db, cm@.pir_queries[i]).unwrap(),
                )
            },
            Err(e) => {
                ||| e is SerdeError && blinded_element_decoding(cm@.oprf_query) is None
                ||| {
                    &&& blinded_element_decoding(cm@.oprf_query) matches Some(element)
                    &&& e is OprfError
                    &&& oprf_evaluation(key_oprf@, element) is None
                }
                ||| {
                    &&& blinded_element_decoding(cm@.oprf_query) matches Some(element)
                    &&& oprf_evaluation(key_oprf@, element) is Some
                    &&& exists|i: int|
                        {
                            &&& 0 <= i < cm@.pir_queries.len()
                            &&& forall|k: int|
                                0 <= k < i ==> (#[trigger] answer_of(
                                    bucket@.db,
                                    cm@.pir_queries[k],
                                )) is Some
                            &&& #[trigger] answer_fault(e, bucket@.db, cm@.pir_queries[i])
                        }
                }
            },
        },
{
    let oprf_query = match parse_blinded_element(cm.oprf_query.as_slice()) {
        Ok(element) => element,
        Err(_) => {
            return Err(C3Error::SerdeError);
        },
    };
    let oprf_resp = match oprf_blind_evaluate(key_oprf, oprf_query.as_slice()) {
        Ok(evaluation) => evaluation,
        Err(_) => {
            return Err(C3Error::OprfError);
        },
    };
    proof {
        assert forall|i: int| 0 <= i < cm.pir_queries.len() implies cm@.pir_queries[i]
            == cm.pir_queries[i]@ by {}
    }
    let pir_resp = match server_answer_queries(bucket, cm.pir_queries.as_slice()) {
        Ok(answers) => answers,
        Err(e) => {
            proof {
                let i = choose|i: int|
                    {
                        &&& 0 <= i < cm.pir_queries.len()
                        &&& forall|k: int|
                            0 <= k < i ==> (#[trigger] answer_of(bucket@.db, cm.pir_queries[k]@))
                                is Some
                        &&& #[trigger] answer_fault(e, bucket@.db, cm.pir_queries[i]@)
                    };
                assert(answer_fault(e, bucket@.db, cm@.pir_queries[i]));
                assert forall|k: int| 0 <= k < i implies (#[trigger] answer_of(
                    bucket@.db,
                    cm@.pir_queries[k],
                )) is Some by {
                    assert(answer_of(bucket@.db, cm.pir_queries[k]@) is Some);
                }
            }
            return Err(e);
        },
    };
    let response = ServerResponse { pir_resp, oprf_resp };
    proof {
        assert(response@.pir_resp =~= Seq::new(
            cm@.pir_queries.len(),
            |i: int| answer_of(bucket@.db, cm@.pir_queries[i]).unwrap(),
        ));
        assert forall|i: int| 0 <= i < cm@.pir_queries.len() implies (#[trigger] answer_of(
            bucket@.db,
            cm@.pir_queries[i],
        )) is Some by {
            assert(answer_of(bucket@.db, cm.pir_queries[i]@) is Some);
        }
    }
    Ok(response)
}

/// The parameters can read a row off a response: the limb size is in range
/// and there is a right-hand word for every limb.
pub open spec fn params_can_read(params: QueryParamsView) -> bool {
    &&& 1 <= params.plaintext_bits < 32
    &&& params.width() <= params.rhs.len()
}

/// The row that an answer in wire form stands for under the parameters of its
/// query, as bytes, or nothing where the bytes are no answer or the answer has
/// fewer words than a row has limbs.
pub open spec fn row_of_answer(answer: Seq<u8>, params: QueryParamsView) -> Option<Seq<u8>> {
    match wire_decoding(answer) {
        Some(words) => if params.width() <= words.len() {
            Some(
                packed(
                    limb_bits(decoded_row(words, params), params.plaintext_bits, params.ele_size),
                ),
            )
        } else {
            None
        },
        None => None,
    }
}

/// Answer `i` can be read: there are parameters for it and it stands for a row.
pub open spec fn answer_readable(
    pir_resp: Seq<Seq<u8>>,
    pir_state: Seq<QueryParamsView>,
    i: int,
) -> bool {
    i < pir_state.len() && row_of_answer(pir_resp[i], pir_state[i]) is Some
}

/// The error says why answer `i` cannot be read.
pub open spec fn answer_unreadable(
    e: C3Error,
    pir_resp: Seq<Seq<u8>>,
    pir_state: Seq<QueryParamsView>,
    i: int,
) -> bool {
    match e {
        C3Error::SerdeError => i < pir_state.len() && wire_decoding(pir_resp[i]) is None,
        C3Error::PIRError(PirError::DimensionMismatch(_)) => i >= pir_state.len() || (
        wire_decoding(pir_resp[i]) is Some && row_of_answer(pir_resp[i], pir_state[i]) is None),
        _ => false,
    }
}

/// Reads the row off every answer with the parameters at the same position
/// and tells whether one of the rows is `expected`.
///
/// Fails at the first answer that cannot be read: with `SerdeError` where the
/// bytes are no answer, with `DimensionMismatch` where there are no parameters
/// for it or it has fewer words than a row has limbs.
pub fn pir_outputs_match(pir_resp: &[Vec<u8>], pir_state: &[PIRQueryParams], expected: &[u8]) -> (found:
    Result<bool, C3Error>)
    requires
        forall|i: int| 0 <= i < pir_state.len() ==> params_can_read((#[trigger] pir_state[i])@),
    ensures
        match found {
            Ok(found) => {
                &&& forall|i: int|
                    0 <= i < pir_resp.len() ==> #[trigger] answer_readable(
                        byte_rows(pir_resp@),
                        params_views(pir_state@),
                        i,
                    )
                &&& found <==> exists|i: int|
                    0 <= i < pir_resp.len() && #[trigger] row_of_answer(
                        pir_resp[i]@,
                        pir_state[i]@,
                    ) == Some(expected@)
            },
            Err(e) => exists|i: int|
                {
                    &&& 0 <= i < pir_resp.len()
                    &&& forall|k: int|
                        0 <= k < i ==> #[trigger] answer_readable(
                            byte_rows(pir_resp@),
                            params_views(pir_state@),
                            k,
                        )
                    &&& #[trigger] answer_unreadable(
                        e,
                        byte_rows(pir_resp@),
                        params_views(pir_state@),
                        i,
                    )
                },
        },
{
    let mut pir_outputs: Vec<Vec<u8>> = Vec::with_capacity(pir_resp.len());
    let mut i: usize = 0;
    while i < pir_resp.len()
        invariant
            i <= pir_resp.len(),
            forall|k: int| 0 <= k < pir_state.len() ==> params_can_read((#[trigger] pir_state[k])@),
            pir_outputs.len() == i,
            forall|k: int|
                0 <= k < i ==> #[trigger] answer_readable(
                    byte_rows(pir_resp@),
                    params_views(pir_state@),
                    k,
                ),
            forall|k: int|
                0 <= k < i ==> row_of_answer(pir_resp[k]@, pir_state[k]@) == Some(
                    (#[trigger] pir_outputs[k])@,
                ),
        decreases pir_resp.len() - i,
    {
        if i >= pir_state.len() {
            let e = C3Error::PIRError(
                PirError::DimensionMismatch(
                    ErrorUnexpectedInputSize::new(
                        String::from_str("more answers than query parameters"),
                    ),
                ),
            );
            proof {
                assert(answer_unreadable(
                    e,
                    byte_rows(pir_resp@),
                    params_views(pir_state@),
                    i as int,
                ));
            }
            return Err(e);
        }
        let answer = match PIRResponse::deserialize(pir_resp[i].as_slice()) {
            Ok(answer) => answer,
            Err(_) => {
                proof {
                    assert(answer_unreadable(
                        C3Error::SerdeError,
                        byte_rows(pir_resp@),
                        params_views(pir_state@),
                        i as int,
                    ));
                }
                return Err(C3Error::SerdeError);
            },
        };
        let params = &pir_state[i];
        let width: usize = crate::db::Database::get_matrix_width(
            params.get_elem_size(),
            params.get_plaintext_bits(),
        );
        if answer.as_slice().len() < width {
            let e = C3Error::PIRError(
                PirError::DimensionMismatch(
                    ErrorUnexpectedInputSize::new(
                        String::from_str("answer is shorter than a row"),
                    ),
                ),
            );
            proof {
                assert(answer_unreadable(
                    e,
                    byte_rows(pir_resp@),
                    params_views(pir_state@),
                    i as int,
                ));
            }
            return Err(e);
        }
        let pir_final = answer.parse_output_as_bytes(params);
        proof {
            assert(answer_readable(byte_rows(pir_resp@), params_views(pir_state@), i as int));
        }
        pir_outputs.push(pir_final);
        i = i + 1;
    }
    let mut found: bool = false;
    let mut j: usize = 0;
    while j < pir_outputs.len()
        invariant
            j <= pir_outputs.len(),
            pir_outputs.len() == pir_resp.len(),
            forall|k: int|
                0 <= k < pir_outputs.len() ==> row_of_answer(pir_resp[k]@, pir_state[k]@) == Some(
                    (#[trigger] pir_outputs[k])@,
                ),
            found <==> exists|k: int|
                0 <= k < j && #[trigger] row_of_answer(pir_resp[k]@, pir_state[k]@) == Some(
                    expected@,
                ),
        decreases pir_outputs.len() - j,
    {
        if bytes_equal(pir_outputs[j].as_slice(), expected) {
            proof {
                assert(row_of_answer(pir_resp[j as int]@, pir_state[j as int]@) == Some(expected@));
            }
            found = true;
        } else {
            proof {
                assert(pir_outputs[j as int]@ != expected@);
            }
        }
        j = j + 1;
    }
    Ok(found)
}

/// Tells whether two byte strings are the same.
fn bytes_equal(a: &[u8], b: &[u8]) -> (same: bool)
    ensures
        same == (a@ == b@),
{
    if a.len() != b.len() {
        return false;
    }
    let mut i: usize = 0;
    while i < a.len()
        invariant
            i <= a.len(),
            a.len() == b.len(),
            forall|k: int| 0 <= k < i ==> a[k] == b[k],
        decreases a.len() - i,
    {
        if a[i] != b[i] {
            return false;
        }
        i = i + 1;
    }
    proof {
        assert(a@ =~= b@);
    }
    true
}

/// Reads the response of the server and tells whether the credential is in
/// the leak: whether one of the rows that came back is the keyed hash of the
/// credential.
///
/// Fails with `SerdeError` where the evaluated credential is no element, else
/// with `OprfError` where the state, the credential or the element is
/// refused, else at the first answer that cannot be read.
pub fn client_process_output(sr: &ServerResponse, cs: &ClientState) -> (leaked: Result<bool, C3Error>)
    requires
        forall|i: int| 0 <= i < cs@.pir_state.len() ==> params_can_read(#[trigger] cs@.pir_state[i]),
    ensures
        match leaked {
            Ok(leaked) => {
                &&& evaluation_element_decoding(sr@.oprf_resp) matches Some(element)
                &&& oprf_finalization(cs@.oprf_state, cs@.oprf_input, element) matches Some(output)
                &&& forall|i: int|
                    0 <= i < sr@.pir_resp.len() ==> #[trigger] answer_readable(
                        sr@.pir_resp,
                        cs@.pir_state,
                        i,
                    )
                &&& leaked <==> exists|i: int|
                    0 <= i < sr@.pir_resp.len() && #[trigger] row_of_answer(
                        sr@.pir_resp[i],
                        cs@.pir_state[i],
                    ) == Some(output)
            },
            Err(e) => {
                ||| e is SerdeError && evaluation_element_decoding(sr@.oprf_resp) is None
                ||| {
                    &&& evaluation_element_decoding(sr@.oprf_resp) matches Some(element)
                    &&& e is OprfError
                    &&& oprf_finalization(cs@.oprf_state, cs@.oprf_input, element) is None
                }
                ||| {
                    &&& evaluation_element_decoding(sr@.oprf_resp) matches Some(element)
                    &&& oprf_finalization(cs@.oprf_state, cs@.oprf_input, element) is Some
                    &&& exists|i: int|
                        {
                            &&& 0 <= i < sr@.pir_resp.len()
                            &&& forall|k: int|
                                0 <= k < i ==> #[trigger] answer_readable(
                                    sr@.pir_resp,
                                    cs@.pir_state,
                                    k,
                                )
                            &&& #[trigger] answer_unreadable(e, sr@.pir_resp, cs@.pir_state, i)
                        }
                }
            },
        },
{
    let oprf_resp = match parse_evaluation_element(sr.oprf_resp.as_slice()) {
        Ok(element) => element,
        Err(_) => {
            return Err(C3Error::SerdeError);
        },
    };
    let oprf_final = match oprf_finalize(
        cs.oprf_state.as_slice(),
        cs.oprf_input.as_slice(),
        oprf_resp.as_slice(),
    ) {
        Ok(output) => output,
        Err(_) => {
            return Err(C3Error::OprfError);
        },
    };
    proof {
        assert forall|i: int| 0 <= i < cs.pir_state.len() implies params_can_read(
            (#[trigger] cs.pir_state[i])@,
        ) by {
            assert(cs@.pir_state[i] == cs.pir_state[i]@);
        }
    }
    let found = pir_outputs_match(
        sr.pir_resp.as_slice(),
        cs.pir_state.as_slice(),
        oprf_final.as_slice(),
    );
    proof {
        match found {
            Ok(b) => {
                if b {
                    let i = choose|i: int|
                        0 <= i < sr.pir_resp.len() && #[trigger] row_of_answer(
                            sr.pir_resp[i]@,
                            cs.pir_state[i]@,
                        ) == Some(oprf_final@);
                    assert(answer_readable(sr@.pir_resp, cs@.pir_state, i));
                    assert(row_of_answer(sr@.pir_resp[i], cs@.pir_state[i]) == Some(oprf_final@));
                }
                if exists|i: int|
                    0 <= i < sr@.pir_resp.len() && #[trigger] row_of_answer(
                        sr@.pir_resp[i],
                        cs@.pir_state[i],
                    ) == Some(oprf_final@) {
                    let i = choose|i: int|
                        0 <= i < sr@.pir_resp.len() && #[trigger] row_of_answer(
                            sr@.pir_resp[i],
                            cs@.pir_state[i],
                        ) == Some(oprf_final@);
                    assert(answer_readable(sr@.pir_resp, cs@.pir_state, i));
                    assert(row_of_answer(sr.pir_resp[i]@, cs.pir_state[i]@) == Some(oprf_final@));
                }
            },
            Err(_) => {},
        }
    }
    found
}

} // verus!
