//! Shards, query parameters, queries and responses.
//!
//! A server keeps one [`Shard`] per database. A client derives
//! [`QueryParams`] from the shard's public parameters ahead of time, turns one
//! of them into a [`Query`] for the row it wants, and reads the row off the
//! [`Response`] with the same parameters.
pub use crate::db::{BaseParams, CommonParams};
use crate::db::{
    matrix_width, record_matrix, records_good, BaseParamsView, Database, DatabaseView,
};
pub use crate::utils::format::{
    base64_from_u32_slice, bits_to_bytes_le, bits_to_u32_le, bytes_from_u32_slice,
    bytes_to_bits_le, bytes_to_u32_le, u32_sized_bytes_from_vec, u32_to_bits_le,
};
use crate::errors::{ErrorOverflownAdd, ErrorQueryParamsReused, PirError};
use crate::trusted::text::{base64_decoding, base64_encoding};
use crate::trusted::wire::{deserialize_words, serialize_words};
use crate::wire::{wire_decoding, wire_encoding};
use crate::utils::format::{limb_bits, packed};
use crate::utils::lwe::{
    get_plaintext_size, get_rounding_factor, get_rounding_floor, lemma_rounding_factor_is_pow2,
    plaintext_size, rounding_factor, rounding_floor,
};
use crate::utils::matrices::{
    inner_product, is_ternary, lemma_wrapping_sub_is_sub_mod, noisy_products, products,
    random_ternary_vector, rectangular, rows, sub_mod, transposed, vec_mult_u32_u32,
};
use vstd::prelude::*;

verus! {

/// What a shard holds.
pub struct ShardView {
    pub db: DatabaseView,
    pub base_params: BaseParamsView,
}

impl ShardView {
    /// The database is well formed and the parameters are its own.
    pub open spec fn wf(self) -> bool {
        self.db.wf() && self.base_params.derived_from(self.db)
    }
}

/// A database with its public parameters, ready to answer queries.
#[derive(Debug)]
pub struct Shard {
    db: Database,
    base_params: BaseParams,
}

impl View for Shard {
    type V = ShardView;

    closed spec fn view(&self) -> ShardView {
        ShardView { db: self.db@, base_params: self.base_params@ }
    }
}

impl Clone for Shard {
    fn clone(&self) -> (copy: Self)
        ensures
            copy@ == self@,
    {
        Self { db: self.db.clone(), base_params: self.base_params.clone() }
    }
}

impl Shard {
    /// Reads the first `m` records, each a base64 text of `ele_size` bits, into
    /// a database of limbs of `plaintext_bits` bits, and derives its public
    /// parameters for secret vectors of `lwe_dim` words.
    ///
    /// Fails at the first record that is no base64 text or whose bits do not
    /// fill the limbs.
    pub fn from_base64_strings(
        base64_strs: &[String],
        lwe_dim: usize,
        m: usize,
        ele_size: usize,
        plaintext_bits: usize,
    ) -> (shard: Result<Self, PirError>)
        requires
            plaintext_bits >= 1,
            1 <= m <= base64_strs.len(),
            ele_size + plaintext_bits <= usize::MAX,
        ensures
            match shard {
                Ok(shard) => {
                    &&& records_good(
                        base64_strs@,
                        m as nat,
                        matrix_width(ele_size as nat, plaintext_bits as nat),
                        plaintext_bits as nat,
                    )
                    &&& shard@.db.columns == transposed(
                        record_matrix(
                            base64_strs@,
                            m as nat,
                            matrix_width(ele_size as nat, plaintext_bits as nat),
                            plaintext_bits as nat,
                        ),
                    )
                    &&& shard@.db.m == m
                    &&& shard@.db.elem_size == ele_size
                    &&& shard@.db.plaintext_bits == plaintext_bits
                    &&& shard@.base_params.dim == lwe_dim
                    &&& shard@.wf()
                },
                Err(PirError::BadRecord { index }) => {
                    &&& index < m
                    &&& records_good(
                        base64_strs@,
                        index as nat,
                        matrix_width(ele_size as nat, plaintext_bits as nat),
                        plaintext_bits as nat,
                    )
                    &&& !records_good(
                        base64_strs@,
                        (index + 1) as nat,
                        matrix_width(ele_size as nat, plaintext_bits as nat),
                        plaintext_bits as nat,
                    )
                },
                Err(_) => false,
            },
    {
        let db = Database::new(base64_strs, m, ele_size, plaintext_bits)?;
        let base_params = BaseParams::new(&db, lwe_dim);
        Ok(Self { db, base_params })
    }

    /// Builds a shard from a database and parameters as they are.
    pub fn from_parts(db: Database, base_params: BaseParams) -> (shard: Self)
        ensures
            shard@ == (ShardView { db: db@, base_params: base_params@ }),
    {
        Self { db, base_params }
    }

    /// Answers a query: the inner product of the query with every column of
    /// the database, in wire form.
    ///
    /// Fails exactly when the query has not one word per record.
    pub fn respond(&self, q: &Query) -> (answer: Result<Vec<u8>, PirError>)
        requires
            self@.db.wf(),
        ensures
            match answer {
                Ok(bytes) => {
                    &&& self@.db.width() == 0 || q@.len() == self@.db.m
                    &&& bytes@ == wire_encoding(products(q@, self@.db.columns))
                },
                Err(PirError::DimensionMismatch(_)) => self@.db.width() > 0 && q@.len()
                    != self@.db.m,
                Err(_) => false,
            },
    {
        let width: usize = self.db.get_matrix_width_self();
        let mut resp: Vec<u32> = Vec::with_capacity(width);
        let mut i: usize = 0;
        while i < width
            invariant
                i <= width,
                width == self@.db.columns.len(),
                self@.db.wf(),
                resp.len() == i,
                i > 0 ==> q@.len() == self@.db.m,
                self@.db.width() == width,
                forall|k: int| 0 <= k < i ==> resp[k] == inner_product(q@, self@.db.columns[k]),
            decreases width - i,
        {
            let entries = self.db.get_entries();
            proof {
                assert(rows(entries@)[i as int] == entries[i as int]@);
                assert(self@.db.columns[i as int].len() == self@.db.m);
            }
            match vec_mult_u32_u32(q.as_slice(), entries[i].as_slice()) {
                Ok(p) => {
                    resp.push(p);
                },
                Err(e) => {
                    return Err(PirError::DimensionMismatch(e));
                },
            }
            i = i + 1;
        }
        proof {
            assert(resp@ =~= products(q@, self@.db.columns));
        }
        Response(resp).serialize()
    }

    /// Returns the database.
    pub fn get_db(&self) -> (db: &Database)
        ensures
            db@ == self@.db,
    {
        &self.db
    }

    /// Returns the public parameters.
    pub fn get_base_params(&self) -> (params: &BaseParams)
        ensures
            params@ == self@.base_params,
    {
        &self.base_params
    }

    /// Returns every record as base64 text, in order.
    pub fn into_row_iter(&self) -> (records: Vec<String>)
        requires
            self@.db.wf(),
        ensures
            records.len() == self@.db.m,
            forall|i: int|
                0 <= i < records.len() ==> {
                    &&& (#[trigger] records[i])@ == base64_encoding(self@.db.record_bytes(i))
                    &&& base64_decoding(records[i]@) == Some(self@.db.record_bytes(i))
                },
    {
        let height: usize = self.get_db().get_matrix_height();
        let mut records: Vec<String> = Vec::with_capacity(height);
        let mut i: usize = 0;
        while i < height
            invariant
                i <= height,
                height == self@.db.m,
                self@.db.wf(),
                records.len() == i,
                forall|k: int|
                    0 <= k < i ==> {
                        &&& (#[trigger] records[k])@ == base64_encoding(self@.db.record_bytes(k))
                        &&& base64_decoding(records[k]@) == Some(self@.db.record_bytes(k))
                    },
            decreases height - i,
        {
            records.push(self.get_db().get_db_entry(i));
            i = i + 1;
        }
        records
    }
}

/// What query parameters hold.
pub struct QueryParamsView {
    /// The masked secret: the secret vector times the left-hand matrix, plus noise.
    pub lhs: Seq<u32>,
    /// The secret vector times the right-hand side of the public parameters.
    pub rhs: Seq<u32>,
    /// The number of bits of a record.
    pub ele_size: nat,
    /// The number of bits of a limb.
    pub plaintext_bits: nat,
    /// Whether a query was built from these parameters.
    pub used: bool,
}

/// How building a query from parameters ends.
pub enum Prepared {
    /// The query.
    Query(Seq<u32>),
    /// The parameters were used before.
    Reused,
    /// The indicator does not fit on top of the masked entry.
    Overflow,
}

impl QueryParamsView {
    /// The number of limbs of a record.
    pub open spec fn width(self) -> nat {
        matrix_width(self.ele_size, self.plaintext_bits)
    }

    /// The parameters were made from the secret `s` and the noise `noise`.
    pub open spec fn made_from(
        self,
        cp: Seq<Seq<u32>>,
        bp: BaseParamsView,
        s: Seq<u32>,
        noise: Seq<u32>,
    ) -> bool {
        &&& self.lhs == noisy_products(s, cp, noise)
        &&& self.rhs == products(s, bp.rhs)
        &&& self.ele_size == bp.elem_size
        &&& self.plaintext_bits == bp.plaintext_bits
        &&& !self.used
    }

    /// The parameters after a query was asked of them: used, and otherwise as before.
    pub open spec fn spent(self) -> QueryParamsView {
        QueryParamsView { used: true, ..self }
    }

    /// What asking for row `row_index` gives: the masked secret with the
    /// rounding factor added at `row_index`, unless the parameters were used
    /// before or the sum leaves the 32-bit range.
    pub open spec fn prepared(self, row_index: int) -> Prepared {
        if self.used {
            Prepared::Reused
        } else if self.lhs[row_index] + rounding_factor(self.plaintext_bits) > u32::MAX {
            Prepared::Overflow
        } else {
            Prepared::Query(
                self.lhs.update(
                    row_index,
                    (self.lhs[row_index] + rounding_factor(self.plaintext_bits)) as u32,
                ),
            )
        }
    }
}

/// Parameters for one query, derived ahead of time from the public parameters
/// of a shard. They serve one query and no more.
#[derive(Debug)]
pub struct QueryParams {
    lhs: Vec<u32>,
    rhs: Vec<u32>,
    ele_size: usize,
    plaintext_bits: usize,
    pub used: bool,
}

impl View for QueryParams {
    type V = QueryParamsView;

    closed spec fn view(&self) -> QueryParamsView {
        QueryParamsView {
            lhs: self.lhs@,
            rhs: self.rhs@,
            ele_size: self.ele_size as nat,
            plaintext_bits: self.plaintext_bits as nat,
            used: self.used,
        }
    }
}

impl Clone for QueryParams {
    fn clone(&self) -> (copy: Self)
        ensures
            copy@ == self@,
    {
        Self {
            lhs: self.lhs.clone(),
            rhs: self.rhs.clone(),
            ele_size: self.ele_size,
            plaintext_bits: self.plaintext_bits,
            used: self.used,
        }
    }
}

impl QueryParams {
    /// Draws a ternary secret and ternary noise and derives fresh parameters
    /// from them.
    ///
    /// Fails exactly when a vector of the common matrix or of the right-hand
    /// side has not `dim` words.
    pub fn new(cp: &CommonParams, bp: &BaseParams) -> (params: Result<Self, PirError>)
        ensures
            match params {
                Ok(params) => {
                    &&& rectangular(cp@, bp@.dim)
                    &&& rectangular(bp@.rhs, bp@.dim)
                    &&& exists|s: Seq<u32>, noise: Seq<u32>|
                        {
                            &&& s.len() == bp@.dim
                            &&& noise.len() == cp@.len()
                            &&& forall|i: int| 0 <= i < s.len() ==> is_ternary(#[trigger] s[i])
                            &&& forall|i: int| 0 <= i < noise.len() ==> is_ternary(#[trigger] noise[i])
                            &&& #[trigger] params@.made_from(cp@, bp@, s, noise)
                        }
                },
                Err(PirError::DimensionMismatch(_)) => !(rectangular(cp@, bp@.dim) && rectangular(
                    bp@.rhs,
                    bp@.dim,
                )),
                Err(_) => false,
            },
    {
        let s = random_ternary_vector(bp.get_dim());
        let noise = random_ternary_vector(cp.as_matrix().len());
        let params = Self::from_secret(cp, bp, s.as_slice(), noise.as_slice());
        proof {
            if params is Ok {
                assert(params.unwrap()@.made_from(cp@, bp@, s@, noise@));
            }
        }
        params
    }

    /// Derives parameters from a secret vector and a noise vector: the masked
    /// secret is the secret times the common matrix plus the noise, and the
    /// right-hand side is the secret times that of the public parameters.
    ///
    /// Fails exactly when a vector of the common matrix or of the right-hand
    /// side differs from the secret in length.
    pub fn from_secret(cp: &CommonParams, bp: &BaseParams, s: &[u32], noise: &[u32]) -> (params:
        Result<Self, PirError>)
        requires
            noise.len() == cp@.len(),
        ensures
            match params {
                Ok(params) => {
                    &&& rectangular(cp@, s.len() as nat)
                    &&& rectangular(bp@.rhs, s.len() as nat)
                    &&& params@.made_from(cp@, bp@, s@, noise@)
                },
                Err(PirError::DimensionMismatch(_)) => !(rectangular(cp@, s.len() as nat)
                    && rectangular(bp@.rhs, s.len() as nat)),
                Err(_) => false,
            },
    {
        Ok(
            Self {
                lhs: cp.mult_left_with_noise(s, noise)?,
                rhs: bp.mult_right(s)?,
                ele_size: bp.get_elem_size(),
                plaintext_bits: bp.get_plaintext_bits(),
                used: false,
            },
        )
    }

    /// Builds parameters from their parts as they are.
    pub fn from_parts(
        lhs: Vec<u32>,
        rhs: Vec<u32>,
        ele_size: usize,
        plaintext_bits: usize,
        used: bool,
    ) -> (params: Self)
        ensures
            params@ == (QueryParamsView {
                lhs: lhs@,
                rhs: rhs@,
                ele_size: ele_size as nat,
                plaintext_bits: plaintext_bits as nat,
                used,
            }),
    {
        Self { lhs, rhs, ele_size, plaintext_bits, used }
    }

    /// Tells whether a query was built from these parameters.
    pub fn is_used(&self) -> (used: bool)
        ensures
            used == self@.used,
    {
        self.used
    }

    /// Returns the masked secret.
    pub fn get_lhs(&self) -> (lhs: &[u32])
        ensures
            lhs@ == self@.lhs,
    {
        self.lhs.as_slice()
    }

    /// Returns the right-hand side.
    pub fn get_rhs(&self) -> (rhs: &[u32])
        ensures
            rhs@ == self@.rhs,
    {
        self.rhs.as_slice()
    }

    /// Returns the number of bits of a record.
    pub fn get_elem_size(&self) -> (ele_size: usize)
        ensures
            ele_size == self@.ele_size,
    {
        self.ele_size
    }

    /// Returns the number of bits of a limb.
    pub fn get_plaintext_bits(&self) -> (plaintext_bits: usize)
        ensures
            plaintext_bits == self@.plaintext_bits,
    {
        self.plaintext_bits
    }

    /// Builds the query for row `row_index` and marks the parameters as used.
    ///
    /// The query is the masked secret with the rounding factor added at
    /// `row_index`. Parameters that were used before give
    /// `QueryParamsReused`; a sum that leaves the 32-bit range gives
    /// `OverflowAdd`.
    pub fn prepare_query(&mut self, row_index: usize) -> (query: Result<Query, PirError>)
        requires
            !old(self)@.used ==> row_index < old(self)@.lhs.len() && 1 <= old(self)@.plaintext_bits
                < 32,
        ensures
            final(self)@ == old(self)@.spent(),
            match query {
                Ok(q) => old(self)@.prepared(row_index as int) == Prepared::Query(q@),
                Err(PirError::QueryParamsReused(_)) => old(self)@.prepared(row_index as int)
                    is Reused,
                Err(PirError::OverflowAdd(_)) => old(self)@.prepared(row_index as int) is Overflow,
                Err(_) => false,
            },
    {
        if self.used {
            return Err(PirError::QueryParamsReused(ErrorQueryParamsReused {  }));
        }
        self.used = true;
        let query_indicator: u32 = get_rounding_factor(self.plaintext_bits);
        let mut lhs: Vec<u32> = self.lhs.clone();
        match lhs[row_index].checked_add(query_indicator) {
            Some(result) => {
                lhs.set(row_index, result);
                Ok(Query(lhs))
            },
            None => Err(PirError::OverflowAdd(ErrorOverflownAdd {  })),
        }
    }
}

/// Parameters serve one query: after a first query was asked of fresh
/// parameters they are used, whether or not the indicator fitted, and a second
/// query is refused as a reuse.
pub proof fn lemma_params_one_shot(params: QueryParamsView, first_row: int, second_row: int)
    requires
        !params.used,
    ensures
        !(params.prepared(first_row) is Reused),
        params.spent().used,
        params.spent().prepared(second_row) is Reused,
        params.spent().spent() == params.spent(),
{
}

/// A query: one word per record of the database.
#[derive(Debug)]
pub struct Query(Vec<u32>);

impl View for Query {
    type V = Seq<u32>;

    closed spec fn view(&self) -> Seq<u32> {
        self.0@
    }
}

impl Clone for Query {
    fn clone(&self) -> (copy: Self)
        ensures
            copy@ == self@,
    {
        Self(self.0.clone())
    }
}

impl Query {
    /// Builds a query from its words.
    pub fn from_vec(words: Vec<u32>) -> (query: Self)
        ensures
            query@ == words@,
    {
        Self(words)
    }

    /// Returns the words of the query.
    pub fn as_slice(&self) -> (words: &[u32])
        ensures
            words@ == self@,
    {
        self.0.as_slice()
    }

    /// Writes the query in its wire form.
    pub fn serialize(&self) -> (bytes: Result<Vec<u8>, PirError>)
        ensures
            bytes matches Ok(b) && b@ == wire_encoding(self@),
    {
        match serialize_words(&self.0) {
            Ok(bytes) => Ok(bytes),
            Err(_) => Err(PirError::Serde),
        }
    }

    /// Reads a query from its wire form.
    ///
    /// Fails exactly when the bytes are no wire form of a vector of words.
    pub fn deserialize(bytes: &[u8]) -> (query: Result<Self, PirError>)
        ensures
            match query {
                Ok(q) => wire_decoding(bytes@) == Some(q@),
                Err(PirError::Serde) => wire_decoding(bytes@) is None,
                Err(_) => false,
            },
    {
        match deserialize_words(bytes) {
            Ok(words) => Ok(Self(words)),
            Err(_) => Err(PirError::Serde),
        }
    }
}

/// The limb that a word of a response stands for: the word less the
/// right-hand side, divided by the rounding factor and rounded to the nearest
/// multiple, modulo the plaintext size.
pub open spec fn decoded_limb(response: u32, rhs: u32, plaintext_bits: nat) -> u32 {
    let unscaled = sub_mod(response, rhs) as nat;
    let scaled = unscaled / rounding_factor(plaintext_bits);
    let rounded = if unscaled % rounding_factor(plaintext_bits) > rounding_floor(plaintext_bits) {
        scaled + 1
    } else {
        scaled
    };
    (rounded % plaintext_size(plaintext_bits)) as u32
}

/// The limbs that a response stands for under the parameters of its query.
pub open spec fn decoded_row(response: Seq<u32>, params: QueryParamsView) -> Seq<u32> {
    Seq::new(
        params.width(),
        |i: int| decoded_limb(response[i], params.rhs[i], params.plaintext_bits),
    )
}

/// The answer of a shard to a query: one word per limb position.
pub struct Response(Vec<u32>);

impl View for Response {
    type V = Seq<u32>;

    closed spec fn view(&self) -> Seq<u32> {
        self.0@
    }
}

impl Clone for Response {
    fn clone(&self) -> (copy: Self)
        ensures
            copy@ == self@,
    {
        Self(self.0.clone())
    }
}

impl Response {
    /// Builds a response from its words.
    pub fn from_vec(words: Vec<u32>) -> (response: Self)
        ensures
            response@ == words@,
    {
        Self(words)
    }

    /// Returns the words of the response.
    pub fn as_slice(&self) -> (words: &[u32])
        ensures
            words@ == self@,
    {
        self.0.as_slice()
    }

    /// Writes the response in its wire form.
    pub fn serialize(&self) -> (bytes: Result<Vec<u8>, PirError>)
        ensures
            bytes matches Ok(b) && b@ == wire_encoding(self@),
    {
        match serialize_words(&self.0) {
            Ok(bytes) => Ok(bytes),
            Err(_) => Err(PirError::Serde),
        }
    }

    /// Reads a response from its wire form.
    ///
    /// Fails exactly when the bytes are no wire form of a vector of words.
    pub fn deserialize(bytes: &[u8]) -> (response: Result<Self, PirError>)
        ensures
            match response {
                Ok(r) => wire_decoding(bytes@) == Some(r@),
                Err(PirError::Serde) => wire_decoding(bytes@) is None,
                Err(_) => false,
            },
    {
        match deserialize_words(bytes) {
            Ok(words) => Ok(Self(words)),
            Err(_) => Err(PirError::Serde),
        }
    }

    /// Reads the row off the response: every word less the right-hand side of
    /// the parameters, rounded to a limb.
    pub fn parse_output_as_row(&self, qp: &QueryParams) -> (row: Vec<u32>)
        requires
            1 <= qp@.plaintext_bits < 32,
            qp@.width() <= self@.len(),
            qp@.width() <= qp@.rhs.len(),
        ensures
            row@ == decoded_row(self@, qp@),
    {
        let factor: u32 = get_rounding_factor(qp.plaintext_bits);
        let floor: u32 = get_rounding_floor(qp.plaintext_bits);
        let size: u32 = get_plaintext_size(qp.plaintext_bits);
        let width: usize = Database::get_matrix_width(qp.ele_size, qp.plaintext_bits);
        proof {
            lemma_rounding_factor_is_pow2(qp@.plaintext_bits);
            vstd::arithmetic::power2::lemma_pow2_unfold((32 - qp@.plaintext_bits) as nat);
            vstd::arithmetic::power2::lemma_pow2_pos((31 - qp@.plaintext_bits) as nat);
        }
        let mut row: Vec<u32> = Vec::with_capacity(width);
        let mut i: usize = 0;
        while i < width
            invariant
                i <= width,
                width == qp@.width(),
                width <= self@.len(),
                width <= qp@.rhs.len(),
                1 <= qp@.plaintext_bits < 32,
                factor == rounding_factor(qp@.plaintext_bits),
                factor >= 2,
                floor == rounding_floor(qp@.plaintext_bits),
                size == plaintext_size(qp@.plaintext_bits),
                size > 0,
                row.len() == i,
                forall|k: int|
                    0 <= k < i ==> row[k] == decoded_limb(self@[k], qp@.rhs[k], qp@.plaintext_bits),
            decreases width - i,
        {
            proof {
                lemma_wrapping_sub_is_sub_mod(self.0[i as int], qp.rhs[i as int]);
            }
            let unscaled_res: u32 = self.0[i].wrapping_sub(qp.rhs[i]);
            proof {
                vstd::arithmetic::div_mod::lemma_div_is_ordered_by_denominator(
                    unscaled_res as int,
                    2,
                    factor as int,
                );
            }
            let scaled_res: u32 = unscaled_res / factor;
            let scaled_rem: u32 = unscaled_res % factor;
            let mut rounded_res: u32 = scaled_res;
            if scaled_rem > floor {
                rounded_res = rounded_res + 1;
            }
            row.push(rounded_res % size);
            i = i + 1;
        }
        proof {
            assert(row@ =~= decoded_row(self@, qp@));
        }
        row
    }

    /// Reads the row off the response as bytes.
    pub fn parse_output_as_bytes(&self, qp: &QueryParams) -> (bytes: Vec<u8>)
        requires
            1 <= qp@.plaintext_bits < 32,
            qp@.width() <= self@.len(),
            qp@.width() <= qp@.rhs.len(),
        ensures
            bytes@ == packed(
                limb_bits(decoded_row(self@, qp@), qp@.plaintext_bits, qp@.ele_size),
            ),
    {
        let row = self.parse_output_as_row(qp);
        bytes_from_u32_slice(row.as_slice(), qp.plaintext_bits, qp.ele_size)
    }

    /// Reads the row off the response as base64 text.
    pub fn parse_output_as_base64(&self, qp: &QueryParams) -> (text: String)
        requires
            1 <= qp@.plaintext_bits < 32,
            qp@.width() <= self@.len(),
            qp@.width() <= qp@.rhs.len(),
        ensures
            text@ == base64_encoding(
                packed(limb_bits(decoded_row(self@, qp@), qp@.plaintext_bits, qp@.ele_size)),
            ),
    {
        let row = self.parse_output_as_row(qp);
        base64_from_u32_slice(row.as_slice(), qp.plaintext_bits, qp.ele_size)
    }
}

} // verus!
