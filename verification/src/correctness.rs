//! Why a response decodes to the row that was asked for.
//!
//! A query is the masked secret `s·A + e` with the rounding factor added at
//! one row. Multiplied with a column of the database and taken less the
//! secret's product with the right-hand side `A·DB`, what is left is the limb
//! of that row times the rounding factor, plus the noise `e` times the
//! column. Where that noise stays within half a rounding factor, rounding
//! gives the limb back.
use crate::api::{decoded_limb, decoded_row, Prepared, QueryParamsView};
use crate::credentials::api::{answer_of, query_ready, query_words, row_of_answer};
use crate::db::{
    lemma_limbs_hold_record, params_rhs, record_limbs, record_matrix, records_good, text_limbs,
    BaseParamsView, DatabaseView,
};
use crate::trusted::text::base64_decoding;
use crate::utils::format::{limb_bits, packed};
use crate::wire::{lemma_wire_round_trip, wire_decoding, wire_encoding};
use crate::utils::lwe::{
    lemma_rounding_factor_is_pow2, plaintext_size, rounding_factor, rounding_floor,
};
use crate::utils::matrices::{
    add_mod, dot, inner_product, is_ternary, products, second_at, sub_mod, transposed,
};
use vstd::arithmetic::div_mod::{
    lemma_fundamental_div_mod, lemma_fundamental_div_mod_converse, lemma_mod_multiples_basic,
    lemma_small_mod,
};
use vstd::arithmetic::power2::{lemma_pow2_pos, lemma_pow2_unfold, pow2};
use vstd::prelude::*;

verus! {

/// Two integers differ by a multiple of 2^32.
pub open spec fn congruent(x: int, y: int) -> bool {
    (x - y) % 0x1_0000_0000 == 0
}

/// The integer that a ternary word stands for: -1 for 2^32 - 1.
pub open spec fn signed(x: u32) -> int {
    if x == u32::MAX {
        -1
    } else {
        x as int
    }
}

/// The noise times a column: the sum over the first `n` records of the signed
/// noise of a record times the limb of that record.
pub open spec fn noise_dot(noise: Seq<u32>, col: Seq<u32>, n: nat) -> int
    decreases n,
{
    if n == 0 {
        0
    } else {
        noise_dot(noise, col, (n - 1) as nat) + signed(noise[n - 1]) * col[n - 1]
    }
}

/// Entry `j` of the matrix times a column: the sum over the first `n` records
/// of word `j` of the record's vector times the limb of the record.
pub open spec fn column_sum(a: Seq<Seq<u32>>, col: Seq<u32>, j: int, n: nat) -> int
    decreases n,
{
    if n == 0 {
        0
    } else {
        column_sum(a, col, j, (n - 1) as nat) + a[n - 1][j] * col[n - 1]
    }
}

/// The secret times the matrix, times a column: the sum over the first `n`
/// records of the secret's product with the record's vector, times the limb.
pub open spec fn masked_sum(s: Seq<u32>, a: Seq<Seq<u32>>, col: Seq<u32>, dim: nat, n: nat) -> int
    decreases n,
{
    if n == 0 {
        0
    } else {
        masked_sum(s, a, col, dim, (n - 1) as nat) + dot(s, a[n - 1], dim) * col[n - 1]
    }
}

/// The secret times the product of matrix and column: the sum over the first
/// `d` words of the secret of the word times that entry of the product.
pub open spec fn keyed_sum(s: Seq<u32>, a: Seq<Seq<u32>>, col: Seq<u32>, n: nat, d: nat) -> int
    decreases d,
{
    if d == 0 {
        0
    } else {
        keyed_sum(s, a, col, n, (d - 1) as nat) + s[d - 1] * column_sum(a, col, d - 1, n)
    }
}

/// The noise times the column stays within half a rounding factor: above
/// minus a half, and at most a half.
pub open spec fn noise_within_half(noise: Seq<u32>, col: Seq<u32>, plaintext_bits: nat) -> bool {
    -(rounding_floor(plaintext_bits) as int) < noise_dot(noise, col, col.len()) <= rounding_floor(
        plaintext_bits,
    )
}

/// A multiple of a congruence is a congruence.
pub proof fn lemma_congruent_mul(x: int, y: int, c: int)
    requires
        congruent(x, y),
    ensures
        congruent(x * c, y * c),
        congruent(c * x, c * y),
{
    let q = 0x1_0000_0000int;
    let t = (x - y) / q;
    lemma_fundamental_div_mod(x - y, q);
    assert(x - y == q * t);
    assert(x * c - y * c == (t * c) * q) by (nonlinear_arith)
        requires
            x - y == q * t,
    ;
    lemma_mod_multiples_basic(t * c, q);
    assert(c * x == x * c && c * y == y * c) by (nonlinear_arith);
}

/// One more record adds its share to the keyed sum.
proof fn lemma_keyed_sum_step(s: Seq<u32>, a: Seq<Seq<u32>>, col: Seq<u32>, n: nat, d: nat)
    ensures
        keyed_sum(s, a, col, n + 1, d) == keyed_sum(s, a, col, n, d) + dot(s, a[n as int], d)
            * col[n as int],
    decreases d,
{
    if d == 0 {
        assert(0 * col[n as int] == 0) by (nonlinear_arith);
    } else {
        lemma_keyed_sum_step(s, a, col, n, (d - 1) as nat);
        let sj = s[d - 1] as int;
        let before = column_sum(a, col, d - 1, n);
        let entry = a[n as int][d - 1] as int;
        let limb = col[n as int] as int;
        let partial = dot(s, a[n as int], (d - 1) as nat);
        assert(column_sum(a, col, d - 1, n + 1) == before + entry * limb);
        assert(dot(s, a[n as int], d) == partial + sj * entry);
        assert(sj * (before + entry * limb) + partial * limb == sj * before + (partial + sj * entry)
            * limb) by (nonlinear_arith);
    }
}

/// The secret times the matrix, times the column, is the secret times the
/// product of matrix and column: the two orders of summing agree.
pub proof fn lemma_sums_exchange(s: Seq<u32>, a: Seq<Seq<u32>>, col: Seq<u32>, dim: nat, n: nat)
    ensures
        masked_sum(s, a, col, dim, n) == keyed_sum(s, a, col, n, dim),
    decreases n,
{
    if n == 0 {
        lemma_keyed_sum_of_nothing(s, a, col, dim);
    } else {
        lemma_sums_exchange(s, a, col, dim, (n - 1) as nat);
        lemma_keyed_sum_step(s, a, col, (n - 1) as nat, dim);
    }
}

/// With no record the keyed sum is zero.
proof fn lemma_keyed_sum_of_nothing(s: Seq<u32>, a: Seq<Seq<u32>>, col: Seq<u32>, d: nat)
    ensures
        keyed_sum(s, a, col, 0, d) == 0,
    decreases d,
{
    if d > 0 {
        lemma_keyed_sum_of_nothing(s, a, col, (d - 1) as nat);
        assert(s[d - 1] * 0 == 0) by (nonlinear_arith);
    }
}

/// The inner product with entry `j` of every vector is the column sum at `j`.
proof fn lemma_dot_second_at(a: Seq<Seq<u32>>, col: Seq<u32>, j: int, n: nat)
    requires
        n <= a.len(),
    ensures
        dot(second_at(a, j), col, n) == column_sum(a, col, j, n),
    decreases n,
{
    if n > 0 {
        lemma_dot_second_at(a, col, j, (n - 1) as nat);
    }
}

/// The secret's product with the right-hand side is congruent to the keyed sum.
proof fn lemma_rhs_is_keyed_sum(
    s: Seq<u32>,
    a: Seq<Seq<u32>>,
    col: Seq<u32>,
    r: Seq<u32>,
    n: nat,
    d: nat,
)
    requires
        forall|j: int| 0 <= j < d ==> congruent(#[trigger] r[j] as int, column_sum(a, col, j, n)),
    ensures
        congruent(dot(s, r, d), keyed_sum(s, a, col, n, d)),
    decreases d,
{
    if d > 0 {
        lemma_rhs_is_keyed_sum(s, a, col, r, n, (d - 1) as nat);
        lemma_congruent_mul(r[d - 1] as int, column_sum(a, col, d - 1, n), s[d - 1] as int);
    }
}

/// The query's product with a column is congruent to the masked sum plus the
/// noise times the column, plus the rounding factor times the limb of the row
/// that was asked for.
proof fn lemma_response_is_masked_sum(
    s: Seq<u32>,
    a: Seq<Seq<u32>>,
    col: Seq<u32>,
    noise: Seq<u32>,
    lhs: Seq<u32>,
    q: Seq<u32>,
    row: int,
    factor: int,
    n: nat,
)
    requires
        n <= lhs.len(),
        lhs.len() == q.len(),
        0 <= row < lhs.len(),
        forall|k: int|
            0 <= k < n ==> #[trigger] lhs[k] == add_mod(
                inner_product(s, a[k]),
                noise[k],
            ),
        forall|k: int| 0 <= k < n ==> (#[trigger] a[k]).len() == s.len(),
        forall|k: int| 0 <= k < n ==> is_ternary(#[trigger] noise[k]),
        forall|k: int| 0 <= k < q.len() && k != row ==> #[trigger] q[k] == lhs[k],
        q[row] == lhs[row] + factor,
    ensures
        congruent(
            dot(q, col, n),
            masked_sum(s, a, col, s.len(), n) + noise_dot(noise, col, n) + if row < n {
                factor * col[row]
            } else {
                0
            },
        ),
    decreases n,
{
    if n > 0 {
        let k = n - 1;
        lemma_response_is_masked_sum(s, a, col, noise, lhs, q, row, factor, k as nat);
        let exact = dot(s, a[k], s.len());
        let shift = if k == row {
            factor
        } else {
            0
        };
        assert(lhs[k] == add_mod(inner_product(s, a[k]), noise[k]));
        assert(is_ternary(noise[k]));
        assert(congruent(q[k] as int, exact + signed(noise[k]) + shift));
        lemma_congruent_mul(q[k] as int, exact + signed(noise[k]) + shift, col[k] as int);
        assert((exact + signed(noise[k]) + shift) * col[k] == exact * col[k] + signed(noise[k])
            * col[k] + shift * col[k]) by (nonlinear_arith);
        if k != row {
            assert(shift * col[k] == 0) by (nonlinear_arith)
                requires
                    shift == 0,
            ;
        }
    }
}

/// Rounding gives a limb back: a word that is congruent to the rounding
/// factor times a limb plus a noise within half a rounding factor decodes to
/// that limb.
pub proof fn lemma_rounding_recovers_limb(
    response: u32,
    rhs: u32,
    limb: int,
    noise: int,
    plaintext_bits: nat,
)
    requires
        1 <= plaintext_bits < 32,
        0 <= limb < plaintext_size(plaintext_bits),
        -(rounding_floor(plaintext_bits) as int) < noise <= rounding_floor(plaintext_bits),
        congruent(response - rhs, rounding_factor(plaintext_bits) * limb + noise),
    ensures
        decoded_limb(response, rhs, plaintext_bits) == limb,
{
    let q = 0x1_0000_0000int;
    let factor = rounding_factor(plaintext_bits) as int;
    let size = plaintext_size(plaintext_bits) as int;
    let half = rounding_floor(plaintext_bits) as int;
    lemma_rounding_factor_is_pow2(plaintext_bits);
    lemma_pow2_unfold((32 - plaintext_bits) as nat);
    lemma_pow2_pos((31 - plaintext_bits) as nat);
    lemma_pow2_pos(plaintext_bits);
    assert(factor == 2 * half);
    assert(factor * size == q);
    let unscaled = sub_mod(response, rhs) as int;
    assert(congruent(unscaled, factor * limb + noise));
    assert(0 <= factor * limb <= q - factor) by (nonlinear_arith)
        requires
            0 <= limb <= size - 1,
            factor * size == q,
            factor > 0,
    ;
    if noise >= 0 {
        assert(unscaled == factor * limb + noise);
        assert(limb * factor == factor * limb) by (nonlinear_arith);
        lemma_fundamental_div_mod_converse(unscaled, factor, limb, noise);
        lemma_small_mod(limb as nat, size as nat);
    } else if limb >= 1 {
        assert(factor * limb >= factor) by (nonlinear_arith)
            requires
                limb >= 1,
                factor > 0,
        ;
        assert(unscaled == factor * limb + noise);
        assert(factor * limb + noise == factor * (limb - 1) + (factor + noise))
            by (nonlinear_arith);
        assert((limb - 1) * factor == factor * (limb - 1)) by (nonlinear_arith);
        lemma_fundamental_div_mod_converse(unscaled, factor, limb - 1, factor + noise);
        lemma_small_mod(limb as nat, size as nat);
    } else {
        assert(factor * limb == 0) by (nonlinear_arith)
            requires
                limb == 0,
        ;
        assert(unscaled == q + noise);
        assert(q + noise == factor * (size - 1) + (factor + noise)) by (nonlinear_arith)
            requires
                factor * size == q,
        ;
        assert((size - 1) * factor == factor * (size - 1)) by (nonlinear_arith);
        lemma_fundamental_div_mod_converse(unscaled, factor, size - 1, factor + noise);
        vstd::arithmetic::div_mod::lemma_mod_self_0(size);
    }
}

/// A response decodes to the row that was asked for.
///
/// Let the parameters of a query be made from a secret and a ternary noise
/// for the public parameters of a well-formed database, and let the query for
/// `row` be built from them. Where, for every column, the noise times the
/// column stays within half a rounding factor, the response of the database
/// to that query decodes to the limbs of record `row`.
pub proof fn lemma_response_decodes_to_row(
    db: DatabaseView,
    bp: BaseParamsView,
    s: Seq<u32>,
    noise: Seq<u32>,
    params: QueryParamsView,
    row: int,
    query: Seq<u32>,
)
    requires
        db.wf(),
        1 <= db.plaintext_bits < 32,
        bp.derived_from(db),
        s.len() == bp.dim,
        noise.len() == db.m,
        forall|k: int| 0 <= k < noise.len() ==> is_ternary(#[trigger] noise[k]),
        params.made_from(bp.lhs(), bp, s, noise),
        0 <= row < db.m,
        params.prepared(row) == Prepared::Query(query),
        forall|i: int|
            0 <= i < db.columns.len() ==> noise_within_half(
                noise,
                #[trigger] db.columns[i],
                db.plaintext_bits,
            ),
    ensures
        decoded_row(products(query, db.columns), params) == db.record(row),
{
    let a = bp.lhs();
    let factor = rounding_factor(db.plaintext_bits) as int;
    let response = products(query, db.columns);
    let decoded = decoded_row(response, params);
    assert(params.width() == db.width());
    assert(a.len() == db.m);
    assert forall|i: int| 0 <= i < db.width() implies decoded[i] == db.record(row)[i] by {
        let col = db.columns[i];
        assert(col.len() == db.m);
        assert(noise_within_half(noise, db.columns[i], db.plaintext_bits));
        assert forall|k: int| 0 <= k < db.m implies #[trigger] params.lhs[k] == add_mod(
            inner_product(s, a[k]),
            noise[k],
        ) by {}
        lemma_response_is_masked_sum(s, a, col, noise, params.lhs, query, row, factor, db.m);
        assert(response[i] == inner_product(query, col));
        assert(query.len() == db.m);
        // the right-hand side
        let r = bp.rhs[i];
        assert(r == params_rhs(db.columns, bp.public_seed, bp.dim, bp.m)[i]);
        assert forall|j: int| 0 <= j < bp.dim implies congruent(
            #[trigger] r[j] as int,
            column_sum(a, col, j, db.m),
        ) by {
            lemma_dot_second_at(a, col, j, db.m);
            assert(r[j] == inner_product(second_at(a, j), col));
            assert(second_at(a, j).len() == db.m);
        }
        lemma_rhs_is_keyed_sum(s, a, col, r, db.m, bp.dim);
        assert(params.rhs[i] == inner_product(s, r));
        lemma_sums_exchange(s, a, col, bp.dim, db.m);
        let n = noise_dot(noise, col, db.m);
        assert(congruent(response[i] - params.rhs[i], factor * col[row] + n));
        assert(col[row] < pow2(db.plaintext_bits));
        lemma_rounding_recovers_limb(
            response[i],
            params.rhs[i],
            col[row] as int,
            n,
            db.plaintext_bits,
        );
    }
    assert(decoded =~= db.record(row));
}

/// A record comes back from a query for its row.
///
/// Let a database hold the records `elements`, let record `row` be the base64
/// text of exactly `elem_size` bits, and let a query for `row` be built from
/// parameters made for the public parameters of the database. Where the
/// noise stays within half a rounding factor on every column, the response
/// in wire form is read back, decodes to the limbs of the record and, written
/// as bytes, gives the bytes of the record.
pub proof fn lemma_record_comes_back(
    elements: Seq<String>,
    db: DatabaseView,
    bp: BaseParamsView,
    s: Seq<u32>,
    noise: Seq<u32>,
    params: QueryParamsView,
    row: int,
    query: Seq<u32>,
    bytes: Seq<u8>,
)
    requires
        db.wf(),
        1 <= db.plaintext_bits < 32,
        db.m <= elements.len(),
        records_good(elements, db.m, db.width(), db.plaintext_bits),
        db.columns == transposed(record_matrix(elements, db.m, db.width(), db.plaintext_bits)),
        bp.derived_from(db),
        s.len() == bp.dim,
        noise.len() == db.m,
        forall|k: int| 0 <= k < noise.len() ==> is_ternary(#[trigger] noise[k]),
        params.made_from(bp.lhs(), bp, s, noise),
        0 <= row < db.m,
        base64_decoding(elements[row]@) == Some(bytes),
        8 * bytes.len() == db.elem_size,
        1 <= db.elem_size <= usize::MAX,
        params.prepared(row) == Prepared::Query(query),
        forall|i: int|
            0 <= i < db.columns.len() ==> noise_within_half(
                noise,
                #[trigger] db.columns[i],
                db.plaintext_bits,
            ),
    ensures
        wire_decoding(wire_encoding(products(query, db.columns))) == Some(
            products(query, db.columns),
        ),
        decoded_row(products(query, db.columns), params) == record_limbs(
            bytes,
            db.width(),
            db.plaintext_bits,
        ),
        packed(
            limb_bits(
                decoded_row(products(query, db.columns), params),
                params.plaintext_bits,
                params.ele_size,
            ),
        ) == bytes,
{
    lemma_response_decodes_to_row(db, bp, s, noise, params, row, query);
    lemma_limbs_hold_record(bytes, db.elem_size, db.plaintext_bits);
    let matrix = record_matrix(elements, db.m, db.width(), db.plaintext_bits);
    assert(text_limbs(elements[row]@, db.width(), db.plaintext_bits) is Some);
    assert(matrix[row] == record_limbs(bytes, db.width(), db.plaintext_bits));
    assert(db.record(row) =~= matrix[row]) by {
        assert(matrix.len() == db.m);
        assert(matrix[0].len() == db.width()) by {
            assert(text_limbs(elements[0]@, db.width(), db.plaintext_bits) is Some);
        }
        assert forall|j: int| 0 <= j < db.width() implies db.record(row)[j] == matrix[row][j] by {
            assert(db.columns[j][row] == matrix[row][j]);
        }
    }
    lemma_wire_round_trip(products(query, db.columns));
}

/// An honest answer reads as the record.
///
/// Under the conditions of `lemma_record_comes_back`, the query in wire form
/// has an answer, and that answer is read with the used parameters as the
/// bytes of the record. So a client that asks for the row of its credential
/// is handed exactly what the database holds there.
pub proof fn lemma_honest_answer_reads_as_record(
    elements: Seq<String>,
    db: DatabaseView,
    bp: BaseParamsView,
    s: Seq<u32>,
    noise: Seq<u32>,
    params: QueryParamsView,
    row: usize,
    bytes: Seq<u8>,
)
    requires
        db.wf(),
        1 <= db.plaintext_bits < 32,
        db.m <= elements.len(),
        db.m <= usize::MAX,
        records_good(elements, db.m, db.width(), db.plaintext_bits),
        db.columns == transposed(record_matrix(elements, db.m, db.width(), db.plaintext_bits)),
        bp.derived_from(db),
        s.len() == bp.dim,
        noise.len() == db.m,
        forall|k: int| 0 <= k < noise.len() ==> is_ternary(#[trigger] noise[k]),
        params.made_from(bp.lhs(), bp, s, noise),
        row < db.m,
        base64_decoding(elements[row as int]@) == Some(bytes),
        8 * bytes.len() == db.elem_size,
        1 <= db.elem_size <= usize::MAX,
        query_ready(params, row),
        forall|i: int|
            0 <= i < db.columns.len() ==> noise_within_half(
                noise,
                #[trigger] db.columns[i],
                db.plaintext_bits,
            ),
    ensures
        answer_of(db, wire_encoding(query_words(params, row))) is Some,
        row_of_answer(
            answer_of(db, wire_encoding(query_words(params, row))).unwrap(),
            params.spent(),
        ) == Some(bytes),
{
    let query = query_words(params, row);
    assert(params.lhs.len() == db.m);
    lemma_record_comes_back(elements, db, bp, s, noise, params, row as int, query, bytes);
    lemma_wire_round_trip(query);
    let response = products(query, db.columns);
    assert(response.len() == db.width());
    assert(decoded_row(response, params.spent()) =~= decoded_row(response, params));
}

/// The size of the noise times a column is at most the number of records
/// times the largest limb.
pub proof fn lemma_noise_dot_bound(noise: Seq<u32>, col: Seq<u32>, bound: int, n: nat)
    requires
        n <= col.len(),
        n <= noise.len(),
        forall|k: int| 0 <= k < n ==> is_ternary(#[trigger] noise[k]),
        forall|k: int| 0 <= k < n ==> (#[trigger] col[k]) <= bound,
    ensures
        -(n * bound) <= noise_dot(noise, col, n) <= n * bound,
    decreases n,
{
    if n == 0 {
        assert(0 * bound == 0) by (nonlinear_arith);
    } else {
        lemma_noise_dot_bound(noise, col, bound, (n - 1) as nat);
        assert(is_ternary(noise[n - 1]));
        let e = signed(noise[n - 1]);
        let c = col[n - 1] as int;
        assert(-c <= e * c <= c) by (nonlinear_arith)
            requires
                -1 <= e <= 1,
                c >= 0,
        ;
        assert(n * bound == (n - 1) * bound + bound) by (nonlinear_arith);
    }
}

/// In a database that is small for its limbs no noise can spoil a response:
/// where the number of records times the plaintext size is at most half a
/// rounding factor, every ternary noise stays within half a rounding factor
/// on every column.
pub proof fn lemma_small_database_bounds_noise(db: DatabaseView, noise: Seq<u32>, i: int)
    requires
        db.wf(),
        1 <= db.plaintext_bits < 32,
        db.m * plaintext_size(db.plaintext_bits) <= rounding_floor(db.plaintext_bits),
        noise.len() == db.m,
        forall|k: int| 0 <= k < noise.len() ==> is_ternary(#[trigger] noise[k]),
        0 <= i < db.columns.len(),
    ensures
        noise_within_half(noise, db.columns[i], db.plaintext_bits),
{
    let col = db.columns[i];
    let size = plaintext_size(db.plaintext_bits) as int;
    assert(col.len() == db.m);
    assert forall|k: int| 0 <= k < db.m implies (#[trigger] col[k]) <= size - 1 by {
        assert(db.columns[i][k] < pow2(db.plaintext_bits));
    }
    lemma_noise_dot_bound(noise, col, size - 1, db.m);
    assert(db.m * (size - 1) < db.m * size) by (nonlinear_arith)
        requires
            db.m >= 1,
    ;
}

/// In a small database every record comes back, whatever the noise.
///
/// Where the number of records times the plaintext size is at most half a
/// rounding factor, as with 64 records in limbs of 10 bits, the conditions of
/// `lemma_record_comes_back` need no bound on the noise: every query that
/// can be built for a row is answered with the record of that row.
pub proof fn lemma_small_database_returns_records(
    elements: Seq<String>,
    db: DatabaseView,
    bp: BaseParamsView,
    s: Seq<u32>,
    noise: Seq<u32>,
    params: QueryParamsView,
    row: int,
    query: Seq<u32>,
    bytes: Seq<u8>,
)
    requires
        db.wf(),
        1 <= db.plaintext_bits < 32,
        db.m * plaintext_size(db.plaintext_bits) <= rounding_floor(db.plaintext_bits),
        db.m <= elements.len(),
        records_good(elements, db.m, db.width(), db.plaintext_bits),
        db.columns == transposed(record_matrix(elements, db.m, db.width(), db.plaintext_bits)),
        bp.derived_from(db),
        s.len() == bp.dim,
        noise.len() == db.m,
        forall|k: int| 0 <= k < noise.len() ==> is_ternary(#[trigger] noise[k]),
        params.made_from(bp.lhs(), bp, s, noise),
        0 <= row < db.m,
        base64_decoding(elements[row]@) == Some(bytes),
        8 * bytes.len() == db.elem_size,
        1 <= db.elem_size <= usize::MAX,
        params.prepared(row) == Prepared::Query(query),
    ensures
        packed(
            limb_bits(
                decoded_row(products(query, db.columns), params),
                params.plaintext_bits,
                params.ele_size,
            ),
        ) == bytes,
{
    assert forall|i: int| 0 <= i < db.columns.len() implies noise_within_half(
        noise,
        #[trigger] db.columns[i],
        db.plaintext_bits,
    ) by {
        lemma_small_database_bounds_noise(db, noise, i);
    }
    lemma_record_comes_back(elements, db, bp, s, noise, params, row, query, bytes);
}

/// Databases of up to 2048 records in limbs of 10 bits are small in the sense
/// of `lemma_small_database_returns_records`, and so are databases of up to
/// 128 records in limbs of 12 bits.
pub proof fn lemma_small_databases(m: nat)
    ensures
        m <= 2048 ==> m * plaintext_size(10) <= rounding_floor(10),
        m <= 128 ==> m * plaintext_size(12) <= rounding_floor(12),
{
    vstd::arithmetic::power2::lemma2_to64();
    lemma_rounding_factor_is_pow2(10);
    lemma_rounding_factor_is_pow2(12);
    assert(plaintext_size(10) == 1024 && plaintext_size(12) == 4096);
    assert(rounding_floor(10) == 0x20_0000 && rounding_floor(12) == 0x8_0000);
}

} // verus!
