//! The database matrix and the public parameters derived from it.
//!
//! A database of `m` records is a matrix of limbs with one row per record. It
//! is kept by columns, so that a query vector of `m` words is multiplied with
//! one stored vector per limb position.
use crate::errors::PirError;
use crate::trusted::random::generate_seed;
use crate::trusted::text::{base64_decode, base64_decoding, base64_encoding};
use crate::utils::format::{
    base64_from_u32_slice, bits_to_u32_le, bytes_to_bits_le, full_limb_bits, last_limb_bits,
    le_value, lemma_le_value_bound, lemma_low_bits_of_le_value, lemma_packed_unpacked, limb_bits,
    packed, unpacked,
};
use crate::utils::matrices::{
    add_mod, clone_matrix, expanded, get_lwe_matrix_from_seed, get_matrix_second_at,
    inner_product, is_ternary, lemma_wrapping_add_is_add_mod, noisy_products, products,
    random_ternary_vector, rectangular, rows, second_at, swap_matrix_fmt, transposed,
    vec_mult_u32_u32,
};
use vstd::arithmetic::div_mod::lemma_fundamental_div_mod;
use vstd::arithmetic::power2::{lemma_pow2_strictly_increases, pow2};
use vstd::prelude::*;
use vstd::slice::slice_subrange;
use vstd::std_specs::convert::FromSpecImpl;

verus! {

/// The number of limbs of `plaintext_bits` bits that hold `element_size` bits.
pub open spec fn matrix_width(element_size: nat, plaintext_bits: nat) -> nat {
    element_size / plaintext_bits + if element_size % plaintext_bits != 0 {
        1nat
    } else {
        0nat
    }
}

/// The bits that limb `j` of a record is read from: `plaintext_bits` of them
/// from position `j * plaintext_bits` on, or what is left of the record.
pub open spec fn limb_chunk(bits: Seq<bool>, plaintext_bits: nat, j: int) -> Seq<bool> {
    bits.subrange(
        j * plaintext_bits,
        if (j + 1) * plaintext_bits < bits.len() {
            (j + 1) * plaintext_bits
        } else {
            bits.len() as int
        },
    )
}

/// Limb `j` starts within the record's bits and reads no more than 32 of them.
pub open spec fn limb_fits(bytes: Seq<u8>, plaintext_bits: nat, j: int) -> bool {
    &&& j * plaintext_bits <= 8 * bytes.len()
    &&& limb_chunk(unpacked(bytes), plaintext_bits, j).len() <= 32
}

/// The bytes of a record fill `width` limbs, and their bits can be counted.
pub open spec fn bytes_fill_limbs(bytes: Seq<u8>, width: nat, plaintext_bits: nat) -> bool {
    &&& 8 * bytes.len() <= usize::MAX
    &&& forall|j: int| 0 <= j < width ==> #[trigger] limb_fits(bytes, plaintext_bits, j)
}

/// The limbs of a record.
pub open spec fn record_limbs(bytes: Seq<u8>, width: nat, plaintext_bits: nat) -> Seq<u32> {
    Seq::new(width, |j: int| le_value(limb_chunk(unpacked(bytes), plaintext_bits, j)) as u32)
}

/// The limbs of a record given as base64 text, or nothing where the text is
/// refused or its bytes do not fill the limbs.
pub open spec fn text_limbs(text: Seq<char>, width: nat, plaintext_bits: nat) -> Option<Seq<u32>> {
    match base64_decoding(text) {
        Some(bytes) => if bytes_fill_limbs(bytes, width, plaintext_bits) {
            Some(record_limbs(bytes, width, plaintext_bits))
        } else {
            None
        },
        None => None,
    }
}

/// The first `n` records all have limbs.
pub open spec fn records_good(
    elements: Seq<String>,
    n: nat,
    width: nat,
    plaintext_bits: nat,
) -> bool {
    forall|i: int| 0 <= i < n ==> (#[trigger] text_limbs(elements[i]@, width, plaintext_bits)) is Some
}

/// The matrix of the first `m` records, one row of limbs per record.
pub open spec fn record_matrix(
    elements: Seq<String>,
    m: nat,
    width: nat,
    plaintext_bits: nat,
) -> Seq<Seq<u32>> {
    Seq::new(m, |i: int| text_limbs(elements[i]@, width, plaintext_bits).unwrap())
}

/// The product of a matrix with the columns of a database. The matrix is
/// given as one vector of `dim` words per record. The product has one vector
/// per column, whose entry `k` is the inner product of the column with word
/// `k` of every record's vector.
pub open spec fn matrix_times_columns(
    matrix: Seq<Seq<u32>>,
    columns: Seq<Seq<u32>>,
    dim: nat,
) -> Seq<Seq<u32>> {
    Seq::new(
        columns.len(),
        |i: int| Seq::new(dim, |k: int| inner_product(second_at(matrix, k), columns[i])),
    )
}

/// The right-hand side of the public parameters: the product of the matrix
/// expanded from the seed with the database.
pub open spec fn params_rhs(columns: Seq<Seq<u32>>, seed: Seq<u8>, dim: nat, m: nat) -> Seq<
    Seq<u32>,
> {
    matrix_times_columns(expanded(seed, dim, m), columns, dim)
}

/// The bits of the first `n` limbs of a record are the first bits of the record.
proof fn lemma_full_limbs_are_prefix(bytes: Seq<u8>, width: nat, plaintext_bits: nat, n: nat)
    requires
        1 <= plaintext_bits <= 32,
        n < width,
        (width - 1) * plaintext_bits < 8 * bytes.len(),
    ensures
        n * plaintext_bits <= 8 * bytes.len(),
        full_limb_bits(record_limbs(bytes, width, plaintext_bits), plaintext_bits, n) == unpacked(
            bytes,
        ).subrange(0, (n * plaintext_bits) as int),
    decreases n,
{
    let bits = unpacked(bytes);
    let limbs = record_limbs(bytes, width, plaintext_bits);
    assert(n * plaintext_bits <= (width - 1) * plaintext_bits) by (nonlinear_arith)
        requires
            n <= width - 1,
            plaintext_bits >= 0,
    ;
    if n == 0 {
        assert(0 * plaintext_bits == 0) by (nonlinear_arith);
        assert(full_limb_bits(limbs, plaintext_bits, 0) =~= bits.subrange(0, 0));
    } else {
        let j = n - 1;
        lemma_full_limbs_are_prefix(bytes, width, plaintext_bits, j as nat);
        assert((j + 1) * plaintext_bits == j * plaintext_bits + plaintext_bits)
            by (nonlinear_arith);
        let chunk = limb_chunk(bits, plaintext_bits, j);
        assert(chunk.len() == plaintext_bits);
        lemma_low_bits_of_le_value(chunk);
        assert(limbs[j] == le_value(chunk) as u32);
        assert(full_limb_bits(limbs, plaintext_bits, n) =~= bits.subrange(
            0,
            (n * plaintext_bits) as int,
        ));
    }
}

/// A record of exactly `elem_size` bits is held by its limbs without loss: it
/// fills the limbs, and the limbs give back its bits and its bytes.
pub proof fn lemma_limbs_hold_record(bytes: Seq<u8>, elem_size: nat, plaintext_bits: nat)
    requires
        1 <= plaintext_bits <= 32,
        elem_size == 8 * bytes.len(),
        1 <= elem_size <= usize::MAX,
    ensures
        bytes_fill_limbs(bytes, matrix_width(elem_size, plaintext_bits), plaintext_bits),
        limb_bits(
            record_limbs(bytes, matrix_width(elem_size, plaintext_bits), plaintext_bits),
            plaintext_bits,
            elem_size,
        ) == unpacked(bytes),
        packed(
            limb_bits(
                record_limbs(bytes, matrix_width(elem_size, plaintext_bits), plaintext_bits),
                plaintext_bits,
                elem_size,
            ),
        ) == bytes,
{
    let width = matrix_width(elem_size, plaintext_bits);
    let bits = unpacked(bytes);
    let limbs = record_limbs(bytes, width, plaintext_bits);
    let q = elem_size / plaintext_bits;
    let r = elem_size % plaintext_bits;
    lemma_fundamental_div_mod(elem_size as int, plaintext_bits as int);
    assert(q * plaintext_bits == plaintext_bits * q) by (nonlinear_arith);
    assert((q - 1) * plaintext_bits == q * plaintext_bits - plaintext_bits) by (nonlinear_arith);
    if r == 0 {
        assert(q >= 1) by (nonlinear_arith)
            requires
                elem_size == plaintext_bits * q,
                elem_size >= 1,
                plaintext_bits >= 1,
                q >= 0,
        ;
    }
    assert(width >= 1);
    assert((width - 1) * plaintext_bits < elem_size);
    assert(elem_size - (width - 1) * plaintext_bits == last_limb_bits(plaintext_bits, elem_size));
    assert forall|j: int| 0 <= j < width implies #[trigger] limb_fits(bytes, plaintext_bits, j) by {
        assert(j * plaintext_bits <= (width - 1) * plaintext_bits) by (nonlinear_arith)
            requires
                0 <= j <= width - 1,
                plaintext_bits >= 0,
        ;
        assert((j + 1) * plaintext_bits == j * plaintext_bits + plaintext_bits)
            by (nonlinear_arith);
    }
    lemma_full_limbs_are_prefix(bytes, width, plaintext_bits, (width - 1) as nat);
    let last = limb_chunk(bits, plaintext_bits, width - 1);
    assert((width - 1 + 1) * plaintext_bits == (width - 1) * plaintext_bits + plaintext_bits)
        by (nonlinear_arith);
    assert(last =~= bits.subrange((width - 1) * plaintext_bits, elem_size as int));
    lemma_low_bits_of_le_value(last);
    assert(limbs.last() == le_value(last) as u32);
    assert(limb_bits(limbs, plaintext_bits, elem_size) =~= bits);
    lemma_packed_unpacked(bytes);
}

/// What a database holds.
pub struct DatabaseView {
    /// The limbs, one vector per limb position.
    pub columns: Seq<Seq<u32>>,
    /// The number of records.
    pub m: nat,
    /// The number of bits of a record.
    pub elem_size: nat,
    /// The number of bits of a limb.
    pub plaintext_bits: nat,
}

impl DatabaseView {
    /// The number of limbs of a record.
    pub open spec fn width(self) -> nat {
        matrix_width(self.elem_size, self.plaintext_bits)
    }

    /// The limbs of record `i`.
    pub open spec fn record(self, i: int) -> Seq<u32> {
        second_at(self.columns, i)
    }

    /// The bytes of record `i`.
    pub open spec fn record_bytes(self, i: int) -> Seq<u8> {
        packed(limb_bits(self.record(i), self.plaintext_bits, self.elem_size))
    }

    /// The matrix has one column per limb position and one entry per record in
    /// each, and every limb is below `2^plaintext_bits`.
    pub open spec fn wf(self) -> bool {
        &&& self.plaintext_bits >= 1
        &&& self.m >= 1
        &&& self.columns.len() == self.width()
        &&& rectangular(self.columns, self.m)
        &&& forall|j: int, i: int|
            0 <= j < self.columns.len() && 0 <= i < self.m ==> (#[trigger] self.columns[j][i]) < pow2(
                self.plaintext_bits,
            )
    }
}

/// A database of records, held as a matrix of limbs by columns.
#[derive(Debug)]
pub struct Database {
    entries: Vec<Vec<u32>>,
    m: usize,
    elem_size: usize,
    plaintext_bits: usize,
}

impl View for Database {
    type V = DatabaseView;

    closed spec fn view(&self) -> DatabaseView {
        DatabaseView {
            columns: rows(self.entries@),
            m: self.m as nat,
            elem_size: self.elem_size as nat,
            plaintext_bits: self.plaintext_bits as nat,
        }
    }
}

impl Clone for Database {
    fn clone(&self) -> (copy: Self)
        ensures
            copy@ == self@,
    {
        Self {
            entries: clone_matrix(&self.entries),
            m: self.m,
            elem_size: self.elem_size,
            plaintext_bits: self.plaintext_bits,
        }
    }
}

/// The width of a matrix times the limb size stays below the record size plus one limb.
pub proof fn lemma_matrix_width_bound(element_size: nat, plaintext_bits: nat)
    requires
        plaintext_bits > 0,
    ensures
        matrix_width(element_size, plaintext_bits) * plaintext_bits < element_size + plaintext_bits,
        matrix_width(element_size, plaintext_bits) <= element_size,
{
    let q = element_size / plaintext_bits;
    let r = element_size % plaintext_bits;
    lemma_fundamental_div_mod(element_size as int, plaintext_bits as int);
    assert(element_size == plaintext_bits * q + r);
    assert((q + 1) * plaintext_bits == plaintext_bits * q + plaintext_bits) by (nonlinear_arith);
    assert(q * plaintext_bits == plaintext_bits * q) by (nonlinear_arith);
    assert(q <= plaintext_bits * q) by (nonlinear_arith)
        requires
            plaintext_bits >= 1,
            q >= 0,
    ;
}

impl Database {
    /// Reads the first `m` records, each a base64 text, into a matrix of limbs
    /// of `plaintext_bits` bits.
    ///
    /// Fails at the first record that is no base64 text or whose bits do not
    /// fill the limbs.
    pub fn new(elements: &[String], m: usize, elem_size: usize, plaintext_bits: usize) -> (db:
        Result<Self, PirError>)
        requires
            plaintext_bits >= 1,
            1 <= m <= elements.len(),
            elem_size + plaintext_bits <= usize::MAX,
        ensures
            match db {
                Ok(db) => {
                    &&& records_good(
                        elements@,
                        m as nat,
                        matrix_width(elem_size as nat, plaintext_bits as nat),
                        plaintext_bits as nat,
                    )
                    &&& db@.columns == transposed(
                        record_matrix(
                            elements@,
                            m as nat,
                            matrix_width(elem_size as nat, plaintext_bits as nat),
                            plaintext_bits as nat,
                        ),
                    )
                    &&& db@.m == m
                    &&& db@.elem_size == elem_size
                    &&& db@.plaintext_bits == plaintext_bits
                    &&& db@.wf()
                },
                Err(PirError::BadRecord { index }) => {
                    &&& index < m
                    &&& records_good(
                        elements@,
                        index as nat,
                        matrix_width(elem_size as nat, plaintext_bits as nat),
                        plaintext_bits as nat,
                    )
                    &&& text_limbs(
                        elements[index as int]@,
                        matrix_width(elem_size as nat, plaintext_bits as nat),
                        plaintext_bits as nat,
                    ) is None
                },
                Err(_) => false,
            },
    {
        let row_major = construct_rows(elements, m, elem_size, plaintext_bits)?;
        let entries = swap_matrix_fmt(row_major.as_slice());
        let db = Self { entries, m, elem_size, plaintext_bits };
        proof {
            let width = matrix_width(elem_size as nat, plaintext_bits as nat);
            let matrix = record_matrix(elements@, m as nat, width, plaintext_bits as nat);
            assert(rows(row_major@) =~= matrix);
            assert(db@.columns == transposed(matrix));
            assert forall|j: int, i: int|
                0 <= j < db@.columns.len() && 0 <= i < db@.m implies (#[trigger] db@.columns[j][i])
                < pow2(plaintext_bits as nat) by {
                let bytes = base64_decoding(elements[i]@).unwrap();
                assert(text_limbs(elements[i]@, width, plaintext_bits as nat) is Some);
                let chunk = limb_chunk(unpacked(bytes), plaintext_bits as nat, j);
                assert(limb_fits(bytes, plaintext_bits as nat, j));
                assert(db@.columns[j][i] == matrix[i][j]);
                assert(matrix[i][j] == le_value(chunk) as u32);
                lemma_le_value_bound(chunk);
                assert(chunk.len() <= 32);
                vstd::arithmetic::power2::lemma2_to64();
                if chunk.len() < 32 {
                    lemma_pow2_strictly_increases(chunk.len(), 32);
                }
                assert((j + 1) * plaintext_bits - j * plaintext_bits == plaintext_bits)
                    by (nonlinear_arith);
                if chunk.len() < plaintext_bits {
                    lemma_pow2_strictly_increases(chunk.len(), plaintext_bits as nat);
                }
            }
        }
        Ok(db)
    }

    /// Builds a database from its parts as they are.
    pub fn from_parts(entries: Vec<Vec<u32>>, m: usize, elem_size: usize, plaintext_bits: usize) -> (db:
        Self)
        ensures
            db@ == (DatabaseView {
                columns: rows(entries@),
                m: m as nat,
                elem_size: elem_size as nat,
                plaintext_bits: plaintext_bits as nat,
            }),
    {
        Self { entries, m, elem_size, plaintext_bits }
    }

    /// Tells whether the database is well formed: whether it has a column for
    /// every limb position, an entry for every record in each, and no limb
    /// that needs more than `plaintext_bits` bits.
    pub fn is_well_formed(&self) -> (well_formed: bool)
        ensures
            well_formed == self@.wf(),
    {
        if self.plaintext_bits < 1 || self.m < 1 {
            return false;
        }
        let width: usize = self.get_matrix_width_self();
        if self.entries.len() != width {
            return false;
        }
        proof {
            vstd::arithmetic::power2::lemma2_to64();
            if self.plaintext_bits >= 32 {
                if self.plaintext_bits > 32 {
                    lemma_pow2_strictly_increases(32, self.plaintext_bits as nat);
                }
            } else {
                vstd::bits::lemma_u32_pow2_no_overflow(self.plaintext_bits as nat);
            }
        }
        let mut j: usize = 0;
        while j < width
            invariant
                j <= width,
                width == self.entries.len(),
                self.plaintext_bits >= 1,
                self.plaintext_bits >= 32 ==> pow2(self.plaintext_bits as nat) > u32::MAX,
                forall|c: int| 0 <= c < j ==> (#[trigger] self@.columns[c]).len() == self@.m,
                forall|c: int, i: int|
                    0 <= c < j && 0 <= i < self@.m ==> (#[trigger] self@.columns[c][i]) < pow2(
                        self@.plaintext_bits,
                    ),
            decreases width - j,
        {
            let column = &self.entries[j];
            proof {
                assert(self@.columns[j as int] == column@);
            }
            if column.len() != self.m {
                return false;
            }
            if self.plaintext_bits < 32 {
                let size: u32 = crate::utils::lwe::get_plaintext_size(self.plaintext_bits);
                let mut i: usize = 0;
                while i < column.len()
                    invariant
                        i <= column.len(),
                        j < width,
                        width == self.entries.len(),
                        column@ == self@.columns[j as int],
                        column.len() == self.m,
                        size == pow2(self.plaintext_bits as nat),
                        forall|k: int| 0 <= k < i ==> column[k] < size,
                    decreases column.len() - i,
                {
                    if column[i] >= size {
                        proof {
                            assert(!(self@.columns[j as int][i as int] < pow2(
                                self@.plaintext_bits,
                            )));
                        }
                        return false;
                    }
                    i = i + 1;
                }
            }
            j = j + 1;
        }
        true
    }

    /// The stored vectors.
    pub fn get_entries(&self) -> (entries: &[Vec<u32>])
        ensures
            rows(entries@) == self@.columns,
    {
        self.entries.as_slice()
    }

    /// Exchanges rows and columns of the stored matrix.
    pub fn switch_fmt(&mut self)
        requires
            old(self)@.columns.len() > 0,
            rectangular(old(self)@.columns, old(self)@.columns[0].len()),
        ensures
            final(self)@ == (DatabaseView {
                columns: transposed(old(self)@.columns),
                ..old(self)@
            }),
    {
        self.entries = swap_matrix_fmt(self.entries.as_slice());
    }

    /// Multiplies a vector with stored vector `col_idx`, modulo 2^32.
    pub fn vec_mult(&self, row: &[u32], col_idx: usize) -> (product: u32)
        requires
            col_idx < self@.columns.len(),
            row.len() == self@.columns[col_idx as int].len(),
        ensures
            product == inner_product(row@, self@.columns[col_idx as int]),
    {
        match vec_mult_u32_u32(row, self.entries[col_idx].as_slice()) {
            Ok(product) => product,
            Err(_) => {
                // The lengths agree, so the product exists.
                assert(false);
                0
            },
        }
    }

    /// Returns stored vector `i`: the limbs at position `i` of every record.
    pub fn get_row(&self, i: usize) -> (row: Vec<u32>)
        requires
            i < self@.columns.len(),
        ensures
            row@ == self@.columns[i as int],
    {
        self.entries[i].clone()
    }

    /// Returns record `i` as base64 text.
    pub fn get_db_entry(&self, i: usize) -> (text: String)
        requires
            self@.plaintext_bits >= 1,
            forall|j: int| 0 <= j < self@.columns.len() ==> i < (#[trigger] self@.columns[j]).len(),
        ensures
            text@ == base64_encoding(self@.record_bytes(i as int)),
            base64_decoding(text@) == Some(self@.record_bytes(i as int)),
    {
        assert forall|j: int| 0 <= j < self.entries.len() implies i < (#[trigger] self.entries[j]).len() by {
            assert(self@.columns[j] == self.entries[j]@);
        }
        let record = get_matrix_second_at(self.entries.as_slice(), i);
        base64_from_u32_slice(record.as_slice(), self.plaintext_bits, self.elem_size)
    }

    /// Returns the number of limbs that hold `element_size` bits.
    pub fn get_matrix_width(element_size: usize, plaintext_bits: usize) -> (width: usize)
        requires
            plaintext_bits >= 1,
        ensures
            width == matrix_width(element_size as nat, plaintext_bits as nat),
    {
        proof {
            lemma_matrix_width_bound(element_size as nat, plaintext_bits as nat);
        }
        let mut quo: usize = element_size / plaintext_bits;
        if element_size % plaintext_bits != 0 {
            quo = quo + 1;
        }
        quo
    }

    /// Returns the number of limbs of a record of this database.
    pub fn get_matrix_width_self(&self) -> (width: usize)
        requires
            self@.plaintext_bits >= 1,
        ensures
            width == self@.width(),
    {
        Database::get_matrix_width(self.get_elem_size(), self.get_plaintext_bits())
    }

    /// Returns the number of records.
    pub fn get_matrix_height(&self) -> (m: usize)
        ensures
            m == self@.m,
    {
        self.m
    }

    /// Returns the number of bits of a record.
    pub fn get_elem_size(&self) -> (elem_size: usize)
        ensures
            elem_size == self@.elem_size,
    {
        self.elem_size
    }

    /// Returns the number of bits of a limb.
    pub fn get_plaintext_bits(&self) -> (plaintext_bits: usize)
        ensures
            plaintext_bits == self@.plaintext_bits,
    {
        self.plaintext_bits
    }
}

/// What the public parameters of a database hold.
pub struct BaseParamsView {
    /// The dimension of the secret vector.
    pub dim: nat,
    /// The number of records.
    pub m: nat,
    /// The number of bits of a record.
    pub elem_size: nat,
    /// The number of bits of a limb.
    pub plaintext_bits: nat,
    /// The seed that the left-hand matrix expands from.
    pub public_seed: Seq<u8>,
    /// The product of the left-hand matrix with the database, one vector of
    /// `dim` words per limb position.
    pub rhs: Seq<Seq<u32>>,
}

impl BaseParamsView {
    /// The left-hand matrix: `m` vectors of `dim` words expanded from the seed.
    pub open spec fn lhs(self) -> Seq<Seq<u32>> {
        expanded(self.public_seed, self.dim, self.m)
    }

    /// The parameters are those of the database `db`: they describe its shape,
    /// and the right-hand side is the product of the left-hand matrix with it.
    pub open spec fn derived_from(self, db: DatabaseView) -> bool {
        &&& self.m == db.m
        &&& self.elem_size == db.elem_size
        &&& self.plaintext_bits == db.plaintext_bits
        &&& self.rhs == params_rhs(db.columns, self.public_seed, self.dim, self.m)
    }
}

/// The public parameters of a database: what a client needs to build queries.
#[derive(Debug)]
pub struct BaseParams {
    dim: usize,
    m: usize,
    elem_size: usize,
    plaintext_bits: usize,
    public_seed: [u8; 32],
    rhs: Vec<Vec<u32>>,
}

impl View for BaseParams {
    type V = BaseParamsView;

    closed spec fn view(&self) -> BaseParamsView {
        BaseParamsView {
            dim: self.dim as nat,
            m: self.m as nat,
            elem_size: self.elem_size as nat,
            plaintext_bits: self.plaintext_bits as nat,
            public_seed: self.public_seed@,
            rhs: rows(self.rhs@),
        }
    }
}

impl Clone for BaseParams {
    fn clone(&self) -> (copy: Self)
        ensures
            copy@ == self@,
    {
        Self {
            dim: self.dim,
            m: self.m,
            elem_size: self.elem_size,
            plaintext_bits: self.plaintext_bits,
            public_seed: self.public_seed,
            rhs: clone_matrix(&self.rhs),
        }
    }
}

impl BaseParams {
    /// Draws a fresh seed and derives the parameters of `db` for secret
    /// vectors of `dim` words.
    pub fn new(db: &Database, dim: usize) -> (params: Self)
        requires
            db@.wf(),
        ensures
            params@.dim == dim,
            params@.derived_from(db@),
    {
        let public_seed = generate_seed();
        Self {
            public_seed,
            rhs: Self::generate_params_rhs(db, public_seed, dim, db.m),
            dim,
            m: db.m,
            elem_size: db.elem_size,
            plaintext_bits: db.plaintext_bits,
        }
    }

    /// Builds parameters from their parts as they are.
    pub fn from_parts(
        dim: usize,
        m: usize,
        elem_size: usize,
        plaintext_bits: usize,
        public_seed: [u8; 32],
        rhs: Vec<Vec<u32>>,
    ) -> (params: Self)
        ensures
            params@ == (BaseParamsView {
                dim: dim as nat,
                m: m as nat,
                elem_size: elem_size as nat,
                plaintext_bits: plaintext_bits as nat,
                public_seed: public_seed@,
                rhs: rows(rhs@),
            }),
    {
        Self { dim, m, elem_size, plaintext_bits, public_seed, rhs }
    }

    /// Multiplies the matrix expanded from `public_seed` with the database:
    /// for each limb position, the inner products of its column with the `dim`
    /// rows of the expanded matrix.
    pub fn generate_params_rhs(db: &Database, public_seed: [u8; 32], dim: usize, m: usize) -> (rhs:
        Vec<Vec<u32>>)
        requires
            db@.wf(),
            db@.m == m,
        ensures
            rows(rhs@) == params_rhs(db@.columns, public_seed@, dim as nat, m as nat),
    {
        let matrix = get_lwe_matrix_from_seed(public_seed, dim, m);
        proof {
            let want = expanded(public_seed@, dim as nat, m as nat);
            assert(rows(matrix@).len() == matrix.len());
            assert(want[0].len() == dim);
            assert(rows(matrix@)[0] == matrix[0]@);
        }
        Self::rhs_from_matrix(db, matrix.as_slice())
    }

    /// Multiplies a matrix, given as one vector per record, with the
    /// database: for each limb position, the inner products of its column with
    /// the rows of the matrix.
    pub fn rhs_from_matrix(db: &Database, matrix: &[Vec<u32>]) -> (rhs: Vec<Vec<u32>>)
        requires
            db@.wf(),
            matrix.len() == db@.m,
            rectangular(rows(matrix@), matrix[0].len() as nat),
        ensures
            rows(rhs@) == matrix_times_columns(rows(matrix@), db@.columns, matrix[0].len() as nat),
    {
        let dim: usize = matrix[0].len();
        let m: usize = matrix.len();
        let lhs = swap_matrix_fmt(matrix);
        proof {
            assert(rows(lhs@).len() == lhs.len());
        }
        let width: usize = db.get_matrix_width_self();
        let mut rhs: Vec<Vec<u32>> = Vec::with_capacity(width);
        let mut i: usize = 0;
        while i < width
            invariant
                i <= width,
                width == db@.columns.len(),
                db@.wf(),
                db@.m == m,
                m == matrix.len(),
                dim == matrix[0].len(),
                rows(lhs@) == transposed(rows(matrix@)),
                lhs.len() == dim,
                rhs.len() == i,
                forall|c: int|
                    0 <= c < i ==> (#[trigger] rhs[c])@ == matrix_times_columns(
                        rows(matrix@),
                        db@.columns,
                        dim as nat,
                    )[c],
            decreases width - i,
        {
            let mut col: Vec<u32> = Vec::with_capacity(m);
            let mut k: usize = 0;
            while k < lhs.len()
                invariant
                    k <= lhs.len(),
                    i < width,
                    width == db@.columns.len(),
                    db@.wf(),
                    db@.m == m,
                    m == matrix.len(),
                    dim == matrix[0].len(),
                    rows(lhs@) == transposed(rows(matrix@)),
                    lhs.len() == dim,
                    col.len() == k,
                    forall|r: int|
                        0 <= r < k ==> col[r] == inner_product(
                            second_at(rows(matrix@), r),
                            db@.columns[i as int],
                        ),
                decreases lhs.len() - k,
            {
                proof {
                    assert(rows(lhs@)[k as int] == lhs[k as int]@);
                    assert(rows(matrix@)[0] == matrix[0]@);
                    assert(transposed(rows(matrix@))[k as int] =~= second_at(
                        rows(matrix@),
                        k as int,
                    ));
                    assert(db@.columns[i as int].len() == m);
                }
                col.push(db.vec_mult(lhs[k].as_slice(), i));
                k = k + 1;
            }
            proof {
                assert(col@ =~= matrix_times_columns(rows(matrix@), db@.columns, dim as nat)[i as int]);
            }
            rhs.push(col);
            i = i + 1;
        }
        proof {
            assert(rows(rhs@) =~= matrix_times_columns(rows(matrix@), db@.columns, dim as nat));
        }
        rhs
    }

    /// Multiplies a secret vector with the right-hand side: its inner product
    /// with the vector of every limb position.
    ///
    /// Fails exactly when a vector of the right-hand side differs from `s` in length.
    pub fn mult_right(&self, s: &[u32]) -> (product: Result<Vec<u32>, PirError>)
        ensures
            match product {
                Ok(product) => rectangular(self@.rhs, s.len() as nat) && product@ == products(
                    s@,
                    self@.rhs,
                ),
                Err(PirError::DimensionMismatch(_)) => !rectangular(self@.rhs, s.len() as nat),
                Err(_) => false,
            },
    {
        let cols = &self.rhs;
        let mut product: Vec<u32> = Vec::with_capacity(cols.len());
        let mut i: usize = 0;
        while i < cols.len()
            invariant
                i <= cols.len(),
                cols@ == self.rhs@,
                product.len() == i,
                forall|k: int| 0 <= k < i ==> (#[trigger] self@.rhs[k]).len() == s.len(),
                forall|k: int| 0 <= k < i ==> product[k] == inner_product(s@, self@.rhs[k]),
            decreases cols.len() - i,
        {
            match vec_mult_u32_u32(s, cols[i].as_slice()) {
                Ok(p) => {
                    product.push(p);
                },
                Err(e) => {
                    proof {
                        assert(self@.rhs[i as int].len() != s.len());
                    }
                    return Err(PirError::DimensionMismatch(e));
                },
            }
            i = i + 1;
        }
        proof {
            assert(product@ =~= products(s@, self@.rhs));
        }
        Ok(product)
    }

    /// Returns the number of records.
    pub fn get_total_records(&self) -> (m: usize)
        ensures
            m == self@.m,
    {
        self.m
    }

    /// Returns the dimension of the secret vector.
    pub fn get_dim(&self) -> (dim: usize)
        ensures
            dim == self@.dim,
    {
        self.dim
    }

    /// Returns the number of bits of a record.
    pub fn get_elem_size(&self) -> (elem_size: usize)
        ensures
            elem_size == self@.elem_size,
    {
        self.elem_size
    }

    /// Returns the number of bits of a limb.
    pub fn get_plaintext_bits(&self) -> (plaintext_bits: usize)
        ensures
            plaintext_bits == self@.plaintext_bits,
    {
        self.plaintext_bits
    }

    /// Returns the seed of the left-hand matrix.
    pub fn get_public_seed(&self) -> (seed: [u8; 32])
        ensures
            seed@ == self@.public_seed,
    {
        self.public_seed
    }

    /// Returns the right-hand side.
    pub fn get_rhs(&self) -> (rhs: &[Vec<u32>])
        ensures
            rows(rhs@) == self@.rhs,
    {
        self.rhs.as_slice()
    }
}

/// The matrix that the seed of the public parameters expands to: `m` vectors
/// of `dim` words. Server and client derive the same one.
pub struct CommonParams(Vec<Vec<u32>>);

impl View for CommonParams {
    type V = Seq<Seq<u32>>;

    closed spec fn view(&self) -> Seq<Seq<u32>> {
        rows(self.0@)
    }
}

impl CommonParams {
    /// Builds the parameters from a matrix as it is.
    pub fn from_matrix(matrix: Vec<Vec<u32>>) -> (params: Self)
        ensures
            params@ == rows(matrix@),
    {
        Self(matrix)
    }

    /// Returns the matrix.
    pub fn as_matrix(&self) -> (matrix: &[Vec<u32>])
        ensures
            rows(matrix@) == self@,
    {
        self.0.as_slice()
    }

    /// Multiplies a secret vector with the matrix and adds `noise`: entry `i`
    /// is the inner product with vector `i`, plus `noise[i]`, modulo 2^32.
    ///
    /// Fails exactly when a vector of the matrix differs from `s` in length.
    pub fn mult_left_with_noise(&self, s: &[u32], noise: &[u32]) -> (product: Result<
        Vec<u32>,
        PirError,
    >)
        requires
            noise.len() == self@.len(),
        ensures
            match product {
                Ok(product) => rectangular(self@, s.len() as nat) && product@ == noisy_products(
                    s@,
                    self@,
                    noise@,
                ),
                Err(PirError::DimensionMismatch(_)) => !rectangular(self@, s.len() as nat),
                Err(_) => false,
            },
    {
        let cols = self.as_matrix();
        let mut product: Vec<u32> = Vec::with_capacity(cols.len());
        let mut i: usize = 0;
        while i < cols.len()
            invariant
                i <= cols.len(),
                rows(cols@) == self@,
                noise.len() == cols.len(),
                product.len() == i,
                forall|k: int| 0 <= k < i ==> (#[trigger] self@[k]).len() == s.len(),
                forall|k: int|
                    0 <= k < i ==> product[k] == add_mod(inner_product(s@, self@[k]), noise[k]),
            decreases cols.len() - i,
        {
            proof {
                assert(rows(cols@)[i as int] == cols[i as int]@);
            }
            match vec_mult_u32_u32(s, cols[i].as_slice()) {
                Ok(s_a) => {
                    proof {
                        lemma_wrapping_add_is_add_mod(s_a, noise[i as int]);
                    }
                    product.push(s_a.wrapping_add(noise[i]));
                },
                Err(e) => {
                    proof {
                        assert(self@[i as int].len() != s.len());
                    }
                    return Err(PirError::DimensionMismatch(e));
                },
            }
            i = i + 1;
        }
        proof {
            assert(product@ =~= noisy_products(s@, self@, noise@));
        }
        Ok(product)
    }

    /// Multiplies a secret vector with the matrix and adds a fresh ternary
    /// error to every entry.
    ///
    /// Fails exactly when a vector of the matrix differs from `s` in length.
    pub fn mult_left(&self, s: &[u32]) -> (product: Result<Vec<u32>, PirError>)
        ensures
            match product {
                Ok(product) => {
                    &&& rectangular(self@, s.len() as nat)
                    &&& exists|noise: Seq<u32>|
                        {
                            &&& noise.len() == self@.len()
                            &&& forall|i: int| 0 <= i < noise.len() ==> is_ternary(#[trigger] noise[i])
                            &&& product@ == noisy_products(s@, self@, noise)
                        }
                },
                Err(PirError::DimensionMismatch(_)) => !rectangular(self@, s.len() as nat),
                Err(_) => false,
            },
    {
        let noise = random_ternary_vector(self.0.len());
        self.mult_left_with_noise(s, noise.as_slice())
    }
}

impl FromSpecImpl<&BaseParams> for CommonParams {
    open spec fn obeys_from_spec() -> bool {
        false
    }

    open spec fn from_spec(params: &BaseParams) -> Self {
        arbitrary()
    }
}

impl From<&BaseParams> for CommonParams {
    /// Expands the seed of the public parameters.
    fn from(params: &BaseParams) -> (common: Self)
        ensures
            common@ == params@.lhs(),
    {
        Self(get_lwe_matrix_from_seed(params.public_seed, params.dim, params.m))
    }
}

/// The matrix derived from public parameters depends on their seed and their
/// two sizes alone: parameters that agree in those expand to the same matrix,
/// however often and wherever it is derived.
pub proof fn lemma_common_params_deterministic(first: BaseParamsView, second: BaseParamsView)
    requires
        first.public_seed == second.public_seed,
        first.dim == second.dim,
        first.m == second.m,
    ensures
        first.lhs() == second.lhs(),
        first.lhs().len() == first.m,
        rectangular(first.lhs(), first.dim),
{
}

/// The right-hand side agrees with the database: for every secret vector `s`,
/// entry `i` of `s` times the right-hand side is the inner product of `s` with
/// the product of the left-hand matrix and column `i` of the database.
pub proof fn lemma_rhs_consistency(params: BaseParamsView, db: DatabaseView, s: Seq<u32>, i: int)
    requires
        params.derived_from(db),
        0 <= i < db.columns.len(),
    ensures
        products(s, params.rhs)[i] == inner_product(
            s,
            Seq::new(
                params.dim,
                |k: int| inner_product(second_at(params.lhs(), k), db.columns[i]),
            ),
        ),
{
}

/// Reads the bytes of a record into `row_width` limbs of `plaintext_bits`
/// bits: limb `j` is what the bits from `j * plaintext_bits` on stand for,
/// `plaintext_bits` of them or what is left.
///
/// Gives nothing exactly when the bytes do not fill the limbs: when a limb
/// would start beyond the bits of the record or read more than 32 of them.
pub fn record_limbs_from_bytes(bytes: &[u8], row_width: usize, plaintext_bits: usize) -> (row:
    Option<Vec<u32>>)
    requires
        plaintext_bits >= 1,
        row_width * plaintext_bits <= usize::MAX,
    ensures
        match row {
            Some(row) => bytes_fill_limbs(bytes@, row_width as nat, plaintext_bits as nat) && row@
                == record_limbs(bytes@, row_width as nat, plaintext_bits as nat),
            None => !bytes_fill_limbs(bytes@, row_width as nat, plaintext_bits as nat),
        },
{
    if bytes.len() > usize::MAX / 8 {
        return None;
    }
    let bits = bytes_to_bits_le(bytes);
    let mut row: Vec<u32> = Vec::with_capacity(row_width);
    let mut j: usize = 0;
    while j < row_width
        invariant
            j <= row_width,
            plaintext_bits >= 1,
            row_width * plaintext_bits <= usize::MAX,
            bits@ == unpacked(bytes@),
            8 * bytes.len() <= usize::MAX,
            row.len() == j,
            forall|k: int| 0 <= k < j ==> #[trigger] limb_fits(bytes@, plaintext_bits as nat, k),
            forall|k: int|
                0 <= k < j ==> row[k] == le_value(
                    limb_chunk(unpacked(bytes@), plaintext_bits as nat, k),
                ) as u32,
        decreases row_width - j,
    {
        proof {
            assert(j * plaintext_bits + plaintext_bits == (j + 1) * plaintext_bits)
                by (nonlinear_arith);
            assert((j + 1) * plaintext_bits <= row_width * plaintext_bits) by (nonlinear_arith)
                requires
                    j + 1 <= row_width,
                    plaintext_bits >= 0,
            ;
        }
        let start: usize = j * plaintext_bits;
        if start > bits.len() {
            proof {
                assert(!limb_fits(bytes@, plaintext_bits as nat, j as int));
            }
            return None;
        }
        let end: usize = if bits.len() - start > plaintext_bits {
            start + plaintext_bits
        } else {
            bits.len()
        };
        let chunk = slice_subrange(bits.as_slice(), start, end);
        proof {
            assert(chunk@ =~= limb_chunk(unpacked(bytes@), plaintext_bits as nat, j as int));
        }
        match bits_to_u32_le(chunk) {
            Ok(limb) => {
                proof {
                    assert(limb_fits(bytes@, plaintext_bits as nat, j as int));
                }
                row.push(limb);
            },
            Err(_) => {
                proof {
                    assert(!limb_fits(bytes@, plaintext_bits as nat, j as int));
                }
                return None;
            },
        }
        j = j + 1;
    }
    proof {
        assert(row@ =~= record_limbs(bytes@, row_width as nat, plaintext_bits as nat));
    }
    Some(row)
}

/// Reads one record, a base64 text, into its limbs.
fn record_row(text: &str, row_width: usize, plaintext_bits: usize) -> (row: Option<Vec<u32>>)
    requires
        plaintext_bits >= 1,
        row_width * plaintext_bits <= usize::MAX,
    ensures
        match row {
            Some(row) => text_limbs(text@, row_width as nat, plaintext_bits as nat) == Some(row@),
            None => text_limbs(text@, row_width as nat, plaintext_bits as nat) is None,
        },
{
    match base64_decode(text) {
        Ok(bytes) => record_limbs_from_bytes(bytes.as_slice(), row_width, plaintext_bits),
        Err(_) => None,
    }
}

/// Reads the first `m` records into a matrix with one row of limbs per record.
fn construct_rows(elements: &[String], m: usize, elem_size: usize, plaintext_bits: usize) -> (matrix:
    Result<Vec<Vec<u32>>, PirError>)
    requires
        plaintext_bits >= 1,
        1 <= m <= elements.len(),
        elem_size + plaintext_bits <= usize::MAX,
    ensures
        match matrix {
            Ok(matrix) => {
                &&& records_good(
                    elements@,
                    m as nat,
                    matrix_width(elem_size as nat, plaintext_bits as nat),
                    plaintext_bits as nat,
                )
                &&& matrix.len() == m
                &&& forall|i: int|
                    0 <= i < m ==> Some((#[trigger] matrix[i])@) == text_limbs(
                        elements[i]@,
                        matrix_width(elem_size as nat, plaintext_bits as nat),
                        plaintext_bits as nat,
                    )
                &&& rectangular(
                    rows(matrix@),
                    matrix_width(elem_size as nat, plaintext_bits as nat),
                )
            },
            Err(PirError::BadRecord { index }) => {
                &&& index < m
                &&& records_good(
                    elements@,
                    index as nat,
                    matrix_width(elem_size as nat, plaintext_bits as nat),
                    plaintext_bits as nat,
                )
                &&& text_limbs(
                    elements[index as int]@,
                    matrix_width(elem_size as nat, plaintext_bits as nat),
                    plaintext_bits as nat,
                ) is None
            },
            Err(_) => false,
        },
{
    let row_width: usize = Database::get_matrix_width(elem_size, plaintext_bits);
    proof {
        lemma_matrix_width_bound(elem_size as nat, plaintext_bits as nat);
    }
    let mut matrix: Vec<Vec<u32>> = Vec::with_capacity(m);
    let mut i: usize = 0;
    while i < m
        invariant
            i <= m <= elements.len(),
            plaintext_bits >= 1,
            row_width == matrix_width(elem_size as nat, plaintext_bits as nat),
            row_width * plaintext_bits <= usize::MAX,
            matrix.len() == i,
            records_good(elements@, i as nat, row_width as nat, plaintext_bits as nat),
            forall|k: int|
                0 <= k < i ==> Some((#[trigger] matrix[k])@) == text_limbs(
                    elements[k]@,
                    row_width as nat,
                    plaintext_bits as nat,
                ),
        decreases m - i,
    {
        match record_row(elements[i].as_str(), row_width, plaintext_bits) {
            Some(row) => {
                matrix.push(row);
            },
            None => {
                return Err(PirError::BadRecord { index: i });
            },
        }
        i = i + 1;
    }
    proof {
        assert forall|k: int| 0 <= k < matrix.len() implies (#[trigger] rows(matrix@)[k]).len()
            == row_width by {
            assert(Some(matrix[k]@) == text_limbs(
                elements[k]@,
                row_width as nat,
                plaintext_bits as nat,
            ));
        }
    }
    Ok(matrix)
}

} // verus!
