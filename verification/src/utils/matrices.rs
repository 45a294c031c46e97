//! Vectors and matrices of words modulo 2^32.
//!
//! A matrix is a sequence of vectors of one length. Which of the two indices
//! counts rows is the caller's reading; `swap_matrix_fmt` exchanges them.
use crate::errors::ErrorUnexpectedInputSize;
use crate::numbers::{decimal_string, decimal_text};
use crate::trusted::random::{
    next_stream_word, os_random_word, seeded_stream, stream_position, stream_seed, stream_word,
};
use vstd::arithmetic::div_mod::{lemma_add_mod_noop, lemma_small_mod};
use vstd::prelude::*;

verus! {

/// The sum of the products of the first `n` paired entries, as an integer.
pub open spec fn dot(a: Seq<u32>, b: Seq<u32>, n: nat) -> int
    decreases n,
{
    if n == 0 {
        0
    } else {
        dot(a, b, (n - 1) as nat) + a[n - 1] * b[n - 1]
    }
}

/// The inner product of two vectors of one length, modulo 2^32.
pub open spec fn inner_product(a: Seq<u32>, b: Seq<u32>) -> u32 {
    (dot(a, b, a.len()) % 0x1_0000_0000) as u32
}

/// The vectors that a slice of vectors holds.
pub open spec fn rows(matrix: Seq<Vec<u32>>) -> Seq<Seq<u32>> {
    Seq::new(matrix.len(), |i: int| matrix[i]@)
}

/// Every vector of the matrix has `width` entries.
pub open spec fn rectangular(matrix: Seq<Seq<u32>>, width: nat) -> bool {
    forall|i: int| 0 <= i < matrix.len() ==> (#[trigger] matrix[i]).len() == width
}

/// The matrix with its two indices exchanged. The width is read off the first vector.
pub open spec fn transposed(matrix: Seq<Seq<u32>>) -> Seq<Seq<u32>> {
    Seq::new(matrix[0].len(), |j: int| Seq::new(matrix.len(), |i: int| matrix[i][j]))
}

/// Entry `index` of every vector.
pub open spec fn second_at(matrix: Seq<Seq<u32>>, index: int) -> Seq<u32> {
    Seq::new(matrix.len(), |i: int| matrix[i][index])
}

/// The matrix that a seed expands to: `width` vectors of `lwe_dim` words, taken
/// from the seeded stream in order, vector after vector.
pub open spec fn expanded(seed: Seq<u8>, lwe_dim: nat, width: nat) -> Seq<Seq<u32>> {
    Seq::new(
        width,
        |c: int| Seq::new(lwe_dim, |k: int| stream_word(seed, (c * lwe_dim + k) as nat)),
    )
}

/// The inner product of `s` with every vector of the matrix.
pub open spec fn products(s: Seq<u32>, matrix: Seq<Seq<u32>>) -> Seq<u32> {
    Seq::new(matrix.len(), |i: int| inner_product(s, matrix[i]))
}

/// The sum of two words modulo 2^32.
pub open spec fn add_mod(x: u32, y: u32) -> u32 {
    ((x + y) % 0x1_0000_0000) as u32
}

/// The difference of two words modulo 2^32.
pub open spec fn sub_mod(x: u32, y: u32) -> u32 {
    ((x - y) % 0x1_0000_0000) as u32
}

/// The inner product of `s` with every vector of the matrix, each with the
/// noise of its position added.
pub open spec fn noisy_products(s: Seq<u32>, matrix: Seq<Seq<u32>>, noise: Seq<u32>) -> Seq<u32> {
    Seq::new(matrix.len(), |i: int| add_mod(inner_product(s, matrix[i]), noise[i]))
}

/// The largest sample of the first third of the accepted range.
pub const TERNARY_INTERVAL_SIZE: u32 = 1431655764;

/// The largest sample that is accepted: three times the interval size.
pub const TERNARY_REJECTION_SAMPLING_MAX: u32 = 4294967292;

/// The three values of a ternary error: 0, 1 and -1 modulo 2^32.
pub open spec fn is_ternary(x: u32) -> bool {
    x == 0 || x == 1 || x == u32::MAX
}

/// The ternary value of a sample: 0 for the first third of the accepted range,
/// 1 for the second, -1 above.
pub open spec fn ternary_of(sample: u32) -> u32 {
    if sample <= TERNARY_INTERVAL_SIZE {
        0
    } else if sample <= 2 * TERNARY_INTERVAL_SIZE {
        1
    } else {
        u32::MAX
    }
}

/// The wrapping sum of two words is their sum modulo 2^32.
pub proof fn lemma_wrapping_add_is_add_mod(x: u32, y: u32)
    ensures
        x.wrapping_add(y) == add_mod(x, y),
{
    let q = 0x1_0000_0000int;
    if x + y >= q {
        vstd::arithmetic::div_mod::lemma_mod_sub_multiples_vanish(x + y, q);
        lemma_small_mod((x + y - q) as nat, q as nat);
    } else {
        lemma_small_mod((x + y) as nat, q as nat);
    }
}

/// The wrapping difference of two words is their difference modulo 2^32.
pub proof fn lemma_wrapping_sub_is_sub_mod(x: u32, y: u32)
    ensures
        x.wrapping_sub(y) == sub_mod(x, y),
{
    let q = 0x1_0000_0000int;
    if x - y < 0 {
        vstd::arithmetic::div_mod::lemma_mod_add_multiples_vanish(x - y, q);
        lemma_small_mod((x - y + q) as nat, q as nat);
    } else {
        lemma_small_mod((x - y) as nat, q as nat);
    }
}

/// Two transpositions give the matrix back.
pub proof fn lemma_transposed_twice(matrix: Seq<Seq<u32>>)
    requires
        matrix.len() > 0,
        matrix[0].len() > 0,
        rectangular(matrix, matrix[0].len()),
    ensures
        transposed(transposed(matrix)) == matrix,
{
    let once = transposed(matrix);
    let twice = transposed(once);
    assert(twice.len() == matrix.len());
    assert forall|i: int| 0 <= i < matrix.len() implies twice[i] == matrix[i] by {
        assert(matrix[i].len() == matrix[0].len());
        assert(twice[i] =~= matrix[i]);
    }
    assert(twice =~= matrix);
}

/// Copies a matrix.
pub fn clone_matrix(matrix: &Vec<Vec<u32>>) -> (copy: Vec<Vec<u32>>)
    ensures
        rows(copy@) == rows(matrix@),
{
    let mut copy: Vec<Vec<u32>> = Vec::with_capacity(matrix.len());
    let mut i: usize = 0;
    while i < matrix.len()
        invariant
            i <= matrix.len(),
            copy.len() == i,
            forall|k: int| 0 <= k < i ==> (#[trigger] copy[k])@ == matrix[k]@,
        decreases matrix.len() - i,
    {
        copy.push(matrix[i].clone());
        i = i + 1;
    }
    proof {
        assert(rows(copy@) =~= rows(matrix@));
    }
    copy
}

/// Takes a matrix given by rows and returns it by columns, or the other way round.
pub fn swap_matrix_fmt(matrix: &[Vec<u32>]) -> (swapped: Vec<Vec<u32>>)
    requires
        matrix.len() > 0,
        rectangular(rows(matrix@), matrix[0].len() as nat),
    ensures
        rows(swapped@) == transposed(rows(matrix@)),
{
    let height: usize = matrix.len();
    let width: usize = matrix[0].len();
    let mut swapped: Vec<Vec<u32>> = Vec::with_capacity(width);
    let mut j: usize = 0;
    while j < width
        invariant
            j <= width,
            height == matrix.len(),
            height > 0,
            width == matrix[0].len(),
            rectangular(rows(matrix@), width as nat),
            swapped.len() == j,
            forall|c: int|
                0 <= c < j ==> (#[trigger] swapped[c])@ == Seq::new(
                    height as nat,
                    |i: int| matrix[i][c],
                ),
        decreases width - j,
    {
        let mut column: Vec<u32> = Vec::with_capacity(height);
        let mut i: usize = 0;
        while i < height
            invariant
                i <= height,
                j < width,
                height == matrix.len(),
                rectangular(rows(matrix@), width as nat),
                column.len() == i,
                forall|r: int| 0 <= r < i ==> column[r] == matrix[r][j as int],
            decreases height - i,
        {
            assert(rows(matrix@)[i as int].len() == width);
            column.push(matrix[i][j]);
            i = i + 1;
        }
        assert(column@ =~= Seq::new(height as nat, |i: int| matrix[i][j as int]));
        swapped.push(column);
        j = j + 1;
    }
    proof {
        let want = transposed(rows(matrix@));
        let got = rows(swapped@);
        assert(got.len() == want.len());
        assert forall|c: int| 0 <= c < got.len() implies got[c] == want[c] by {
            assert(swapped[c]@ =~= want[c]);
        }
        assert(got =~= want);
    }
    swapped
}

/// Returns entry `secidx` of every vector of the matrix: one vector of the
/// swapped matrix, without building the others.
pub fn get_matrix_second_at(matrix: &[Vec<u32>], secidx: usize) -> (column: Vec<u32>)
    requires
        forall|i: int| 0 <= i < matrix.len() ==> secidx < (#[trigger] matrix[i]).len(),
    ensures
        column@ == second_at(rows(matrix@), secidx as int),
{
    let mut column: Vec<u32> = Vec::with_capacity(matrix.len());
    let mut i: usize = 0;
    while i < matrix.len()
        invariant
            i <= matrix.len(),
            forall|r: int| 0 <= r < matrix.len() ==> secidx < (#[trigger] matrix[r]).len(),
            column.len() == i,
            forall|r: int| 0 <= r < i ==> column[r] == matrix[r][secidx as int],
        decreases matrix.len() - i,
    {
        column.push(matrix[i][secidx]);
        i = i + 1;
    }
    proof {
        assert(column@ =~= second_at(rows(matrix@), secidx as int));
    }
    column
}

/// Expands a seed into `width` vectors of `lwe_dim` words each.
pub fn get_lwe_matrix_from_seed(seed: [u8; 32], lwe_dim: usize, width: usize) -> (matrix: Vec<
    Vec<u32>,
>)
    ensures
        rows(matrix@) == expanded(seed@, lwe_dim as nat, width as nat),
{
    let mut rng = seeded_stream(seed);
    let mut matrix: Vec<Vec<u32>> = Vec::new();
    let mut c: usize = 0;
    while c < width
        invariant
            c <= width,
            stream_seed(rng) == seed@,
            stream_position(rng) == c * lwe_dim,
            matrix.len() == c,
            forall|d: int|
                0 <= d < c ==> (#[trigger] matrix[d])@ == Seq::new(
                    lwe_dim as nat,
                    |k: int| stream_word(seed@, (d * lwe_dim + k) as nat),
                ),
        decreases width - c,
    {
        let mut column: Vec<u32> = Vec::new();
        let mut k: usize = 0;
        while k < lwe_dim
            invariant
                k <= lwe_dim,
                stream_seed(rng) == seed@,
                stream_position(rng) == c * lwe_dim + k,
                column.len() == k,
                forall|l: int|
                    0 <= l < k ==> column[l] == stream_word(seed@, (c * lwe_dim + l) as nat),
            decreases lwe_dim - k,
        {
            let word: u32 = next_stream_word(&mut rng);
            column.push(word);
            k = k + 1;
        }
        assert(column@ =~= Seq::new(
            lwe_dim as nat,
            |k: int| stream_word(seed@, (c * lwe_dim + k) as nat),
        ));
        matrix.push(column);
        assert((c + 1) * lwe_dim == c * lwe_dim + lwe_dim) by (nonlinear_arith);
        c = c + 1;
    }
    proof {
        let want = expanded(seed@, lwe_dim as nat, width as nat);
        let got = rows(matrix@);
        assert forall|d: int| 0 <= d < got.len() implies got[d] == want[d] by {
            assert(matrix[d]@ =~= want[d]);
        }
        assert(got =~= want);
    }
    matrix
}

/// Multiplies a vector with a vector of the same length: the sum of the
/// products, everything modulo 2^32.
///
/// Fails exactly when the lengths differ.
pub fn vec_mult_u32_u32(row: &[u32], col: &[u32]) -> (product: Result<
    u32,
    ErrorUnexpectedInputSize,
>)
    ensures
        match product {
            Ok(p) => row.len() == col.len() && p == inner_product(row@, col@),
            Err(e) => row.len() != col.len() && e.details() == "row_len: "@ + decimal_text(
                row.len() as nat,
            ) + ", col_len: "@ + decimal_text(col.len() as nat),
        },
{
    if row.len() != col.len() {
        let text = String::from_str("row_len: ").concat(decimal_string(row.len()).as_str()).concat(
            ", col_len: ",
        ).concat(decimal_string(col.len()).as_str());
        return Err(ErrorUnexpectedInputSize::new(text));
    }
    let mut acc: u32 = 0;
    let mut i: usize = 0;
    proof {
        lemma_small_mod(0, 0x1_0000_0000);
    }
    while i < row.len()
        invariant
            i <= row.len(),
            row.len() == col.len(),
            acc == dot(row@, col@, i as nat) % 0x1_0000_0000,
        decreases row.len() - i,
    {
        let term: u32 = row[i].wrapping_mul(col[i]);
        proof {
            let q = 0x1_0000_0000int;
            let before = dot(row@, col@, i as nat);
            let exact = row[i as int] as int * col[i as int] as int;
            assert(exact >= 0) by (nonlinear_arith)
                requires
                    exact == row[i as int] as int * col[i as int] as int,
            ;
            assert(term as int == exact % q);
            lemma_add_mod_noop(before, exact, q);
            assert(acc.wrapping_add(term) as int == (acc as int + term as int) % q) by {
                if acc as int + term as int >= q {
                    vstd::arithmetic::div_mod::lemma_mod_sub_multiples_vanish(
                        acc as int + term as int,
                        q,
                    );
                    lemma_small_mod((acc as int + term as int - q) as nat, q as nat);
                } else {
                    lemma_small_mod((acc as int + term as int) as nat, q as nat);
                }
            }
        }
        acc = acc.wrapping_add(term);
        i = i + 1;
    }
    Ok(acc)
}

/// Maps a sample of 32 random bits to a ternary value, or to nothing where the
/// sample lies above the accepted range and has to be drawn again.
pub fn ternary_from_sample(sample: u32) -> (value: Option<u32>)
    ensures
        value == if sample <= TERNARY_REJECTION_SAMPLING_MAX {
            Some(ternary_of(sample))
        } else {
            None
        },
{
    if sample > TERNARY_REJECTION_SAMPLING_MAX {
        None
    } else if sample > TERNARY_INTERVAL_SIZE && sample <= TERNARY_INTERVAL_SIZE * 2 {
        Some(1)
    } else if sample > TERNARY_INTERVAL_SIZE * 2 {
        Some(u32::MAX)
    } else {
        Some(0)
    }
}

/// Draws a ternary error: 0, 1 or -1 modulo 2^32.
///
/// Samples of 32 bits are drawn from the operating system until one lies in the
/// accepted range. Three of the 2^32 samples lie outside; a draw that met
/// nothing else `u64::MAX` times over gives -1, the third of the range they
/// border on.
pub fn random_ternary() -> (value: u32)
    ensures
        is_ternary(value),
{
    let mut sample: u32 = os_random_word();
    let mut draws_left: u64 = u64::MAX;
    while sample > TERNARY_REJECTION_SAMPLING_MAX && draws_left > 0
        decreases draws_left,
    {
        sample = os_random_word();
        draws_left = draws_left - 1;
    }
    match ternary_from_sample(sample) {
        Some(value) => value,
        None => u32::MAX,
    }
}

/// Draws `width` ternary errors.
pub fn random_ternary_vector(width: usize) -> (vector: Vec<u32>)
    ensures
        vector.len() == width,
        forall|i: int| 0 <= i < width ==> is_ternary(#[trigger] vector[i]),
{
    let mut vector: Vec<u32> = Vec::with_capacity(width);
    let mut i: usize = 0;
    while i < width
        invariant
            i <= width,
            vector.len() == i,
            forall|k: int| 0 <= k < i ==> is_ternary(#[trigger] vector[k]),
        decreases width - i,
    {
        vector.push(random_ternary());
        i = i + 1;
    }
    vector
}

} // verus!
