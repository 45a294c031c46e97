//! The mapping from a keyword to the rows of the database that may hold it.
//!
//! The server publishes, for every row, a short prefix of the row. The client
//! hashes its keyword and asks for every row whose prefix is that of the hash.
use crate::api::Shard as Bucket;
use crate::credentials::errors::C3Error;
use crate::credentials::utils::prefix_of;
use crate::trusted::digest::{sha256, sha256_digest};
use crate::trusted::text::{base64_decode, base64_decoding};
use crate::utils::format::lemma_limb_bits_len;
use vstd::prelude::*;

verus! {

/// The positions below `n` at which `prefixes` holds `prefix`, in increasing order.
pub open spec fn positions_of(prefixes: Seq<u32>, prefix: u32, n: nat) -> Seq<usize>
    decreases n,
{
    if n == 0 {
        Seq::empty()
    } else if prefixes[n - 1] == prefix {
        positions_of(prefixes, prefix, (n - 1) as nat).push((n - 1) as usize)
    } else {
        positions_of(prefixes, prefix, (n - 1) as nat)
    }
}

/// The positions listed for a prefix are exactly those that hold it.
pub proof fn lemma_positions_of(prefixes: Seq<u32>, prefix: u32, n: nat, i: int)
    requires
        n <= prefixes.len() <= usize::MAX,
    ensures
        positions_of(prefixes, prefix, n).contains(i as usize) && 0 <= i <= usize::MAX <==> 0 <= i
            < n && prefixes[i] == prefix,
    decreases n,
{
    if n > 0 {
        let rest = positions_of(prefixes, prefix, (n - 1) as nat);
        lemma_positions_of(prefixes, prefix, (n - 1) as nat, i);
        if prefixes[n - 1] == prefix {
            let all = rest.push((n - 1) as usize);
            assert(all.last() == (n - 1) as usize);
            if 0 <= i < n && prefixes[i] == prefix {
                if i == n - 1 {
                    assert(all[all.len() - 1] == i as usize);
                } else {
                    let k = choose|k: int| 0 <= k < rest.len() && rest[k] == i as usize;
                    assert(all[k] == i as usize);
                }
            }
            if all.contains(i as usize) && 0 <= i <= usize::MAX {
                let k = choose|k: int| 0 <= k < all.len() && all[k] == i as usize;
                if k < rest.len() {
                    assert(rest[k] == i as usize);
                }
            }
        }
    }
}

/// The positions listed for a prefix are listed in increasing order.
pub proof fn lemma_positions_increase(prefixes: Seq<u32>, prefix: u32, n: nat, a: int, b: int)
    requires
        n <= prefixes.len() <= usize::MAX,
        0 <= a < b < positions_of(prefixes, prefix, n).len(),
    ensures
        positions_of(prefixes, prefix, n)[a] < positions_of(prefixes, prefix, n)[b] < n,
    decreases n,
{
    let all = positions_of(prefixes, prefix, n);
    let rest = positions_of(prefixes, prefix, (n - 1) as nat);
    if prefixes[n - 1] == prefix {
        if b < rest.len() {
            lemma_positions_increase(prefixes, prefix, (n - 1) as nat, a, b);
        } else {
            assert(all[b] == (n - 1) as usize);
            assert(rest.contains(rest[a]));
            lemma_positions_of(prefixes, prefix, (n - 1) as nat, rest[a] as int);
        }
    } else {
        lemma_positions_increase(prefixes, prefix, (n - 1) as nat, a, b);
    }
}

/// A mapping from keywords to rows of a database.
pub trait KeywordIndexMapping {
    /// The rows to ask for a keyword.
    spec fn indices_of(&self, keyword: Seq<u8>) -> Seq<usize>;

    /// Returns the rows that a client has to ask for to learn whether its
    /// keyword is in the database. No row means no query.
    fn get_indices(&self, keyword: &[u8]) -> (indices: Vec<usize>)
        ensures
            indices@ == self.indices_of(keyword@),
    ;
}

/// What a prefix table holds.
pub struct LocalHashPrefixTableView {
    /// The prefix of every row.
    pub prefixes: Seq<u32>,
    /// The number of bits of a prefix.
    pub prefix_bit_len: nat,
}

impl LocalHashPrefixTableView {
    /// The table lists the rows whose first bytes are `rows`.
    pub open spec fn built_from(self, rows: Seq<Seq<u8>>) -> bool {
        &&& self.prefixes.len() == rows.len()
        &&& forall|i: int|
            0 <= i < rows.len() ==> #[trigger] self.prefixes[i] == prefix_of(
                rows[i],
                self.prefix_bit_len,
            )
    }
}

/// A table of the hash prefixes of the rows of a bucket. The server builds
/// it; the client keeps it and asks for every row whose prefix matches the
/// hash of its keyword.
#[derive(Debug)]
pub struct LocalHashPrefixTable {
    prefixes: Vec<u32>,
    prefix_bit_len: u32,
}

impl View for LocalHashPrefixTable {
    type V = LocalHashPrefixTableView;

    closed spec fn view(&self) -> LocalHashPrefixTableView {
        LocalHashPrefixTableView {
            prefixes: self.prefixes@,
            prefix_bit_len: self.prefix_bit_len as nat,
        }
    }
}

impl Clone for LocalHashPrefixTable {
    fn clone(&self) -> (copy: Self)
        ensures
            copy@ == self@,
    {
        Self { prefixes: self.prefixes.clone(), prefix_bit_len: self.prefix_bit_len }
    }
}

impl LocalHashPrefixTable {
    /// Builds the table of a bucket: the prefix of every record, in order.
    pub fn new(bucket: &Bucket, prefix_bit_len: u32) -> (table: Self)
        requires
            bucket@.db.wf(),
            bucket@.db.plaintext_bits <= 32,
            bucket@.db.elem_size >= 25,
        ensures
            table@.prefix_bit_len == prefix_bit_len,
            table@.built_from(Seq::new(bucket@.db.m, |i: int| bucket@.db.record_bytes(i))),
    {
        let rows = bucket.into_row_iter();
        let mut prefixes: Vec<u32> = Vec::with_capacity(rows.len());
        let mut i: usize = 0;
        while i < rows.len()
            invariant
                i <= rows.len(),
                rows.len() == bucket@.db.m,
                bucket@.db.wf(),
                bucket@.db.plaintext_bits <= 32,
                bucket@.db.elem_size >= 25,
                forall|k: int|
                    0 <= k < rows.len() ==> base64_decoding((#[trigger] rows[k])@) == Some(
                        bucket@.db.record_bytes(k),
                    ),
                prefixes.len() == i,
                forall|k: int|
                    0 <= k < i ==> #[trigger] prefixes[k] == prefix_of(
                        bucket@.db.record_bytes(k),
                        prefix_bit_len as nat,
                    ),
            decreases rows.len() - i,
        {
            proof {
                let record = bucket@.db.record(i as int);
                assert(record.len() == bucket@.db.width());
                lemma_limb_bits_len(record, bucket@.db.plaintext_bits, bucket@.db.elem_size);
            }
            match base64_decode(rows[i].as_str()) {
                Ok(bytes) => {
                    prefixes.push(Self::get_prefix(bytes.as_slice(), prefix_bit_len));
                },
                Err(_) => {
                    // The row was written as base64 and is read back as such.
                    assert(false);
                },
            }
            i = i + 1;
        }
        Self { prefixes, prefix_bit_len }
    }

    /// Builds the table from the rows as base64 texts: the prefix of every
    /// row, in order.
    ///
    /// Fails exactly when a row is no base64 text of at least four bytes.
    pub fn new_from_base64_strings(rows: &[String], prefix_bit_len: u32) -> (table: Result<
        Self,
        C3Error,
    >)
        ensures
            match table {
                Ok(table) => {
                    &&& forall|i: int|
                        0 <= i < rows.len() ==> row_has_prefix(#[trigger] rows[i]@)
                    &&& table@.prefix_bit_len == prefix_bit_len
                    &&& table@.built_from(
                        Seq::new(rows.len() as nat, |i: int| base64_decoding(rows[i]@).unwrap()),
                    )
                },
                Err(C3Error::KeywordIndexMappingError) => exists|i: int|
                    0 <= i < rows.len() && !row_has_prefix(#[trigger] rows[i]@),
                Err(_) => false,
            },
    {
        let mut prefixes: Vec<u32> = Vec::with_capacity(rows.len());
        let mut i: usize = 0;
        while i < rows.len()
            invariant
                i <= rows.len(),
                forall|k: int| 0 <= k < i ==> row_has_prefix(#[trigger] rows[k]@),
                prefixes.len() == i,
                forall|k: int|
                    0 <= k < i ==> #[trigger] prefixes[k] == prefix_of(
                        base64_decoding(rows[k]@).unwrap(),
                        prefix_bit_len as nat,
                    ),
            decreases rows.len() - i,
        {
            match base64_decode(rows[i].as_str()) {
                Ok(bytes) => {
                    if bytes.len() < 4 {
                        proof {
                            assert(!row_has_prefix(rows[i as int]@));
                        }
                        return Err(C3Error::KeywordIndexMappingError);
                    }
                    prefixes.push(Self::get_prefix(bytes.as_slice(), prefix_bit_len));
                },
                Err(_) => {
                    proof {
                        assert(!row_has_prefix(rows[i as int]@));
                    }
                    return Err(C3Error::KeywordIndexMappingError);
                },
            }
            i = i + 1;
        }
        Ok(Self { prefixes, prefix_bit_len })
    }

    /// Builds a table from its parts as they are.
    pub fn from_parts(prefixes: Vec<u32>, prefix_bit_len: u32) -> (table: Self)
        ensures
            table@ == (LocalHashPrefixTableView {
                prefixes: prefixes@,
                prefix_bit_len: prefix_bit_len as nat,
            }),
    {
        Self { prefixes, prefix_bit_len }
    }

    /// Returns the prefixes.
    pub fn get_prefixes(&self) -> (prefixes: &[u32])
        ensures
            prefixes@ == self@.prefixes,
    {
        self.prefixes.as_slice()
    }

    /// Returns the number of bits of a prefix.
    pub fn get_prefix_bit_len(&self) -> (prefix_bit_len: u32)
        ensures
            prefix_bit_len == self@.prefix_bit_len,
    {
        self.prefix_bit_len
    }

    /// The prefix of a row.
    fn get_prefix(bytes: &[u8], prefix_bit_len: u32) -> (prefix: u32)
        requires
            bytes.len() >= 4,
        ensures
            prefix == prefix_of(bytes@, prefix_bit_len as nat),
    {
        crate::credentials::utils::get_prefix(bytes, prefix_bit_len)
    }

    /// Returns the rows whose prefix is `prefix`, in increasing order.
    pub fn indices_with_prefix(&self, prefix: u32) -> (indices: Vec<usize>)
        ensures
            indices@ == positions_of(self@.prefixes, prefix, self@.prefixes.len()),
    {
        let mut indices: Vec<usize> = Vec::new();
        let mut i: usize = 0;
        while i < self.prefixes.len()
            invariant
                i <= self.prefixes.len(),
                indices@ == positions_of(self@.prefixes, prefix, i as nat),
            decreases self.prefixes.len() - i,
        {
            if self.prefixes[i] == prefix {
                indices.push(i);
            }
            i = i + 1;
        }
        indices
    }

    /// Returns the number of rows.
    pub fn len(&self) -> (len: usize)
        ensures
            len == self@.prefixes.len(),
    {
        self.prefixes.len()
    }

    /// Tells whether the table has no row.
    pub fn is_empty(&self) -> (empty: bool)
        ensures
            empty == (self@.prefixes.len() == 0),
    {
        self.prefixes.len() == 0
    }
}

/// A row is a base64 text of at least four bytes.
pub open spec fn row_has_prefix(row: Seq<char>) -> bool {
    base64_decoding(row) matches Some(bytes) && bytes.len() >= 4
}

impl KeywordIndexMapping for LocalHashPrefixTable {
    /// The rows whose prefix is that of the SHA-256 digest of the keyword.
    open spec fn indices_of(&self, keyword: Seq<u8>) -> Seq<usize> {
        positions_of(
            self@.prefixes,
            prefix_of(sha256_digest(keyword), self@.prefix_bit_len),
            self@.prefixes.len(),
        )
    }

    fn get_indices(&self, keyword: &[u8]) -> (indices: Vec<usize>) {
        let hash = sha256(keyword);
        let pref = LocalHashPrefixTable::get_prefix(hash.as_slice(), self.prefix_bit_len);
        self.indices_with_prefix(pref)
    }
}

/// A keyword leads to every row that holds its hash: the table of a list of
/// rows names row `i` for every keyword whose digest starts with the four
/// bytes that row `i` starts with. It names no position outside the table.
pub proof fn lemma_keyword_map_sound(
    table: LocalHashPrefixTable,
    rows: Seq<Seq<u8>>,
    keyword: Seq<u8>,
    i: int,
)
    requires
        table@.built_from(rows),
        rows.len() <= usize::MAX,
        0 <= i < rows.len(),
        rows[i].take(4) == sha256_digest(keyword).take(4),
    ensures
        table.indices_of(keyword).contains(i as usize),
        forall|k: int|
            0 <= k < table.indices_of(keyword).len() ==> (#[trigger] table.indices_of(
                keyword,
            )[k]) < rows.len(),
{
    let prefix = prefix_of(sha256_digest(keyword), table@.prefix_bit_len);
    lemma_positions_of(table@.prefixes, prefix, table@.prefixes.len(), i);
    assert forall|k: int| 0 <= k < table.indices_of(keyword).len() implies (
    #[trigger] table.indices_of(keyword)[k]) < rows.len() by {
        let p = table.indices_of(keyword)[k];
        assert(table.indices_of(keyword).contains(p));
        lemma_positions_of(table@.prefixes, prefix, table@.prefixes.len(), p as int);
    }
}

} // verus!
