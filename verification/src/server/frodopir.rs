//! What a server holds of a bucket, and where it takes a bucket from.
use crate::api::Shard as Bucket;
use crate::credentials::api::load_bucket_from_hashes;
use crate::credentials::keyword::LocalHashPrefixTable;
use crate::db::{matrix_width, record_matrix, records_good};
use crate::errors::PirError;
use crate::utils::matrices::transposed;
use vstd::prelude::*;

verus! {

/// The dimension of the secret vectors.
pub const LWE_DIM: usize = 1572;

/// The number of bits of a hashed credential.
pub const ELEMENT_BIT_LEN: usize = 256;

/// The number of bits of a limb of the database.
pub const DB_MATRIX_ENTRY_BIT_LEN: usize = 10;

/// The number of bits of a prefix in the keyword table.
pub const PREFIX_BIT_LEN: u32 = 16;

/// The directory that the server keeps prepared buckets in.
pub const BUCKET_METADATA_DIR: &'static str = "bucket_metadata";

/// Where the server takes a shard from.
#[derive(Debug, Clone, Copy, PartialEq, Eq, Structural)]
pub enum ShardSource {
    /// The bucket that was prepared and kept by an earlier run.
    Kept,
    /// The hashes in the object store.
    ObjectStore,
    /// The hashes on disk.
    Disk,
}

/// Decides where a shard comes from: from what an earlier run kept, where
/// there is such a thing; else from the object store in release, and from
/// disk otherwise.
pub fn shard_source(kept: bool, release: bool) -> (source: ShardSource)
    ensures
        source == if kept {
            ShardSource::Kept
        } else if release {
            ShardSource::ObjectStore
        } else {
            ShardSource::Disk
        },
{
    if kept {
        ShardSource::Kept
    } else if release {
        ShardSource::ObjectStore
    } else {
        ShardSource::Disk
    }
}

/// The path of the hashes of a shard: its name with the ending ".bucket" in
/// the directory of the shards.
pub fn shard_file_path(shard_dir: &str, shard: &str) -> (path: String)
    ensures
        path@ == shard_dir@ + "/"@ + shard@ + ".bucket"@,
{
    String::from_str(shard_dir).concat("/").concat(shard).concat(".bucket")
}

/// The path that a prepared bucket is kept at.
pub fn metadata_file_path(shard: &str) -> (path: String)
    ensures
        path@ == "bucket_metadata"@ + "/"@ + shard@,
{
    String::from_str(BUCKET_METADATA_DIR).concat("/").concat(shard)
}

/// A bucket with its keyword table.
#[derive(Debug)]
pub struct BucketMetadata {
    pub bucket: Bucket,
    pub local_hash_prefix_table: LocalHashPrefixTable,
}

impl BucketMetadata {
    /// Prepares a bucket for serving: loads the hashed credentials into a
    /// bucket of limbs of 10 bits with parameters for secrets of 1572 words,
    /// and builds its table of 16-bit prefixes.
    ///
    /// Fails at the first record that is no base64 text of a hash.
    pub fn from_hashes(elements: &[String]) -> (metadata: Result<Self, PirError>)
        requires
            elements.len() >= 1,
        ensures
            match metadata {
                Ok(metadata) => {
                    &&& records_good(elements@, elements.len() as nat, 26, 10)
                    &&& metadata.bucket@.db.columns == transposed(
                        record_matrix(elements@, elements.len() as nat, 26, 10),
                    )
                    &&& metadata.bucket@.db.m == elements.len()
                    &&& metadata.bucket@.db.elem_size == 256
                    &&& metadata.bucket@.db.plaintext_bits == 10
                    &&& metadata.bucket@.base_params.dim == 1572
                    &&& metadata.bucket@.wf()
                    &&& metadata.local_hash_prefix_table@.prefix_bit_len == 16
                    &&& metadata.local_hash_prefix_table@.built_from(
                        Seq::new(
                            metadata.bucket@.db.m,
                            |i: int| metadata.bucket@.db.record_bytes(i),
                        ),
                    )
                },
                Err(PirError::BadRecord { index }) => {
                    &&& index < elements.len()
                    &&& records_good(elements@, index as nat, 26, 10)
                    &&& !records_good(elements@, (index + 1) as nat, 26, 10)
                },
                Err(_) => false,
            },
    {
        assert(matrix_width(256, 10) == 26);
        let bucket = load_bucket_from_hashes(
            elements,
            LWE_DIM,
            ELEMENT_BIT_LEN,
            DB_MATRIX_ENTRY_BIT_LEN,
        )?;
        let local_hash_prefix_table = LocalHashPrefixTable::new(&bucket, PREFIX_BIT_LEN);
        Ok(BucketMetadata { bucket, local_hash_prefix_table })
    }
}

} // verus!
