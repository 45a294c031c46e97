//! What the client decides around its queries: which server holds a bucket,
//! and how many query parameters to derive.
use crate::numbers::{parse_number, parsed_number};
use vstd::prelude::*;

verus! {

/// The number of hexadecimal digits of a username's digest that pick its bucket.
pub const HEX_PREFIX_LEN: usize = 16;

/// The number of buckets where no configuration says otherwise.
pub const BUCKETS_TOTAL_DEFAULT: usize = 16;

/// The number of buckets of one server where no configuration says otherwise.
pub const BUCKETS_PER_INSTANCE_DEFAULT: usize = 4;

/// The directory that the client keeps the parameters of buckets in.
pub const LOCAL_CACHE_DATA_DIR: &'static str = "bucket_metadata";

/// One server of a local configuration.
#[derive(Debug)]
pub struct ConfigInstances {
    pub port: String,
    pub shards: String,
}

/// A local configuration: where the data lies and which servers there are.
#[derive(Debug)]
pub struct Config {
    pub db_content_path: String,
    pub buckets_path: String,
    pub oprf_key: String,
    pub buckets_per_instance: usize,
    pub instances: Vec<ConfigInstances>,
}

/// The two addresses of the server that holds a bucket.
pub struct BucketInfo {
    pub params_url: String,
    pub query_url: String,
}

impl BucketInfo {
    /// Finds the server of bucket `id`, with `buckets_per_instance` buckets on
    /// each server in order, and gives its addresses for parameters and for
    /// queries.
    pub fn new(id: usize, instance_urls: Vec<String>, buckets_per_instance: usize) -> (info: Self)
        requires
            id < buckets_per_instance * instance_urls.len() <= usize::MAX,
        ensures
            id / buckets_per_instance < instance_urls.len(),
            info.params_url@ == "http://"@ + instance_urls[id as int / buckets_per_instance as int]@
                + "/params"@,
            info.query_url@ == "http://"@ + instance_urls[id as int / buckets_per_instance as int]@
                + "/query"@,
    {
        proof {
            assert(buckets_per_instance > 0) by (nonlinear_arith)
                requires
                    id < buckets_per_instance * instance_urls.len(),
            ;
        }
        let mut base_url = String::from_str("http://");
        let mut i: usize = 0;
        let mut found: bool = false;
        while i < instance_urls.len() && !found
            invariant
                i <= instance_urls.len(),
                buckets_per_instance > 0,
                id < buckets_per_instance * instance_urls.len() <= usize::MAX,
                !found ==> buckets_per_instance * i <= id && base_url@ == "http://"@,
                found ==> id / buckets_per_instance < instance_urls.len() && base_url@
                    == "http://"@ + instance_urls[id as int / buckets_per_instance as int]@,
            decreases instance_urls.len() - i + if found { 0int } else { 1int },
        {
            proof {
                assert(buckets_per_instance * (i + 1) <= buckets_per_instance * instance_urls.len())
                    by (nonlinear_arith)
                    requires
                        i + 1 <= instance_urls.len(),
                        buckets_per_instance >= 0,
                ;
                assert(buckets_per_instance * (i + 1) == buckets_per_instance * i
                    + buckets_per_instance) by (nonlinear_arith);
            }
            if id < buckets_per_instance * (i + 1) {
                proof {
                    assert(i * buckets_per_instance == buckets_per_instance * i)
                        by (nonlinear_arith);
                    vstd::arithmetic::div_mod::lemma_fundamental_div_mod_converse(
                        id as int,
                        buckets_per_instance as int,
                        i as int,
                        id - buckets_per_instance * i,
                    );
                }
                base_url = base_url.concat(instance_urls[i].as_str());
                found = true;
            } else {
                i = i + 1;
            }
        }
        assert(found);
        let params_url = base_url.clone().concat("/params");
        let query_url = base_url.concat("/query");
        Self { params_url, query_url }
    }
}

/// What a user asks the client for.
pub struct Credential {
    pub username: String,
    pub password: String,
    /// The least number of query parameters to derive ahead of time.
    pub n_preprocess: usize,
    /// The path of a local configuration, or nothing.
    pub config_path: String,
    /// Whether there is a local configuration.
    pub local_env: bool,
}

impl Credential {
    /// Puts the flags of the command line together. There is a local
    /// configuration exactly where a path to one is given.
    ///
    /// Fails where a username or a password is missing, or where the number
    /// of parameters is no number.
    pub fn from_flags(
        username: Option<String>,
        password: Option<String>,
        n_preprocess: &str,
        config_path: String,
    ) -> (credential: Result<Self, String>)
        ensures
            match credential {
                Ok(c) => {
                    &&& username == Some(c.username)
                    &&& password == Some(c.password)
                    &&& parsed_number(n_preprocess@) == Some(c.n_preprocess as nat)
                    &&& c.config_path == config_path
                    &&& c.local_env == (config_path@.len() > 0)
                },
                Err(reason) => {
                    ||| username is None && reason@ == "--username not provided"@
                    ||| username is Some && password is None && reason@
                        == "--password not provided"@
                    ||| {
                        &&& username is Some
                        &&& password is Some
                        &&& reason@ == "--n_preprocess is no number"@
                        &&& match parsed_number(n_preprocess@) {
                            Some(n) => n > usize::MAX,
                            None => true,
                        }
                    }
                },
            },
    {
        let username = match username {
            Some(u) => u,
            None => {
                return Err(String::from_str("--username not provided"));
            },
        };
        let password = match password {
            Some(p) => p,
            None => {
                return Err(String::from_str("--password not provided"));
            },
        };
        let n_preprocess: usize = match parse_number(n_preprocess, usize::MAX as u64) {
            Some(n) => n as usize,
            None => {
                return Err(String::from_str("--n_preprocess is no number"));
            },
        };
        let local_env = config_path.as_str().unicode_len() > 0;
        Ok(Self { username, password, n_preprocess, config_path, local_env })
    }
}

/// The addresses of the servers of a local configuration: every port on the
/// local host, in order.
pub fn remote_instances_from_config(config: &Config) -> (urls: Vec<String>)
    ensures
        urls.len() == config.instances.len(),
        forall|i: int|
            0 <= i < urls.len() ==> (#[trigger] urls[i])@ == "0.0.0.0:"@ + config.instances[i].port@,
{
    let mut instances_url: Vec<String> = Vec::new();
    let mut i: usize = 0;
    while i < config.instances.len()
        invariant
            i <= config.instances.len(),
            instances_url.len() == i,
            forall|k: int|
                0 <= k < i ==> (#[trigger] instances_url[k])@ == "0.0.0.0:"@
                    + config.instances[k].port@,
        decreases config.instances.len() - i,
    {
        instances_url.push(
            String::from_str("0.0.0.0:").concat(config.instances[i].port.as_str()),
        );
        i = i + 1;
    }
    instances_url
}

/// The number of buckets of a local configuration: as many as a server holds,
/// times the number of servers.
pub fn calculate_buckets_total(config: &Config) -> (total: usize)
    requires
        config.buckets_per_instance * config.instances.len() <= usize::MAX,
    ensures
        total == config.buckets_per_instance * config.instances.len(),
{
    config.buckets_per_instance * config.instances.len()
}

/// The number of query parameters to derive before `needed` queries are
/// sent, where `existing` are at hand already, or none was ever derived, and
/// `n_preprocess` is the least number to hold.
///
/// With none ever derived it is the larger of `n_preprocess` and `needed`.
/// With enough at hand it is zero. With fewer at hand than needed it is what
/// they lack of `n_preprocess`.
pub fn queries_to_preprocess(existing: Option<usize>, needed: usize, n_preprocess: usize) -> (n:
    usize)
    requires
        existing matches Some(e) ==> e >= needed || e <= n_preprocess,
    ensures
        n == match existing {
            Some(e) => if e < needed {
                n_preprocess - e
            } else {
                0
            },
            None => if n_preprocess < needed {
                needed as int
            } else {
                n_preprocess as int
            },
        },
{
    match existing {
        Some(e) => if e < needed {
            n_preprocess - e
        } else {
            0
        },
        None => if n_preprocess < needed {
            needed
        } else {
            n_preprocess
        },
    }
}

} // verus!
