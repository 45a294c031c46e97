//! The configuration of a server, from the values of its environment.
//!
//! The caller reads the environment; what the values mean is decided here.
//! `SHARDS_INTERVAL` names the shards to serve as `a-b`, both ends included;
//! `OPRF_KEY` is the key of the oblivious pseudorandom function as base64
//! text. Commas in either are ignored.
use crate::numbers::{decimal_string, decimal_text, parse_number_in, parsed_number};
use crate::trusted::text::{base64_decode, base64_decoding, no_commas, remove_commas};
use vstd::prelude::*;

verus! {

/// The value of `ENV` for a server with its shards on disk.
pub const ENV_LOCAL: &'static str = "local";

/// The value of `ENV` for a server with its shards in a bucket of an object store.
pub const ENV_RELEASE: &'static str = "release";

/// The values of the environment that configure a server, each as it was
/// found, or nothing where the variable is not set.
pub struct EnvValues {
    pub env: Option<String>,
    pub port: Option<String>,
    pub shard_dir: Option<String>,
    pub shards_interval: Option<String>,
    pub oprf_key: Option<String>,
    pub bucket: Option<String>,
}

/// The configuration of a server.
#[derive(Debug, Clone)]
pub struct ServerConfig {
    pub port: String,
    pub shard_dir: String,
    /// The names of the shards to serve.
    pub shards: Vec<String>,
    /// The bucket of the object store that holds the shards.
    pub bucket: String,
    pub oprf_key: Vec<u8>,
    /// Whether the shards come from the object store.
    pub release: bool,
}

/// Why there is no configuration.
#[derive(Debug, Clone)]
pub struct ServerConfigErr {
    reason: String,
}

impl ServerConfigErr {
    /// The reason.
    pub closed spec fn reason(&self) -> Seq<char> {
        self.reason@
    }

    /// The error with a reason.
    pub fn throw(reason: &str) -> (error: Self)
        ensures
            error.reason() == reason@,
    {
        Self { reason: String::from_str(reason) }
    }

    /// The message of this error.
    pub fn message(&self) -> (text: String)
        ensures
            text@ == "Server configs error: "@ + self.reason(),
    {
        String::from_str("Server configs error: ").concat(self.reason.as_str())
    }
}

/// The texts that a vector of strings holds.
pub open spec fn texts(v: Seq<String>) -> Seq<Seq<char>> {
    Seq::new(v.len(), |i: int| v[i]@)
}

/// The text has its one dash at `i`.
pub open spec fn dash_split(text: Seq<char>, i: int) -> bool {
    &&& 0 <= i < text.len()
    &&& forall|k: int| 0 <= k < text.len() ==> (#[trigger] text[k] == '-' <==> k == i)
}

/// The text, commas apart, is two parts with one dash between them.
pub open spec fn has_one_dash(text: Seq<char>) -> bool {
    exists|i: int| dash_split(no_commas(text), i)
}

/// The two ends of the interval that a text names, or nothing where the text
/// is not two numbers of the size of a length with one dash between them.
pub open spec fn interval_of(text: Seq<char>) -> Option<(nat, nat)> {
    let clean = no_commas(text);
    if has_one_dash(text) {
        let i = choose|i: int| dash_split(clean, i);
        match (parsed_number(clean.take(i)), parsed_number(clean.skip(i + 1))) {
            (Some(left), Some(right)) => if left <= usize::MAX && right <= usize::MAX {
                Some((left, right))
            } else {
                None
            },
            _ => None,
        }
    } else {
        None
    }
}

/// The names of the shards from `left` to `right`, both included: their
/// numbers as decimal text. There is none where `left` is above `right`.
pub open spec fn shards_between(left: nat, right: nat) -> Seq<Seq<char>> {
    Seq::new(
        if left <= right {
            (right + 1 - left) as nat
        } else {
            0
        },
        |k: int| decimal_text((left + k) as nat),
    )
}

/// The reason given for an interval that is not two parts around one dash.
pub open spec fn reason_no_interval() -> Seq<char> {
    "SHARDS_INTERVAL should be an interval, e.g. `3-10`"@
}

/// The reason given for an end of the interval that is no number.
pub open spec fn reason_bad_bound() -> Seq<char> {
    "SHARDS_INTERVAL bounds should be numbers"@
}

/// Reads the interval of shards to serve and names every shard in it.
///
/// Fails where the text is not two parts around one dash, and where a part
/// is no number.
pub fn parse_shards_interval(text: &str) -> (shards: Result<Vec<String>, String>)
    ensures
        match shards {
            Ok(shards) => interval_of(text@) matches Some((left, right)) && texts(shards@)
                == shards_between(left, right),
            Err(reason) => interval_of(text@) is None && reason@ == if has_one_dash(text@) {
                reason_bad_bound()
            } else {
                reason_no_interval()
            },
        },
{
    let clean = remove_commas(text);
    let len: usize = clean.as_str().unicode_len();
    let mut dash: usize = len;
    let mut found: usize = 0;
    let mut i: usize = 0;
    while i < len
        invariant
            i <= len,
            len == clean@.len(),
            found <= i,
            found == 0 ==> forall|k: int| 0 <= k < i ==> clean@[k] != '-',
            found == 1 ==> dash < i && clean@[dash as int] == '-' && forall|k: int|
                0 <= k < i ==> (#[trigger] clean@[k] == '-' <==> k == dash),
            found >= 2 ==> exists|a: int, b: int|
                0 <= a < b < i && clean@[a] == '-' && clean@[b] == '-',
        decreases len - i,
    {
        if clean.as_str().get_char(i) == '-' {
            proof {
                if found == 1 {
                    assert(clean@[dash as int] == '-' && clean@[i as int] == '-');
                }
            }
            if found == 0 {
                dash = i;
            }
            found = found + 1;
        }
        i = i + 1;
    }
    if found != 1 {
        proof {
            assert forall|j: int| !dash_split(clean@, j) by {
                if dash_split(clean@, j) {
                    if found == 0 {
                        assert(clean@[j] != '-');
                    } else {
                        let (a, b) = choose|a: int, b: int|
                            0 <= a < b < len && clean@[a] == '-' && clean@[b] == '-';
                        assert(clean@[a] == '-' <==> a == j);
                        assert(clean@[b] == '-' <==> b == j);
                    }
                }
            }
        }
        return Err(String::from_str("SHARDS_INTERVAL should be an interval, e.g. `3-10`"));
    }
    proof {
        assert(dash_split(clean@, dash as int));
        let chosen = choose|j: int| dash_split(clean@, j);
        assert(clean@[chosen] == '-' <==> chosen == dash);
        assert(clean@.take(dash as int) =~= clean@.subrange(0, dash as int));
        assert(clean@.skip(dash as int + 1) =~= clean@.subrange(dash as int + 1, len as int));
    }
    let left = parse_number_in(clean.as_str(), 0, dash, usize::MAX as u64);
    let right = parse_number_in(clean.as_str(), dash + 1, len, usize::MAX as u64);
    let (left_bound, right_bound) = match (left, right) {
        (Some(l), Some(r)) => (l as usize, r as usize),
        _ => {
            return Err(String::from_str("SHARDS_INTERVAL bounds should be numbers"));
        },
    };
    let mut shards: Vec<String> = Vec::new();
    if left_bound <= right_bound {
        let mut n: usize = left_bound;
        loop
            invariant_except_break
                shards.len() == n - left_bound,
            invariant
                left_bound <= n <= right_bound,
                forall|k: int|
                    0 <= k < shards.len() ==> (#[trigger] shards[k])@ == decimal_text(
                        (left_bound + k) as nat,
                    ),
            ensures
                shards.len() == right_bound + 1 - left_bound,
                forall|k: int|
                    0 <= k < shards.len() ==> (#[trigger] shards[k])@ == decimal_text(
                        (left_bound + k) as nat,
                    ),
            decreases right_bound - n,
        {
            shards.push(decimal_string(n));
            if n == right_bound {
                break ;
            }
            n = n + 1;
        }
    }
    proof {
        assert(texts(shards@) =~= shards_between(left_bound as nat, right_bound as nat));
    }
    Ok(shards)
}

/// What is wrong with the values that every configuration needs, if anything:
/// the reason for the first of a missing port, a missing directory, a missing
/// or unfit interval, and a missing or unfit key.
pub open spec fn common_fault(values: EnvValues) -> Option<Seq<char>> {
    if values.port is None {
        Some("PORT should be provided"@)
    } else if values.shard_dir is None {
        Some("SHARD_DIR should be provided"@)
    } else if values.shards_interval is None {
        Some("SHARDS_INTERVAL should be provided"@)
    } else if !has_one_dash(values.shards_interval.unwrap()@) {
        Some(reason_no_interval())
    } else if interval_of(values.shards_interval.unwrap()@) is None {
        Some(reason_bad_bound())
    } else if values.oprf_key is None {
        Some("OPRF_KEY should be provided"@)
    } else if base64_decoding(no_commas(values.oprf_key.unwrap()@)) is None {
        Some("Invalid OPRF_KEY format"@)
    } else {
        None
    }
}

/// The values are those of a configuration: the port and the directory as
/// they were set, the shards of the interval, and the key that the text of
/// the key stands for.
pub open spec fn common_values(
    values: EnvValues,
    port: Seq<char>,
    shard_dir: Seq<char>,
    shards: Seq<Seq<char>>,
    oprf_key: Seq<u8>,
) -> bool {
    &&& values.port matches Some(p) && port == p@
    &&& values.shard_dir matches Some(d) && shard_dir == d@
    &&& values.shards_interval matches Some(text) && interval_of(text@) matches Some((left, right))
        && shards == shards_between(left, right)
    &&& values.oprf_key matches Some(key) && base64_decoding(no_commas(key@)) == Some(oprf_key)
}

/// Works out what every configuration needs: the port, the directory of the
/// shards, the names of the shards and the key.
///
/// Fails with the reason for the first value that is missing or unfit.
pub fn get_common_configs(values: &EnvValues) -> (common: Result<
    (String, String, Vec<String>, Vec<u8>),
    String,
>)
    ensures
        match common {
            Ok((port, shard_dir, shards, oprf_key)) => common_fault(*values) is None
                && common_values(*values, port@, shard_dir@, texts(shards@), oprf_key@),
            Err(reason) => common_fault(*values) == Some(reason@),
        },
{
    let port = match &values.port {
        Some(v) => v.clone(),
        None => {
            return Err(String::from_str("PORT should be provided"));
        },
    };
    let shard_dir = match &values.shard_dir {
        Some(v) => v.clone(),
        None => {
            return Err(String::from_str("SHARD_DIR should be provided"));
        },
    };
    let shards = match &values.shards_interval {
        Some(v) => match parse_shards_interval(v.as_str()) {
            Ok(shards) => shards,
            Err(reason) => {
                return Err(reason);
            },
        },
        None => {
            return Err(String::from_str("SHARDS_INTERVAL should be provided"));
        },
    };
    let oprf_key = match &values.oprf_key {
        Some(v) => {
            let clean = remove_commas(v.as_str());
            match base64_decode(clean.as_str()) {
                Ok(key) => key,
                Err(_) => {
                    return Err(String::from_str("Invalid OPRF_KEY format"));
                },
            }
        },
        None => {
            return Err(String::from_str("OPRF_KEY should be provided"));
        },
    };
    Ok((port, shard_dir, shards, oprf_key))
}

/// The configuration of a server that finds its shards on disk.
///
/// Fails with the reason for the first value that is missing or unfit.
pub fn get_configs_local(values: &EnvValues) -> (config: Result<ServerConfig, ServerConfigErr>)
    ensures
        match config {
            Ok(config) => {
                &&& common_fault(*values) is None
                &&& common_values(
                    *values,
                    config.port@,
                    config.shard_dir@,
                    texts(config.shards@),
                    config.oprf_key@,
                )
                &&& config.bucket@ == "nan"@
                &&& !config.release
            },
            Err(e) => common_fault(*values) == Some(e.reason()),
        },
{
    let (port, shard_dir, shards, oprf_key) = match get_common_configs(values) {
        Ok(results) => results,
        Err(e) => {
            return Err(ServerConfigErr::throw(e.as_str()));
        },
    };
    Ok(
        ServerConfig {
            port,
            shard_dir,
            shards,
            bucket: String::from_str("nan"),
            oprf_key,
            release: false,
        },
    )
}

/// The configuration of a server that finds its shards in a bucket of an
/// object store.
///
/// Fails with the reason for the first value that is missing or unfit; the
/// bucket comes last.
pub fn get_configs_release(values: &EnvValues) -> (config: Result<ServerConfig, ServerConfigErr>)
    ensures
        match config {
            Ok(config) => {
                &&& common_fault(*values) is None
                &&& common_values(
                    *values,
                    config.port@,
                    config.shard_dir@,
                    texts(config.shards@),
                    config.oprf_key@,
                )
                &&& values.bucket matches Some(bucket) && config.bucket@ == bucket@
                &&& config.release
            },
            Err(e) => match common_fault(*values) {
                Some(reason) => e.reason() == reason,
                None => values.bucket is None && e.reason() == "BUCKET should be provided"@,
            },
        },
{
    let (port, shard_dir, shards, oprf_key) = match get_common_configs(values) {
        Ok(results) => results,
        Err(e) => {
            return Err(ServerConfigErr::throw(e.as_str()));
        },
    };
    let bucket = match &values.bucket {
        Some(v) => v.clone(),
        None => {
            return Err(ServerConfigErr::throw("BUCKET should be provided"));
        },
    };
    Ok(ServerConfig { port, shard_dir, shards, bucket, oprf_key, release: true })
}

/// The environment asks for a server with its shards on disk: `ENV` is "local".
pub open spec fn is_local(values: EnvValues) -> bool {
    values.env matches Some(env) && env@ == "local"@
}

/// The configuration that the environment asks for: that of a server with
/// its shards on disk where `ENV` is "local", else that of a server with its
/// shards in an object store.
pub fn get_env_configs(values: &EnvValues) -> (config: Result<ServerConfig, ServerConfigErr>)
    ensures
        match config {
            Ok(config) => {
                &&& common_fault(*values) is None
                &&& common_values(
                    *values,
                    config.port@,
                    config.shard_dir@,
                    texts(config.shards@),
                    config.oprf_key@,
                )
                &&& config.release == !is_local(*values)
                &&& is_local(*values) ==> config.bucket@ == "nan"@
                &&& !is_local(*values) ==> (values.bucket matches Some(bucket) && config.bucket@
                    == bucket@)
            },
            Err(e) => match common_fault(*values) {
                Some(reason) => e.reason() == reason,
                None => !is_local(*values) && values.bucket is None && e.reason()
                    == "BUCKET should be provided"@,
            },
        },
{
    let local = match &values.env {
        Some(env) => {
            let wanted = String::from_str(ENV_LOCAL);
            *env == wanted
        },
        None => false,
    };
    if local {
        get_configs_local(values)
    } else {
        get_configs_release(values)
    }
}

} // verus!
