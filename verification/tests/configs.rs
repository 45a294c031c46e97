use frodo_pir::cli::{parse_exp_to_usize, CLIFlags};
use frodo_pir::client::{
    calculate_buckets_total, queries_to_preprocess, remote_instances_from_config, BucketInfo,
    Config, ConfigInstances, Credential, BUCKETS_PER_INSTANCE_DEFAULT, BUCKETS_TOTAL_DEFAULT,
    HEX_PREFIX_LEN,
};
use frodo_pir::numbers::{decimal_string, parse_number, parse_number_in, signed_decimal_string};
use frodo_pir::server::configs::{
    get_common_configs, get_configs_local, get_configs_release, get_env_configs,
    parse_shards_interval, EnvValues, ServerConfigErr, ENV_LOCAL, ENV_RELEASE,
};

fn text(s: &str) -> Option<String> {
    Some(s.to_string())
}

fn values() -> EnvValues {
    EnvValues {
        env: None,
        port: text("8080"),
        shard_dir: text("/data"),
        shards_interval: text("3-5"),
        oprf_key: text(&base64::encode([9u8; 32])),
        bucket: text("leaks"),
    }
}

#[test]
fn numbers_are_written_in_decimal() {
    assert_eq!(decimal_string(0), "0");
    assert_eq!(decimal_string(7), "7");
    assert_eq!(decimal_string(10), "10");
    assert_eq!(decimal_string(1572), "1572");
    assert_eq!(decimal_string(usize::MAX), usize::MAX.to_string());
}

#[test]
fn numbers_are_read_from_decimal() {
    assert_eq!(parse_number("0", 10), Some(0));
    assert_eq!(parse_number("42", 100), Some(42));
    assert_eq!(parse_number("+42", 100), Some(42));
    assert_eq!(parse_number("007", 100), Some(7));
    assert_eq!(parse_number("100", 100), Some(100));
    assert_eq!(parse_number("101", 100), None);
    assert_eq!(parse_number("", 100), None);
    assert_eq!(parse_number("+", 100), None);
    assert_eq!(parse_number("-1", 100), None);
    assert_eq!(parse_number("4 2", 100), None);
    assert_eq!(parse_number("12a", 100), None);
    assert_eq!(parse_number("18446744073709551615", u64::MAX), Some(u64::MAX));
    assert_eq!(parse_number("18446744073709551616", u64::MAX), None);
    assert_eq!(parse_number("99999999999999999999999", u64::MAX), None);
    assert_eq!(parse_number_in("ab123cd", 2, 5, 1000), Some(123));
    assert_eq!(parse_number_in("ab123cd", 2, 2, 1000), None);
    for n in [0usize, 9, 10, 99, 12345, usize::MAX] {
        assert_eq!(parse_number(&decimal_string(n), u64::MAX), Some(n as u64));
    }
}

#[test]
fn interval_names_its_shards() {
    assert_eq!(parse_shards_interval("3-5").unwrap(), vec!["3", "4", "5"]);
    assert_eq!(parse_shards_interval("0-0").unwrap(), vec!["0"]);
    assert_eq!(parse_shards_interval("9-11").unwrap(), vec!["9", "10", "11"]);
    assert_eq!(parse_shards_interval("1,0-1,2").unwrap(), vec!["10", "11", "12"]);
    assert_eq!(parse_shards_interval("5-3").unwrap(), Vec::<String>::new());
    let last = usize::MAX.to_string();
    assert_eq!(
        parse_shards_interval(&format!("{}-{}", last, last)).unwrap(),
        vec![last]
    );
}

#[test]
fn interval_needs_two_numbers_around_one_dash() {
    for bad in ["", "3", "3-4-5", "--", "3,4"] {
        assert_eq!(
            parse_shards_interval(bad).unwrap_err(),
            "SHARDS_INTERVAL should be an interval, e.g. `3-10`"
        );
    }
    for bad in ["-", "3-", "-4", "a-4", "3-b", "3 - 4", "3-99999999999999999999999"] {
        assert_eq!(
            parse_shards_interval(bad).unwrap_err(),
            "SHARDS_INTERVAL bounds should be numbers"
        );
    }
}

#[test]
fn common_configs_come_from_the_values() {
    let (port, dir, shards, key) = get_common_configs(&values()).unwrap();
    assert_eq!(port, "8080");
    assert_eq!(dir, "/data");
    assert_eq!(shards, vec!["3", "4", "5"]);
    assert_eq!(key, vec![9u8; 32]);
    let mut with_commas = values();
    let encoded = base64::encode([1u8, 2, 3, 4, 5, 6]);
    with_commas.oprf_key = Some(format!("{},{}", &encoded[..4], &encoded[4..]));
    assert_eq!(get_common_configs(&with_commas).unwrap().3, vec![1, 2, 3, 4, 5, 6]);
}

#[test]
fn first_missing_value_is_reported() {
    let mut v = values();
    v.oprf_key = text("not base64 !!");
    assert_eq!(get_common_configs(&v).unwrap_err(), "Invalid OPRF_KEY format");
    v.oprf_key = None;
    assert_eq!(get_common_configs(&v).unwrap_err(), "OPRF_KEY should be provided");
    v.shards_interval = text("7");
    assert_eq!(
        get_common_configs(&v).unwrap_err(),
        "SHARDS_INTERVAL should be an interval, e.g. `3-10`"
    );
    v.shards_interval = text("x-7");
    assert_eq!(get_common_configs(&v).unwrap_err(), "SHARDS_INTERVAL bounds should be numbers");
    v.shards_interval = None;
    assert_eq!(get_common_configs(&v).unwrap_err(), "SHARDS_INTERVAL should be provided");
    v.shard_dir = None;
    assert_eq!(get_common_configs(&v).unwrap_err(), "SHARD_DIR should be provided");
    v.port = None;
    assert_eq!(get_common_configs(&v).unwrap_err(), "PORT should be provided");
}

#[test]
fn local_and_release_configs_differ_in_the_bucket() {
    let local = get_configs_local(&values()).unwrap();
    assert_eq!(local.bucket, "nan");
    assert!(!local.release);
    assert_eq!(local.port, "8080");
    assert_eq!(local.shards, vec!["3", "4", "5"]);
    let release = get_configs_release(&values()).unwrap();
    assert_eq!(release.bucket, "leaks");
    assert!(release.release);
    assert_eq!(release.oprf_key, vec![9u8; 32]);
    let mut v = values();
    v.bucket = None;
    assert!(get_configs_local(&v).is_ok());
    let err = get_configs_release(&v).unwrap_err();
    assert_eq!(err.message(), "Server configs error: BUCKET should be provided");
    v.port = None;
    assert_eq!(
        get_configs_release(&v).unwrap_err().message(),
        "Server configs error: PORT should be provided"
    );
    assert_eq!(
        get_configs_local(&v).unwrap_err().message(),
        "Server configs error: PORT should be provided"
    );
    assert_eq!(ServerConfigErr::throw("why").message(), "Server configs error: why");
}

#[test]
fn environment_picks_the_configuration() {
    assert_eq!(ENV_LOCAL, "local");
    assert_eq!(ENV_RELEASE, "release");
    let mut v = values();
    assert!(get_env_configs(&v).unwrap().release);
    v.env = text("release");
    assert!(get_env_configs(&v).unwrap().release);
    v.env = text("anything");
    assert_eq!(get_env_configs(&v).unwrap().bucket, "leaks");
    v.env = text("local");
    let local = get_env_configs(&v).unwrap();
    assert!(!local.release);
    assert_eq!(local.bucket, "nan");
    v.bucket = None;
    assert!(get_env_configs(&v).is_ok());
    v.env = None;
    assert!(get_env_configs(&v).is_err());
}

#[test]
fn bucket_is_found_on_its_server() {
    let urls = vec!["a:1".to_string(), "b:2".to_string(), "c:3".to_string()];
    for (id, host) in [(0, "a:1"), (3, "a:1"), (4, "b:2"), (7, "b:2"), (8, "c:3"), (11, "c:3")] {
        let info = BucketInfo::new(id, urls.clone(), 4);
        assert_eq!(info.params_url, format!("http://{}/params", host));
        assert_eq!(info.query_url, format!("http://{}/query", host));
    }
    let one = BucketInfo::new(0, vec!["h".to_string()], 1);
    assert_eq!(one.params_url, "http://h/params");
}

#[test]
fn local_configuration_names_its_servers() {
    assert_eq!(HEX_PREFIX_LEN, 16);
    assert_eq!(BUCKETS_TOTAL_DEFAULT, 16);
    assert_eq!(BUCKETS_PER_INSTANCE_DEFAULT, 4);
    let config = Config {
        db_content_path: "db".to_string(),
        buckets_path: "buckets".to_string(),
        oprf_key: "key".to_string(),
        buckets_per_instance: 4,
        instances: vec![
            ConfigInstances { port: "8080".to_string(), shards: "0-3".to_string() },
            ConfigInstances { port: "8081".to_string(), shards: "4-7".to_string() },
        ],
    };
    assert_eq!(remote_instances_from_config(&config), vec!["0.0.0.0:8080", "0.0.0.0:8081"]);
    assert_eq!(calculate_buckets_total(&config), 8);
    let empty = Config { instances: vec![], ..config };
    assert_eq!(remote_instances_from_config(&empty), Vec::<String>::new());
    assert_eq!(calculate_buckets_total(&empty), 0);
}

#[test]
fn flags_make_a_credential() {
    let c = Credential::from_flags(text("user"), text("pass"), "1", String::new()).unwrap();
    assert_eq!(c.username, "user");
    assert_eq!(c.password, "pass");
    assert_eq!(c.n_preprocess, 1);
    assert_eq!(c.config_path, "");
    assert!(!c.local_env);
    let local =
        Credential::from_flags(text("u"), text("p"), "16", "conf.yaml".to_string()).unwrap();
    assert_eq!(local.n_preprocess, 16);
    assert!(local.local_env);
    assert_eq!(
        Credential::from_flags(None, text("p"), "1", String::new()).err().unwrap(),
        "--username not provided"
    );
    assert_eq!(
        Credential::from_flags(text("u"), None, "1", String::new()).err().unwrap(),
        "--password not provided"
    );
    assert_eq!(
        Credential::from_flags(text("u"), text("p"), "many", String::new()).err().unwrap(),
        "--n_preprocess is no number"
    );
}

#[test]
fn parameters_are_derived_as_needed() {
    // none was ever derived: the larger of the two
    assert_eq!(queries_to_preprocess(None, 1, 16), 16);
    assert_eq!(queries_to_preprocess(None, 20, 16), 20);
    assert_eq!(queries_to_preprocess(None, 0, 0), 0);
    // enough at hand
    assert_eq!(queries_to_preprocess(Some(5), 3, 16), 0);
    assert_eq!(queries_to_preprocess(Some(3), 3, 1), 0);
    // fewer at hand than needed: what they lack of the number to hold
    assert_eq!(queries_to_preprocess(Some(2), 3, 16), 14);
    assert_eq!(queries_to_preprocess(Some(0), 1, 1), 1);
}

#[test]
fn exponents_give_powers_of_two() {
    assert_eq!(parse_exp_to_usize("0"), Some(1));
    assert_eq!(parse_exp_to_usize("16"), Some(65536));
    assert_eq!(parse_exp_to_usize("13"), Some(8192));
    assert_eq!(parse_exp_to_usize("31"), Some(1 << 31));
    assert_eq!(parse_exp_to_usize("x"), None);
    assert_eq!(parse_exp_to_usize(""), None);
    assert_eq!(parse_exp_to_usize("-3"), None);
    assert_eq!(parse_exp_to_usize("4294967296"), None);
}

#[test]
fn scheme_parameters_have_defaults() {
    let flags = CLIFlags::default();
    assert_eq!(flags.matrix_height, 1 << 16);
    assert_eq!(flags.lwe_dim, 2048);
    assert_eq!(flags.plaintext_bits, 10);
    assert_eq!(flags.ele_size, 1 << 13);
    let read = CLIFlags::from_values("8", "1572", "10", "12").unwrap();
    assert_eq!(read.ele_size, 256);
    assert_eq!(read.lwe_dim, 1572);
    assert_eq!(read.plaintext_bits, 10);
    assert_eq!(read.matrix_height, 4096);
    assert!(CLIFlags::from_values("8", "dim", "10", "12").is_none());
    assert!(CLIFlags::from_values("", "1572", "10", "12").is_none());
    assert!(CLIFlags::from_values("8", "1572", "10", "x").is_none());
    assert!(CLIFlags::from_values("8", "1572", "", "12").is_none());
}

#[test]
fn signed_numbers_are_written_in_decimal() {
    assert_eq!(signed_decimal_string(0), "0");
    assert_eq!(signed_decimal_string(-32600), "-32600");
    assert_eq!(signed_decimal_string(-32602), "-32602");
    assert_eq!(signed_decimal_string(i32::MAX), "2147483647");
    assert_eq!(signed_decimal_string(i32::MIN), "-2147483648");
}
