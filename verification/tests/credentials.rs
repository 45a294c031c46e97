use frodo_pir::api::{QueryParams, Shard};
use frodo_pir::credentials::api::{
    client_get_bucket_id, client_message_from_blinding, client_prepare_pir_queries,
    client_prepare_queries, client_preproc_n_queries, client_process_output,
    load_bucket_from_hashes, pir_outputs_match, server_answer_queries,
    server_calculate_response, ClientBucketParams, ClientMessage, ClientState, ServerResponse,
};
use frodo_pir::credentials::errors::C3Error;
use frodo_pir::credentials::keyword::{KeywordIndexMapping, LocalHashPrefixTable};
use frodo_pir::credentials::utils::{get_mod_prefix, get_prefix};
use frodo_pir::errors::PirError;
use frodo_pir::server::frodopir::{
    metadata_file_path, shard_file_path, shard_source, BucketMetadata, ShardSource,
};
use p256::NistP256;
use sha2::{Digest, Sha256};
use voprf::{BlindedElement, EvaluationElement, OprfClient, OprfServer};

const TEST_CREDENTIALS: [&str; 16] = [
    "poc-test@mail.com:poc-pwd",
    "some_email@email.com:some_password",
    "some_email@email.com:some_password1",
    "some_email@email.com:some_password2",
    "some_email1@email.com:some_password",
    "some_email1@email.com:some_password1",
    "some_email1@email.com:some_password2",
    "some_email2@email.com:some_password",
    "some_email2@email.com:some_password1",
    "some_email2@email.com:some_password2",
    "some_email3@email.com:some_password",
    "some_email3@email.com:some_password1",
    "some_email3@email.com:some_password2",
    "some_email4@email.com:some_password",
    "some_email4@email.com:some_password1",
    "some_email4@email.com:some_password2",
];

fn oprf_key() -> Vec<u8> {
    let mut key = vec![0x11u8; 32];
    key[0] = 0x01;
    key
}

fn credential(i: usize) -> String {
    String::from(TEST_CREDENTIALS[i]).replace(':', "")
}

/// The rows of the bucket: the keyed hash of every credential, as base64.
fn bucket_rows() -> Vec<String> {
    let server = OprfServer::<NistP256>::new_with_key(&oprf_key()).unwrap();
    (0..16)
        .map(|i| base64::encode(server.evaluate(credential(i).as_bytes()).unwrap()))
        .collect()
}

/// The rows of the keyword table: the SHA-256 digest of every credential, as base64.
fn prefix_rows() -> Vec<String> {
    (0..16)
        .map(|i| base64::encode(Sha256::digest(credential(i).as_bytes())))
        .collect()
}

fn fixture_bucket() -> Shard {
    load_bucket_from_hashes(&bucket_rows(), 1572, 256, 10).unwrap()
}

/// The message and state of a client for `indices`, from fresh parameters; a
/// draw that leaves no room for the indicator is drawn again.
fn client_message(
    cbp: &ClientBucketParams,
    indices: &[usize],
    input: &[u8],
) -> (ClientMessage, ClientState) {
    for _ in 0..64 {
        let qps = client_preproc_n_queries(cbp, indices.len()).unwrap();
        match client_prepare_queries(&qps, indices, input) {
            Ok(message) => return message,
            Err(C3Error::PIRError(PirError::OverflowAdd(_))) => continue,
            Err(e) => panic!("{}", e.message()),
        }
    }
    panic!("no message after 64 draws");
}

#[test]
fn end_to_end() {
    let hashed = bucket_rows();
    let bucket = load_bucket_from_hashes(&hashed, 1572, 256, 10).unwrap();
    let oprf_key = oprf_key();
    let cbp = ClientBucketParams::from(bucket.get_base_params().clone());
    for idx in 0..TEST_CREDENTIALS.len() {
        let cred = credential(idx);
        let (cm, cs) = client_message(&cbp, &[idx], cred.as_bytes());
        let sresp = server_calculate_response(&bucket, &cm, &oprf_key).unwrap();
        let output = client_process_output(&sresp, &cs);
        match output {
            Ok(m) => assert!(m, "Failed to assert for {}", idx),
            Err(e) => panic!("Error occurred for index {}: {}", idx, e.message()),
        }
    }
}

#[test]
fn end_to_end_with_keyword() {
    let bucket = fixture_bucket();
    let lkm = LocalHashPrefixTable::new_from_base64_strings(&prefix_rows(), 16).unwrap();
    let oprf_key = oprf_key();
    let cbp = ClientBucketParams::from(bucket.get_base_params().clone());
    let test_cred = credential(0);
    let indices = lkm.get_indices(test_cred.as_bytes());
    assert_eq!(indices.len(), 1);
    let (cm, cs) = client_message(&cbp, &indices, test_cred.as_bytes());
    let sresp = server_calculate_response(&bucket, &cm, &oprf_key).unwrap();
    let matched = client_process_output(&sresp, &cs).unwrap();
    assert!(matched);
}

#[test]
fn member_credential_hits_the_row_of_its_digest() {
    let lkm = LocalHashPrefixTable::new_from_base64_strings(&prefix_rows(), 16).unwrap();
    assert_eq!(lkm.len(), 16);
    assert!(!lkm.is_empty());
    assert_eq!(lkm.get_prefix_bit_len(), 16);
    assert_eq!(lkm.get_indices("poc-test@mail.compoc-pwd".as_bytes()), vec![0]);
    for i in 0..16 {
        assert!(lkm.get_indices(credential(i).as_bytes()).contains(&i));
    }
}

#[test]
fn credential_that_is_no_member_is_safe() {
    let bucket = fixture_bucket();
    let lkm = LocalHashPrefixTable::new_from_base64_strings(&prefix_rows(), 16).unwrap();
    let oprf_key = oprf_key();
    let cbp = ClientBucketParams::from(bucket.get_base_params().clone());
    for cred in ["unknown@example.comnope", "nobody@example.com:no-match"] {
        // asked of the rows that the table names, which are most likely none
        let indices = lkm.get_indices(cred.as_bytes());
        let (cm, cs) = client_message(&cbp, &indices, cred.as_bytes());
        let sresp = server_calculate_response(&bucket, &cm, &oprf_key).unwrap();
        assert!(!client_process_output(&sresp, &cs).unwrap());
        // and asked of every row
        let all: Vec<usize> = (0..16).collect();
        let (cm, cs) = client_message(&cbp, &all, cred.as_bytes());
        let sresp = server_calculate_response(&bucket, &cm, &oprf_key).unwrap();
        assert_eq!(sresp.get_pir_resp().len(), 16);
        assert!(!client_process_output(&sresp, &cs).unwrap());
    }
}

#[test]
fn member_asked_of_another_row_does_not_match() {
    let bucket = fixture_bucket();
    let cbp = ClientBucketParams::from(bucket.get_base_params().clone());
    let cred = credential(3);
    let (cm, cs) = client_message(&cbp, &[4, 5], cred.as_bytes());
    let sresp = server_calculate_response(&bucket, &cm, &oprf_key()).unwrap();
    assert!(!client_process_output(&sresp, &cs).unwrap());
    let (cm, cs) = client_message(&cbp, &[4, 3, 5], cred.as_bytes());
    let sresp = server_calculate_response(&bucket, &cm, &oprf_key()).unwrap();
    assert!(client_process_output(&sresp, &cs).unwrap());
}

#[test]
fn table_of_a_bucket_holds_the_prefixes_of_its_rows() {
    let rows = prefix_rows();
    let bucket = load_bucket_from_hashes(&rows, 8, 256, 10).unwrap();
    let built = LocalHashPrefixTable::new(&bucket, 16);
    let read = LocalHashPrefixTable::new_from_base64_strings(&rows, 16).unwrap();
    assert_eq!(built.get_prefixes(), read.get_prefixes());
    for i in 0..16 {
        let digest = Sha256::digest(credential(i).as_bytes());
        let expected = u32::from_le_bytes([digest[0], digest[1], digest[2], digest[3]]) % 65536;
        assert_eq!(built.get_prefixes()[i], expected);
    }
    let copy = built.clone();
    assert_eq!(copy.get_prefixes(), built.get_prefixes());
}

#[test]
fn table_lists_every_row_with_the_prefix() {
    let digest = Sha256::digest(b"keyword");
    let prefix = u32::from_le_bytes([digest[0], digest[1], digest[2], digest[3]]) % 256;
    let table = LocalHashPrefixTable::from_parts(vec![prefix, prefix + 1, prefix, 0, prefix], 8);
    let mut expected = vec![0, 2, 4];
    if prefix == 0 {
        expected = vec![0, 2, 3, 4];
    }
    assert_eq!(table.get_indices(b"keyword"), expected);
    let empty = LocalHashPrefixTable::from_parts(vec![], 8);
    assert!(empty.is_empty());
    assert_eq!(empty.get_indices(b"keyword"), Vec::<usize>::new());
}

#[test]
fn table_row_that_is_no_base64_is_refused() {
    let rows = vec![base64::encode([1u8, 2, 3, 4]), "%%%".to_string()];
    assert!(matches!(
        LocalHashPrefixTable::new_from_base64_strings(&rows, 16),
        Err(C3Error::KeywordIndexMappingError)
    ));
    let short = vec![base64::encode([1u8, 2, 3])];
    let err = LocalHashPrefixTable::new_from_base64_strings(&short, 16).unwrap_err();
    assert_eq!(err.message(), "Error occurred while processing KeywordIndexMapping");
}

#[test]
fn prefix_is_the_low_bits_of_the_first_four_bytes() {
    let bytes = [0x78, 0x56, 0x34, 0x12, 0xff];
    assert_eq!(get_prefix(&bytes, 32), 0x1234_5678);
    assert_eq!(get_prefix(&bytes, 40), 0x1234_5678);
    assert_eq!(get_prefix(&bytes, 16), 0x5678);
    assert_eq!(get_prefix(&bytes, 4), 0x8);
    assert_eq!(get_prefix(&bytes, 0), 0);
    assert_eq!(get_prefix(&[0xff; 4], 31), 0x7fff_ffff);
}

#[test]
fn mod_prefix_reads_hexadecimal_digits() {
    let bytes = [0xab, 0xcd, 0xef, 0x01];
    assert_eq!(get_mod_prefix(&bytes, 1, 100), 0xa);
    assert_eq!(get_mod_prefix(&bytes, 2, 1000), 0xab);
    assert_eq!(get_mod_prefix(&bytes, 3, 1_000_000), 0xabc);
    assert_eq!(get_mod_prefix(&bytes, 8, u32::MAX), 0xabcd_ef01 % u32::MAX);
    assert_eq!(get_mod_prefix(&bytes, 4, 16), 0xabcd % 16);
    assert_eq!(get_mod_prefix(&bytes, 4, 1), 0);
    let long = [0xffu8; 8];
    assert_eq!(get_mod_prefix(&long, 16, 1000), (u64::MAX % 1000) as u32);
    // leading zeros do not count against the 64 bits
    let zeros = [0u8, 0, 0xff, 0xff, 0xff, 0xff, 0xff, 0xff, 0xff, 0xff];
    assert_eq!(get_mod_prefix(&zeros, 20, 1000), (u64::MAX % 1000) as u32);
}

#[test]
fn bucket_id_is_the_digest_prefix_modulo_the_buckets() {
    for (username, len, total) in [
        ("poc-test@mail.com", 15usize, 1u32),
        ("poc-test@mail.com", 16, 16),
        ("some_email@email.com", 8, 7),
        ("", 1, 5),
    ] {
        let hex = hex::encode(Sha256::digest(username.as_bytes()));
        let value = u64::from_str_radix(&hex[..len], 16).unwrap();
        assert_eq!(client_get_bucket_id(username, len, total), (value % total as u64) as usize);
    }
    assert_eq!(client_get_bucket_id("anyone", 16, 1), 0);
}

#[test]
fn different_numbers_of_parameters_and_indices_are_refused() {
    let qps = vec![QueryParams::from_parts(vec![1, 2], vec![3], 10, 10, false)];
    let err = client_prepare_queries(&qps, &[0, 1], b"input").err().unwrap();
    assert!(matches!(err, C3Error::ClientQueryError(1, 2)));
    assert!(err.message().contains("number of queries requested: 1"));
    assert!(matches!(
        client_prepare_queries(&[], &[0], b"input"),
        Err(C3Error::ClientQueryError(0, 1))
    ));
}

#[test]
fn queries_are_built_from_copies_of_the_parameters() {
    let qps = vec![
        QueryParams::from_parts(vec![1, 2], vec![3], 10, 10, false),
        QueryParams::from_parts(vec![5, 6], vec![7], 10, 10, false),
    ];
    let (cm, cs) = client_prepare_queries(&qps, &[1, 0], b"credential").ok().unwrap();
    // the caller's parameters are not marked
    assert!(!qps[0].used && !qps[1].used);
    assert!(cs.get_pir_state().iter().all(|qp| qp.used));
    assert_eq!(cs.get_pir_state()[0].get_lhs(), [1, 2]);
    assert_eq!(cs.get_oprf_input(), b"credential");
    assert_eq!(cs.get_oprf_state().len(), 32);
    assert_eq!(cm.get_oprf_query().len(), 33);
    let step = 1u32 << 22;
    assert_eq!(
        cm.get_pir_queries()[0],
        bincode::serialize(&vec![1u32, 2 + step]).unwrap()
    );
    assert_eq!(
        cm.get_pir_queries()[1],
        bincode::serialize(&vec![5u32 + step, 6]).unwrap()
    );
    let (queries, updated) = client_prepare_pir_queries(&qps, &[1, 0]).unwrap();
    assert_eq!(queries, cm.get_pir_queries());
    assert!(updated[0].used && updated[1].used);
}

#[test]
fn first_query_that_cannot_be_built_decides_the_error() {
    let fresh = || QueryParams::from_parts(vec![1, 2], vec![3], 10, 10, false);
    let used = || QueryParams::from_parts(vec![1, 2], vec![3], 10, 10, true);
    let full = || QueryParams::from_parts(vec![u32::MAX, 2], vec![3], 10, 10, false);
    assert!(matches!(
        client_prepare_queries(&[fresh(), used()], &[0, 0], b"x"),
        Err(C3Error::PIRError(PirError::QueryParamsReused(_)))
    ));
    assert!(matches!(
        client_prepare_queries(&[full(), used()], &[0, 0], b"x"),
        Err(C3Error::PIRError(PirError::OverflowAdd(_)))
    ));
    assert!(matches!(
        client_prepare_queries(&[fresh(), fresh()], &[1, 2], b"x"),
        Err(C3Error::PIRError(PirError::DimensionMismatch(_)))
    ));
    assert!(matches!(
        client_prepare_pir_queries(&[used(), full()], &[0, 0]),
        Err(PirError::QueryParamsReused(_))
    ));
}

#[test]
fn message_needs_a_blinding() {
    let err = client_message_from_blinding(vec![], vec![], b"x", None).err().unwrap();
    assert!(matches!(err, C3Error::OprfError));
    assert_eq!(err.message(), "Error occurred during operation of OPRF.");
    let (cm, cs) =
        client_message_from_blinding(vec![vec![1, 2]], vec![], b"x", Some((vec![3], vec![4])))
            .ok()
            .unwrap();
    assert_eq!(cm.get_pir_queries(), [vec![1u8, 2]]);
    assert_eq!(cm.get_oprf_query(), [3]);
    assert_eq!(cs.get_oprf_state(), [4]);
    assert_eq!(cs.get_oprf_input(), b"x");
    assert!(cs.get_pir_state().is_empty());
}

#[test]
fn server_refuses_what_it_cannot_read() {
    let rows = vec![base64::encode([1u8, 2]), base64::encode([3u8, 4])];
    let bucket = load_bucket_from_hashes(&rows, 4, 16, 8).unwrap();
    let cbp = ClientBucketParams::from(bucket.get_base_params().clone());
    let (cm, _) = client_message(&cbp, &[0], b"credential");
    let element = cm.get_oprf_query().to_vec();
    // a blinded element that is no point
    let bad = ClientMessage::from_parts(vec![], vec![0u8; 33]);
    assert!(matches!(
        server_calculate_response(&bucket, &bad, &oprf_key()),
        Err(C3Error::SerdeError)
    ));
    let cut = ClientMessage::from_parts(vec![], element[..20].to_vec());
    assert!(matches!(
        server_calculate_response(&bucket, &cut, &oprf_key()),
        Err(C3Error::SerdeError)
    ));
    // a key that is no scalar
    let good = ClientMessage::from_parts(vec![], element.clone());
    assert!(matches!(
        server_calculate_response(&bucket, &good, &[0u8; 32]),
        Err(C3Error::OprfError)
    ));
    assert!(matches!(
        server_calculate_response(&bucket, &good, &[0xffu8; 32]),
        Err(C3Error::OprfError)
    ));
    assert!(server_calculate_response(&bucket, &good, &oprf_key()).is_ok());
    // a query that is no wire form, and one of the wrong length
    let garbled = ClientMessage::from_parts(vec![vec![1, 2, 3]], element.clone());
    assert!(matches!(
        server_calculate_response(&bucket, &garbled, &oprf_key()),
        Err(C3Error::SerdeError)
    ));
    let long = ClientMessage::from_parts(
        vec![bincode::serialize(&vec![1u32, 2, 3]).unwrap()],
        element,
    );
    assert!(matches!(
        server_calculate_response(&bucket, &long, &oprf_key()),
        Err(C3Error::PIRError(PirError::DimensionMismatch(_)))
    ));
}

#[test]
fn server_answers_every_query_in_order() {
    let rows = vec![base64::encode([1u8, 2]), base64::encode([3u8, 4])];
    let bucket = load_bucket_from_hashes(&rows, 4, 16, 8).unwrap();
    let queries = vec![
        bincode::serialize(&vec![1u32, 0]).unwrap(),
        bincode::serialize(&vec![0u32, 1]).unwrap(),
        bincode::serialize(&vec![2u32, 10]).unwrap(),
    ];
    let answers = server_answer_queries(&bucket, &queries).unwrap();
    assert_eq!(answers.len(), 3);
    assert_eq!(answers[0], bincode::serialize(&vec![1u32, 2]).unwrap());
    assert_eq!(answers[1], bincode::serialize(&vec![3u32, 4]).unwrap());
    assert_eq!(answers[2], bincode::serialize(&vec![32u32, 44]).unwrap());
    assert_eq!(server_answer_queries(&bucket, &[]).unwrap(), Vec::<Vec<u8>>::new());
    assert!(matches!(
        server_answer_queries(&bucket, &[queries[0].clone(), vec![9]]),
        Err(C3Error::SerdeError)
    ));
}

#[test]
fn client_refuses_what_it_cannot_read() {
    let bucket = fixture_bucket();
    let cbp = ClientBucketParams::from(bucket.get_base_params().clone());
    let cred = credential(2);
    let (cm, cs) = client_message(&cbp, &[2], cred.as_bytes());
    let sresp = server_calculate_response(&bucket, &cm, &oprf_key()).unwrap();
    let evaluation = sresp.get_oprf_resp().to_vec();
    let answer = sresp.get_pir_resp()[0].clone();
    assert!(client_process_output(&sresp, &cs).unwrap());
    // an evaluated element that is no point
    let bad = ServerResponse::from_parts(vec![answer.clone()], vec![7u8; 33]);
    assert!(matches!(client_process_output(&bad, &cs), Err(C3Error::SerdeError)));
    // an answer that is no wire form
    let garbled = ServerResponse::from_parts(vec![vec![1, 2, 3]], evaluation.clone());
    assert!(matches!(client_process_output(&garbled, &cs), Err(C3Error::SerdeError)));
    // an answer that is too short, and one answer too many
    let short = ServerResponse::from_parts(
        vec![bincode::serialize(&vec![1u32; 25]).unwrap()],
        evaluation.clone(),
    );
    assert!(matches!(
        client_process_output(&short, &cs),
        Err(C3Error::PIRError(PirError::DimensionMismatch(_)))
    ));
    let many = ServerResponse::from_parts(vec![answer.clone(), answer.clone()], evaluation.clone());
    assert!(matches!(
        client_process_output(&many, &cs),
        Err(C3Error::PIRError(PirError::DimensionMismatch(_)))
    ));
    // a state whose blinding is no scalar
    let broken = ClientState::from_parts(
        vec![QueryParams::from_parts(vec![], vec![0; 26], 256, 10, true)],
        cred.as_bytes().to_vec(),
        vec![0u8; 32],
    );
    let one = ServerResponse::from_parts(vec![answer], evaluation);
    assert!(matches!(client_process_output(&one, &broken), Err(C3Error::OprfError)));
}

#[test]
fn rows_are_compared_with_the_expected_bytes() {
    // limbs of 8 bits, records of 16 bits, right-hand side zero
    let state = vec![
        QueryParams::from_parts(vec![], vec![0, 0], 16, 8, true),
        QueryParams::from_parts(vec![], vec![0, 0], 16, 8, true),
    ];
    let step = 1u32 << 24;
    let answers = vec![
        bincode::serialize(&vec![0x11 * step, 0x22 * step]).unwrap(),
        bincode::serialize(&vec![0x33 * step + 5, 0x44 * step - 5]).unwrap(),
    ];
    assert!(pir_outputs_match(&answers, &state, &[0x33, 0x44]).unwrap());
    assert!(pir_outputs_match(&answers, &state, &[0x11, 0x22]).unwrap());
    assert!(!pir_outputs_match(&answers, &state, &[0x22, 0x11]).unwrap());
    assert!(!pir_outputs_match(&answers, &state, &[0x11]).unwrap());
    assert!(!pir_outputs_match(&[], &state, &[]).unwrap());
    // every answer is read before the rows are compared
    let broken = vec![answers[0].clone(), vec![0]];
    assert!(matches!(
        pir_outputs_match(&broken, &state, &[0x11, 0x22]),
        Err(C3Error::SerdeError)
    ));
}

#[test]
fn rows_with_a_prefix_are_listed_in_order() {
    let table = LocalHashPrefixTable::from_parts(vec![7, 9, 7, 7, 1], 16);
    assert_eq!(table.indices_with_prefix(7), vec![0, 2, 3]);
    assert_eq!(table.indices_with_prefix(1), vec![4]);
    assert_eq!(table.indices_with_prefix(2), Vec::<usize>::new());
}

#[test]
fn every_lookup_error_has_its_message() {
    assert_eq!(
        C3Error::LoadBucketError("b.bucket".to_string(), "gone".to_string()).message(),
        "Error occurred loading bucket file at path b.bucket, error: gone."
    );
    assert_eq!(
        C3Error::KeywordIndexNotFoundError.message(),
        "Error occurred, no index found for keyword"
    );
    assert_eq!(
        C3Error::PIRError(PirError::Serde).message(),
        "Error occurred in underlying PIR scheme: Error occurred during serialization of data."
    );
    assert_eq!(
        C3Error::SerdeError.message(),
        "Error occurred during serialization of data."
    );
    assert_eq!(
        C3Error::ClientQueryError(2, 3).message(),
        "Error occurred as client specified inconsistent numbers of query parameters for each individual query, number of queries requested: 2, number of params objects: 3."
    );
}

#[test]
fn prepared_buckets_serve_the_protocol() {
    let metadata = BucketMetadata::from_hashes(&prefix_rows()).unwrap();
    assert_eq!(metadata.bucket.get_db().get_matrix_height(), 16);
    assert_eq!(metadata.bucket.get_db().get_plaintext_bits(), 10);
    assert_eq!(metadata.bucket.get_base_params().get_dim(), 1572);
    assert_eq!(metadata.local_hash_prefix_table.len(), 16);
    assert_eq!(metadata.local_hash_prefix_table.get_indices(credential(5).as_bytes()), vec![5]);
    let bad = vec!["@@".to_string()];
    assert!(matches!(
        BucketMetadata::from_hashes(&bad),
        Err(PirError::BadRecord { index: 0 })
    ));
}

#[test]
fn shards_come_from_where_they_are() {
    assert_eq!(shard_source(true, true), ShardSource::Kept);
    assert_eq!(shard_source(true, false), ShardSource::Kept);
    assert_eq!(shard_source(false, true), ShardSource::ObjectStore);
    assert_eq!(shard_source(false, false), ShardSource::Disk);
    assert_eq!(shard_file_path("/data", "3"), "/data/3.bucket");
    assert_eq!(metadata_file_path("3"), "bucket_metadata/3");
}

#[test]
fn elements_travel_in_the_encoding_of_the_wire() {
    let bucket = fixture_bucket();
    let cbp = ClientBucketParams::from(bucket.get_base_params().clone());
    let cred = credential(7);
    let (cm, cs) = client_message(&cbp, &[7], cred.as_bytes());
    // the blinded element is what the wire codec writes for it
    let blinded: BlindedElement<NistP256> = bincode::deserialize(cm.get_oprf_query()).unwrap();
    assert_eq!(bincode::serialize(&blinded).unwrap(), cm.get_oprf_query());
    // the evaluated element is the key times the blinded element
    let sresp = server_calculate_response(&bucket, &cm, &oprf_key()).unwrap();
    let server = OprfServer::<NistP256>::new_with_key(&oprf_key()).unwrap();
    let evaluated = server.blind_evaluate(&blinded);
    assert_eq!(bincode::serialize(&evaluated).unwrap(), sresp.get_oprf_resp());
    let read: EvaluationElement<NistP256> = bincode::deserialize(sresp.get_oprf_resp()).unwrap();
    // the state is the blinding of the client, which finishes to the keyed hash
    let client = OprfClient::<NistP256>::deserialize(cs.get_oprf_state()).unwrap();
    let output = client.finalize(cred.as_bytes(), &read).unwrap();
    assert_eq!(output.to_vec(), server.evaluate(cred.as_bytes()).unwrap().to_vec());
    assert_eq!(base64::encode(output), bucket_rows()[7]);
}
