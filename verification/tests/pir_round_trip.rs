use frodo_pir::api::{CommonParams, QueryParams, Response, Shard};
use rand_core::{OsRng, RngCore};

fn generate_db_eles(num_eles: usize, ele_byte_len: usize) -> Vec<String> {
    let mut eles = Vec::with_capacity(num_eles);
    for _ in 0..num_eles {
        let mut ele = vec![0u8; ele_byte_len];
        OsRng.fill_bytes(&mut ele);
        let ele_str = base64::encode(ele);
        eles.push(ele_str);
    }
    eles
}

#[test]
fn client_query_to_server_10_times() {
    let m = 2u32.pow(12) as usize;
    let ele_size = 2u32.pow(8) as usize;
    let plaintext_bits = 12usize;
    let lwe_dim = 512;
    let db_eles = generate_db_eles(m, (ele_size + 7) / 8);
    let shard =
        Shard::from_base64_strings(&db_eles, lwe_dim, m, ele_size, plaintext_bits).unwrap();
    let bp = shard.get_base_params();
    let cp = CommonParams::from(bp);
    #[allow(clippy::needless_range_loop)]
    for i in 0..10 {
        let mut qp = QueryParams::new(&cp, bp).unwrap();
        let q = qp.prepare_query(i).unwrap();
        let d_resp = shard.respond(&q).unwrap();
        let resp: Response = Response::deserialize(&d_resp).unwrap();
        let output = resp.parse_output_as_base64(&qp);
        assert_eq!(output, db_eles[i]);
    }
}

#[test]
fn client_query_to_server_attempt_params_reuse() {
    let m = 2u32.pow(6) as usize;
    let ele_size = 2u32.pow(8) as usize;
    let plaintext_bits = 10usize;
    let lwe_dim = 512;
    let db_eles = generate_db_eles(m, (ele_size + 7) / 8);
    let shard =
        Shard::from_base64_strings(&db_eles, lwe_dim, m, ele_size, plaintext_bits).unwrap();
    let bp = shard.get_base_params();
    let cp = CommonParams::from(bp);
    let mut qp = QueryParams::new(&cp, bp).unwrap();
    // should be successful in generating a query
    let res_unused = qp.prepare_query(0);
    assert!(res_unused.is_ok());

    // should be "used"
    assert!(qp.used);

    // a second query from the same parameters is refused
    let res = qp.prepare_query(0);
    assert!(res.is_err());
}

use frodo_pir::api::{BaseParams, Query};
use frodo_pir::db::Database;
use frodo_pir::errors::PirError;

/// Fresh parameters and the query for `row`; a draw whose masked entry leaves
/// no room for the indicator is drawn again.
fn fresh_query(cp: &CommonParams, bp: &BaseParams, row: usize) -> (QueryParams, Query) {
    for _ in 0..64 {
        let mut qp = QueryParams::new(cp, bp).unwrap();
        match qp.prepare_query(row) {
            Ok(q) => return (qp, q),
            Err(PirError::OverflowAdd(_)) => continue,
            Err(e) => panic!("{}", e.message()),
        }
    }
    panic!("no query after 64 draws");
}

#[test]
fn first_ten_rows_come_back() {
    let m = 64;
    let dim = 512;
    let ele_size = 256;
    let plaintext_bits = 10;
    let db_eles = generate_db_eles(m, 32);
    let shard = Shard::from_base64_strings(&db_eles, dim, m, ele_size, plaintext_bits).unwrap();
    let bp = shard.get_base_params();
    let cp = CommonParams::from(bp);
    for i in 0..10 {
        let (qp, q) = fresh_query(&cp, bp, i);
        let resp = Response::deserialize(&shard.respond(&q).unwrap()).unwrap();
        assert_eq!(resp.parse_output_as_base64(&qp), db_eles[i]);
        assert_eq!(resp.parse_output_as_bytes(&qp), base64::decode(&db_eles[i]).unwrap());
    }
}

#[test]
fn every_row_of_a_small_shard_comes_back() {
    let db_eles: Vec<String> = (0..8u8).map(|i| base64::encode([i, 255 - i, 3 * i, 0x5a])).collect();
    let shard = Shard::from_base64_strings(&db_eles, 64, 8, 32, 7).unwrap();
    let bp = shard.get_base_params();
    let cp = CommonParams::from(bp);
    for i in 0..8 {
        let (qp, q) = fresh_query(&cp, bp, i);
        let resp = Response::deserialize(&shard.respond(&q).unwrap()).unwrap();
        assert_eq!(resp.as_slice().len(), 5);
        assert_eq!(resp.parse_output_as_base64(&qp), db_eles[i]);
    }
}

#[test]
fn second_query_from_the_same_parameters_is_refused() {
    let db_eles = generate_db_eles(4, 4);
    let shard = Shard::from_base64_strings(&db_eles, 16, 4, 32, 8).unwrap();
    let bp = shard.get_base_params();
    let cp = CommonParams::from(bp);
    let (mut qp, _) = fresh_query(&cp, bp, 0);
    assert!(qp.used);
    assert!(qp.is_used());
    assert!(matches!(qp.prepare_query(0), Err(PirError::QueryParamsReused(_))));
    assert!(matches!(qp.prepare_query(3), Err(PirError::QueryParamsReused(_))));
    assert!(qp.used);
}

#[test]
fn query_adds_the_indicator_at_its_row() {
    let mut qp = QueryParams::from_parts(vec![5, 7, 9], vec![1, 2], 20, 10, false);
    let q = qp.prepare_query(1).unwrap();
    assert_eq!(q.as_slice(), [5, 7 + (1 << 22), 9]);
    assert_eq!(qp.get_lhs(), [5, 7, 9]);
    assert_eq!(qp.get_rhs(), [1, 2]);
    assert!(qp.used);
}

#[test]
fn indicator_that_does_not_fit_is_an_overflow() {
    let delta: u32 = 1 << 22;
    let mut fits = QueryParams::from_parts(vec![u32::MAX - delta], vec![], 20, 10, false);
    assert_eq!(fits.prepare_query(0).unwrap().as_slice(), [u32::MAX]);
    let mut overflows = QueryParams::from_parts(vec![u32::MAX - delta + 1], vec![], 20, 10, false);
    let err = overflows.prepare_query(0).unwrap_err();
    assert!(matches!(err, PirError::OverflowAdd(_)));
    assert_eq!(err.message(), "Attempted to overflow addition");
    // the parameters are spent all the same
    assert!(overflows.used);
    assert!(matches!(overflows.prepare_query(0), Err(PirError::QueryParamsReused(_))));
}

#[test]
fn response_words_round_to_limbs() {
    // ten bits: a step of 2^22, half a step of 2^21
    let step: u32 = 1 << 22;
    let qp = QueryParams::from_parts(vec![], vec![100, 100, 100, 100], 40, 10, true);
    let resp = Response::from_vec(vec![
        100u32.wrapping_add(5 * step),
        100u32.wrapping_add(5 * step + (step / 2)),
        100u32.wrapping_add(5 * step + (step / 2) + 1),
        99,
    ]);
    // exact; a remainder of half a step rounds down; above it rounds up;
    // one below the right-hand side is 2^32 - 1, which rounds up to 1024 = 0
    assert_eq!(resp.parse_output_as_row(&qp), vec![5, 5, 6, 0]);
}

#[test]
fn answer_is_the_product_with_every_column() {
    // two records of 16 bits in limbs of 8
    let db_eles = vec![base64::encode([1u8, 2]), base64::encode([3u8, 4])];
    let shard = Shard::from_base64_strings(&db_eles, 4, 2, 16, 8).unwrap();
    let answer = shard.respond(&Query::from_vec(vec![10, 100])).unwrap();
    let words = Response::deserialize(&answer).unwrap();
    assert_eq!(words.as_slice(), [10 * 1 + 100 * 3, 10 * 2 + 100 * 4]);
    assert_eq!(
        answer,
        vec![2, 0, 0, 0, 0, 0, 0, 0, 54, 1, 0, 0, 164, 1, 0, 0]
    );
}

#[test]
fn query_of_the_wrong_length_is_a_dimension_mismatch() {
    let db_eles = vec![base64::encode([1u8, 2]), base64::encode([3u8, 4])];
    let shard = Shard::from_base64_strings(&db_eles, 4, 2, 16, 8).unwrap();
    assert!(matches!(
        shard.respond(&Query::from_vec(vec![1, 2, 3])),
        Err(PirError::DimensionMismatch(_))
    ));
    assert!(matches!(
        shard.respond(&Query::from_vec(vec![])),
        Err(PirError::DimensionMismatch(_))
    ));
}

#[test]
fn wire_form_is_a_count_and_the_words() {
    let query = Query::from_vec(vec![1, 0x0102_0304]);
    let bytes = query.serialize().unwrap();
    assert_eq!(bytes, vec![2, 0, 0, 0, 0, 0, 0, 0, 1, 0, 0, 0, 4, 3, 2, 1]);
    assert_eq!(bytes, bincode::serialize(&vec![1u32, 0x0102_0304]).unwrap());
    assert_eq!(Query::deserialize(&bytes).unwrap().as_slice(), [1, 0x0102_0304]);
    assert_eq!(Response::deserialize(&bytes).unwrap().as_slice(), [1, 0x0102_0304]);
    assert_eq!(Response::from_vec(vec![]).serialize().unwrap(), vec![0; 8]);
    assert_eq!(Query::deserialize(&[0; 8]).unwrap().as_slice(), [0u32; 0]);
}

#[test]
fn wire_form_that_ends_early_is_refused() {
    assert!(matches!(Query::deserialize(&[]), Err(PirError::Serde)));
    assert!(matches!(Query::deserialize(&[1, 0, 0, 0, 0, 0, 0]), Err(PirError::Serde)));
    assert!(matches!(
        Response::deserialize(&[2, 0, 0, 0, 0, 0, 0, 0, 1, 0, 0, 0, 4, 3, 2]),
        Err(PirError::Serde)
    ));
    assert!(matches!(Response::deserialize(&[255; 12]), Err(PirError::Serde)));
    // bytes after the last word are not read
    let words = Response::deserialize(&[1, 0, 0, 0, 0, 0, 0, 0, 9, 0, 0, 0, 77, 88]).unwrap();
    assert_eq!(words.as_slice(), [9]);
}

#[test]
fn database_is_kept_by_columns() {
    let db_eles = vec![base64::encode([1u8, 2, 3]), base64::encode([4u8, 5, 6])];
    let db = Database::new(&db_eles, 2, 24, 8).unwrap();
    assert_eq!(db.get_matrix_height(), 2);
    assert_eq!(db.get_elem_size(), 24);
    assert_eq!(db.get_plaintext_bits(), 8);
    assert_eq!(db.get_matrix_width_self(), 3);
    assert_eq!(db.get_row(0), vec![1, 4]);
    assert_eq!(db.get_row(2), vec![3, 6]);
    assert_eq!(db.get_db_entry(0), db_eles[0]);
    assert_eq!(db.get_db_entry(1), db_eles[1]);
    assert_eq!(db.vec_mult(&[2, 3], 1), 2 * 2 + 3 * 5);
    assert_eq!(db.get_entries(), [vec![1, 4], vec![2, 5], vec![3, 6]]);
}

#[test]
fn limbs_are_chunks_of_the_bits() {
    // 16 bits 0x8001 in limbs of 10: the low ten bits, then the six that are left
    let db = Database::new(&[base64::encode([0x01u8, 0x80])], 1, 16, 10).unwrap();
    assert_eq!(db.get_row(0), vec![0x001]);
    assert_eq!(db.get_row(1), vec![0x20]);
    // only the first `m` records are read
    let two = vec![base64::encode([9u8]), "not base64!".to_string()];
    assert_eq!(Database::new(&two, 1, 8, 8).unwrap().get_row(0), vec![9]);
}

#[test]
fn matrix_width_rounds_up() {
    assert_eq!(Database::get_matrix_width(256, 10), 26);
    assert_eq!(Database::get_matrix_width(256, 8), 32);
    assert_eq!(Database::get_matrix_width(256, 12), 22);
    assert_eq!(Database::get_matrix_width(1, 10), 1);
    assert_eq!(Database::get_matrix_width(0, 10), 0);
    assert_eq!(Database::get_matrix_width(usize::MAX, 1), usize::MAX);
}

#[test]
fn switching_the_format_transposes() {
    let db_eles = vec![base64::encode([1u8, 2, 3]), base64::encode([4u8, 5, 6])];
    let mut db = Database::new(&db_eles, 2, 24, 8).unwrap();
    db.switch_fmt();
    assert_eq!(db.get_entries(), [vec![1, 2, 3], vec![4, 5, 6]]);
    db.switch_fmt();
    assert_eq!(db.get_entries(), [vec![1, 4], vec![2, 5], vec![3, 6]]);
}

#[test]
fn bad_records_are_reported_with_their_index() {
    let good = base64::encode([1u8, 2, 3, 4]);
    let records = vec![good.clone(), "***".to_string(), good.clone()];
    assert!(matches!(
        Database::new(&records, 3, 32, 8),
        Err(PirError::BadRecord { index: 1 })
    ));
    // a record too short for its limbs
    let short = vec![good.clone(), good.clone(), base64::encode([1u8])];
    let err = Shard::from_base64_strings(&short, 8, 3, 32, 8).unwrap_err();
    assert!(matches!(err, PirError::BadRecord { index: 2 }));
    assert_eq!(err.message(), "Bad record at index 2");
    // limbs of more than 32 bits do not fit a word
    let long = vec![base64::encode([0u8; 8])];
    assert!(matches!(Database::new(&long, 1, 64, 40), Err(PirError::BadRecord { index: 0 })));
}

#[test]
fn right_hand_side_is_the_expanded_matrix_times_the_database() {
    let db_eles = generate_db_eles(6, 4);
    let shard = Shard::from_base64_strings(&db_eles, 5, 6, 32, 8).unwrap();
    let bp = shard.get_base_params();
    assert_eq!(bp.get_dim(), 5);
    assert_eq!(bp.get_total_records(), 6);
    assert_eq!(bp.get_elem_size(), 32);
    assert_eq!(bp.get_plaintext_bits(), 8);
    let cp = CommonParams::from(bp);
    let a = cp.as_matrix();
    assert_eq!(a.len(), 6);
    let rhs = bp.get_rhs();
    assert_eq!(rhs.len(), 4);
    for i in 0..4 {
        assert_eq!(rhs[i].len(), 5);
        let column = shard.get_db().get_row(i);
        for k in 0..5 {
            let mut sum = 0u32;
            for r in 0..6 {
                sum = sum.wrapping_add(a[r][k].wrapping_mul(column[r]));
            }
            assert_eq!(rhs[i][k], sum);
        }
    }
    // for every secret, `mult_right` is the product with those columns
    let s = vec![3, u32::MAX, 0, 1, 70000];
    let product = bp.mult_right(&s).unwrap();
    for i in 0..4 {
        let mut sum = 0u32;
        for k in 0..5 {
            sum = sum.wrapping_add(s[k].wrapping_mul(rhs[i][k]));
        }
        assert_eq!(product[i], sum);
    }
    assert!(matches!(bp.mult_right(&[1, 2]), Err(PirError::DimensionMismatch(_))));
}

#[test]
fn common_matrix_depends_on_the_parameters_alone() {
    let db_eles = generate_db_eles(4, 4);
    let shard = Shard::from_base64_strings(&db_eles, 10, 4, 32, 8).unwrap();
    let bp = shard.get_base_params();
    assert_eq!(CommonParams::from(bp).as_matrix(), CommonParams::from(bp).as_matrix());
    let copy = bp.clone();
    assert_eq!(copy.get_public_seed(), bp.get_public_seed());
    assert_eq!(CommonParams::from(&copy).as_matrix(), CommonParams::from(bp).as_matrix());
}

#[test]
fn masked_secret_is_the_product_plus_the_noise() {
    let cp = CommonParams::from_matrix(vec![vec![1, 2], vec![3, 4], vec![u32::MAX, 0]]);
    let product = cp.mult_left_with_noise(&[10, 20], &[0, 1, u32::MAX]).unwrap();
    assert_eq!(product, vec![50, 111, (u32::MAX - 9).wrapping_add(u32::MAX)]);
    assert!(matches!(
        cp.mult_left_with_noise(&[10], &[0, 0, 0]),
        Err(PirError::DimensionMismatch(_))
    ));
    let noisy = cp.mult_left(&[10, 20]).unwrap();
    let exact = [50u32, 110, u32::MAX - 9];
    for i in 0..3 {
        let e = noisy[i].wrapping_sub(exact[i]);
        assert!(e == 0 || e == 1 || e == u32::MAX);
    }
}

#[test]
fn parameters_from_a_secret_are_exact() {
    let db_eles = vec![base64::encode([1u8, 2]), base64::encode([3u8, 4])];
    let shard = Shard::from_base64_strings(&db_eles, 3, 2, 16, 8).unwrap();
    let bp = shard.get_base_params();
    let cp = CommonParams::from(bp);
    let s = [1u32, u32::MAX, 0];
    let qp = QueryParams::from_secret(&cp, bp, &s, &[1, 0]).unwrap();
    assert!(!qp.used);
    assert_eq!(qp.get_elem_size(), 16);
    assert_eq!(qp.get_plaintext_bits(), 8);
    assert_eq!(qp.get_rhs(), bp.mult_right(&s).unwrap());
    assert_eq!(qp.get_lhs(), cp.mult_left_with_noise(&s, &[1, 0]).unwrap());
    assert!(QueryParams::from_secret(&cp, bp, &[1, 2], &[0, 0]).is_err());
}

#[test]
fn rows_are_listed_in_order() {
    let db_eles = generate_db_eles(5, 32);
    let shard = Shard::from_base64_strings(&db_eles, 8, 5, 256, 10).unwrap();
    assert_eq!(shard.into_row_iter(), db_eles);
    assert_eq!(shard.get_db().get_matrix_height(), 5);
}

use frodo_pir::db::record_limbs_from_bytes;

#[test]
fn bytes_are_read_into_limbs() {
    // 0x8001 in limbs of 10 bits: the low ten bits, then the six that are left
    assert_eq!(record_limbs_from_bytes(&[0x01, 0x80], 2, 10), Some(vec![0x001, 0x20]));
    assert_eq!(record_limbs_from_bytes(&[0xab, 0xcd], 2, 8), Some(vec![0xab, 0xcd]));
    assert_eq!(record_limbs_from_bytes(&[0xab, 0xcd], 1, 8), Some(vec![0xab]));
    assert_eq!(record_limbs_from_bytes(&[0xff; 4], 1, 32), Some(vec![u32::MAX]));
    assert_eq!(record_limbs_from_bytes(&[0xff; 4], 2, 31), Some(vec![0x7fff_ffff, 1]));
    assert_eq!(record_limbs_from_bytes(&[], 0, 10), Some(vec![]));
    // a limb may start where the bits end, and is zero then
    assert_eq!(record_limbs_from_bytes(&[0xab], 2, 8), Some(vec![0xab, 0]));
    // but not beyond
    assert_eq!(record_limbs_from_bytes(&[0xab], 3, 8), None);
    // a limb of more than 32 bits does not fit a word
    assert_eq!(record_limbs_from_bytes(&[0; 8], 1, 33), None);
    assert_eq!(record_limbs_from_bytes(&[0; 4], 1, 33), Some(vec![0]));
}

#[test]
fn right_hand_side_from_a_given_matrix() {
    // two records of 16 bits in limbs of 8: columns [1, 3] and [2, 4]
    let db_eles = vec![base64::encode([1u8, 2]), base64::encode([3u8, 4])];
    let db = Database::new(&db_eles, 2, 16, 8).unwrap();
    // one vector of three words per record
    let matrix = vec![vec![1, 10, u32::MAX], vec![2, 20, 1]];
    let rhs = BaseParams::rhs_from_matrix(&db, &matrix);
    assert_eq!(
        rhs,
        vec![
            vec![1 * 1 + 2 * 3, 10 * 1 + 20 * 3, u32::MAX.wrapping_add(3)],
            vec![1 * 2 + 2 * 4, 10 * 2 + 20 * 4, (u32::MAX - 1).wrapping_add(4)],
        ]
    );
    let seed = [5u8; 32];
    let expanded = frodo_pir::utils::matrices::get_lwe_matrix_from_seed(seed, 7, 2);
    assert_eq!(
        BaseParams::generate_params_rhs(&db, seed, 7, 2),
        BaseParams::rhs_from_matrix(&db, &expanded)
    );
}

#[test]
fn copies_hold_the_same() {
    let db_eles = generate_db_eles(3, 4);
    let shard = Shard::from_base64_strings(&db_eles, 4, 3, 32, 8).unwrap();
    let copy = shard.clone();
    assert_eq!(copy.get_db().get_entries(), shard.get_db().get_entries());
    assert_eq!(copy.get_base_params().get_rhs(), shard.get_base_params().get_rhs());
    assert_eq!(copy.into_row_iter(), db_eles);
    assert!(shard.get_db().is_well_formed());
    assert!(shard.get_db().clone().is_well_formed());
    let query = Query::from_vec(vec![1, 2, 3]);
    assert_eq!(query.clone().as_slice(), [1, 2, 3]);
    assert_eq!(Response::from_vec(vec![4]).clone().as_slice(), [4]);
    let qp = QueryParams::from_parts(vec![1], vec![2], 8, 8, true);
    let again = qp.clone();
    assert_eq!(again.get_lhs(), [1]);
    assert!(again.used);
}

#[test]
fn databases_are_checked_for_their_shape() {
    assert!(Database::from_parts(vec![vec![1, 2], vec![3, 4]], 2, 16, 8).is_well_formed());
    // a column is missing, a column is short, a limb is too large
    assert!(!Database::from_parts(vec![vec![1, 2]], 2, 16, 8).is_well_formed());
    assert!(!Database::from_parts(vec![vec![1, 2], vec![3]], 2, 16, 8).is_well_formed());
    assert!(!Database::from_parts(vec![vec![1, 2], vec![3, 256]], 2, 16, 8).is_well_formed());
    assert!(Database::from_parts(vec![vec![1, 2], vec![3, 255]], 2, 16, 8).is_well_formed());
    // no records, no limb size
    assert!(!Database::from_parts(vec![vec![], vec![]], 0, 16, 8).is_well_formed());
    assert!(!Database::from_parts(vec![], 2, 16, 0).is_well_formed());
    assert!(Database::from_parts(vec![vec![u32::MAX]], 1, 32, 32).is_well_formed());
    assert!(Database::from_parts(vec![vec![u32::MAX]], 1, 40, 40).is_well_formed());
}

#[test]
fn every_shard_draws_its_own_seed() {
    let db_eles = generate_db_eles(2, 4);
    let first = Shard::from_base64_strings(&db_eles, 4, 2, 32, 8).unwrap();
    let second = Shard::from_base64_strings(&db_eles, 4, 2, 32, 8).unwrap();
    let seed = first.get_base_params().get_public_seed();
    assert_ne!(seed, [0u8; 32]);
    assert_ne!(seed, second.get_base_params().get_public_seed());
    // the same records, another matrix
    assert_eq!(first.get_db().get_entries(), second.get_db().get_entries());
    assert_ne!(
        CommonParams::from(first.get_base_params()).as_matrix(),
        CommonParams::from(second.get_base_params()).as_matrix()
    );
}
