use frodo_pir::utils::matrices::{
    get_lwe_matrix_from_seed, get_matrix_second_at, random_ternary, random_ternary_vector,
    swap_matrix_fmt, ternary_from_sample, vec_mult_u32_u32, TERNARY_INTERVAL_SIZE,
    TERNARY_REJECTION_SAMPLING_MAX,
};
use rand::rngs::StdRng;
use rand_core::{RngCore, SeedableRng};

#[test]
fn inner_product_of_small_vectors() {
    assert_eq!(vec_mult_u32_u32(&[1, 2, 3], &[10, 20, 30]).unwrap(), 140);
    assert_eq!(vec_mult_u32_u32(&[], &[]).unwrap(), 0);
}

#[test]
fn inner_product_wraps_modulo_two_to_the_32() {
    assert_eq!(vec_mult_u32_u32(&[u32::MAX], &[2]).unwrap(), u32::MAX - 1);
    assert_eq!(vec_mult_u32_u32(&[1 << 31, 1 << 31], &[1, 1]).unwrap(), 0);
    assert_eq!(vec_mult_u32_u32(&[u32::MAX, 3], &[u32::MAX, 5]).unwrap(), 16);
    assert_eq!(vec_mult_u32_u32(&[1 << 16], &[1 << 16]).unwrap(), 0);
}

#[test]
fn inner_product_of_different_lengths_fails() {
    let err = vec_mult_u32_u32(&[1, 2, 3], &[10, 20, 30, 40]).unwrap_err();
    assert!(err.message().contains("row_len: 3"));
    assert!(vec_mult_u32_u32(&[1], &[]).is_err());
}

#[test]
fn transposition_exchanges_the_indices() {
    let matrix = vec![vec![1, 2, 3], vec![4, 5, 6]];
    let swapped = swap_matrix_fmt(&matrix);
    assert_eq!(swapped, vec![vec![1, 4], vec![2, 5], vec![3, 6]]);
    assert_eq!(swap_matrix_fmt(&swapped), matrix);
    assert_eq!(swap_matrix_fmt(&[vec![7]]), vec![vec![7]]);
    assert_eq!(swap_matrix_fmt(&[vec![], vec![]]), Vec::<Vec<u32>>::new());
}

#[test]
fn second_at_is_a_column_of_the_swapped_matrix() {
    let matrix = vec![vec![1, 2, 3], vec![4, 5, 6]];
    let swapped = swap_matrix_fmt(&matrix);
    for i in 0..3 {
        assert_eq!(get_matrix_second_at(&matrix, i), swapped[i]);
    }
    assert_eq!(get_matrix_second_at(&matrix, 1), vec![2, 5]);
}

#[test]
fn seed_expands_to_the_stream_of_the_seeded_generator() {
    let seed = [7u8; 32];
    let matrix = get_lwe_matrix_from_seed(seed, 5, 3);
    assert_eq!(matrix.len(), 3);
    let mut rng = StdRng::from_seed(seed);
    for column in &matrix {
        assert_eq!(column.len(), 5);
        for word in column {
            assert_eq!(*word, rng.next_u32());
        }
    }
}

#[test]
fn seed_expansion_depends_on_the_seed_alone() {
    let seed = [42u8; 32];
    assert_eq!(get_lwe_matrix_from_seed(seed, 16, 8), get_lwe_matrix_from_seed(seed, 16, 8));
    assert_ne!(get_lwe_matrix_from_seed(seed, 16, 8), get_lwe_matrix_from_seed([43u8; 32], 16, 8));
    assert_eq!(get_lwe_matrix_from_seed(seed, 0, 2), vec![Vec::<u32>::new(); 2]);
    assert_eq!(get_lwe_matrix_from_seed(seed, 4, 0), Vec::<Vec<u32>>::new());
}

#[test]
fn samples_map_to_thirds() {
    assert_eq!(TERNARY_INTERVAL_SIZE, (u32::MAX - 2) / 3);
    assert_eq!(TERNARY_REJECTION_SAMPLING_MAX, TERNARY_INTERVAL_SIZE * 3);
    assert_eq!(ternary_from_sample(0), Some(0));
    assert_eq!(ternary_from_sample(TERNARY_INTERVAL_SIZE), Some(0));
    assert_eq!(ternary_from_sample(TERNARY_INTERVAL_SIZE + 1), Some(1));
    assert_eq!(ternary_from_sample(2 * TERNARY_INTERVAL_SIZE), Some(1));
    assert_eq!(ternary_from_sample(2 * TERNARY_INTERVAL_SIZE + 1), Some(u32::MAX));
    assert_eq!(ternary_from_sample(3 * TERNARY_INTERVAL_SIZE), Some(u32::MAX));
    assert_eq!(ternary_from_sample(3 * TERNARY_INTERVAL_SIZE + 1), None);
    assert_eq!(ternary_from_sample(u32::MAX), None);
}

#[test]
fn ternary_draws_are_ternary() {
    let mut seen = [false; 3];
    for _ in 0..200 {
        match random_ternary() {
            0 => seen[0] = true,
            1 => seen[1] = true,
            u32::MAX => seen[2] = true,
            other => panic!("not ternary: {}", other),
        }
    }
    assert!(seen.iter().all(|s| *s));
    let vector = random_ternary_vector(33);
    assert_eq!(vector.len(), 33);
    assert!(vector.iter().all(|x| *x == 0 || *x == 1 || *x == u32::MAX));
    assert_eq!(random_ternary_vector(0), Vec::<u32>::new());
}
