use random_blending::adapter::convert_slice_to_prob_arr;
use random_blending::adapter::run_blending;
use random_blending::adapter::validate_request;
use random_blending::engine::average;
use random_blending::engine::clone_grid;
use random_blending::engine::default_probabilities;
use random_blending::engine::diffuse;
use random_blending::engine::gen_matrix;
use random_blending::engine::random_blending_seeded;
use random_blending::rng::RandomSource;
use random_blending::sampler::pick_blend_indexes;
use random_blending::sampler::pick_from_probability;
use random_blending::sampler::split_index;
use random_blending::sampler::total_weight;
use random_blending::BlendError;

#[test]
/// Test the output of split index for all possible 3-size values.
fn test_split_index_3() {
    for i in 0..8 {
        let idxs = split_index(i);
        let exp_idxs = match i {
            0 => (-1, -1),
            1 => (-1, 0),
            2 => (-1, 1),
            3 => (0, -1),
            4 => (0, 0),
            5 => (0, 1),
            6 => (1, -1),
            7 => (1, 0),
            8 => (1, 1),
            _ => unreachable!(),
        };
        assert_eq!(exp_idxs, idxs);
    }
}

#[test]
fn test_average_literals() {
    assert_eq!(average(10, 20), 15);
    assert_eq!(average(255, 255), 255);
    assert_eq!(average(0, 1), 0);
    assert_eq!(average(10, 21), 15);
}

#[test]
fn test_total_weight() {
    assert_eq!(total_weight(&[1, 4, 5, 1, 0, 5, 1, 1, 1]), 19);
    assert_eq!(total_weight(&[0; 9]), 0);
    assert_eq!(total_weight(&[255; 9]), 2295);
}

#[test]
fn test_default_probabilities() {
    assert_eq!(default_probabilities(), [1, 4, 5, 1, 0, 5, 1, 1, 1]);
}

#[test]
fn test_convert_slice_to_prob_arr() {
    let nine: Vec<u8> = vec![1, 2, 3, 4, 5, 6, 7, 8, 9];
    assert_eq!(
        convert_slice_to_prob_arr(&nine),
        Some([1, 2, 3, 4, 5, 6, 7, 8, 9])
    );
    let eight: Vec<u8> = vec![1, 2, 3, 4, 5, 6, 7, 8];
    assert_eq!(convert_slice_to_prob_arr(&eight), None);
    let ten: Vec<u8> = vec![1, 2, 3, 4, 5, 6, 7, 8, 9, 10];
    assert_eq!(convert_slice_to_prob_arr(&ten), None);
}

#[test]
fn test_zero_iterations_identity() {
    let table = default_probabilities();
    let mut gen_rng = RandomSource::from_seed(42);
    let initial = gen_matrix(&mut gen_rng, 5);
    let mut blend_rng = RandomSource::from_seed(7);
    let result = diffuse(&mut blend_rng, clone_grid(&initial), 0, &table);
    assert_eq!(result, Ok(initial));
}

#[test]
fn test_trivial_size_identity() {
    let table = default_probabilities();
    for size in [0usize, 1usize] {
        let mut gen_rng = RandomSource::from_seed(5);
        let initial = gen_matrix(&mut gen_rng, size);
        let mut blend_rng = RandomSource::from_seed(99);
        let result = diffuse(&mut blend_rng, clone_grid(&initial), 9, &table);
        assert_eq!(result, Ok(initial));
    }
}

#[test]
fn test_result_dimensions() {
    let uniform = [1u8; 9];
    let grid = random_blending_seeded(8, 3, &uniform, 11).unwrap();
    assert_eq!(grid.len(), 8);
    for row in &grid {
        assert_eq!(row.len(), 8);
        for &cell in row {
            assert!(cell as u16 <= 255);
        }
    }
}

#[test]
fn test_sampler_calibration() {
    // Table [1,4,5,1,0,5,1,1,1], total 19: over 19000 draws the count for
    // index k should approach 1000 * weight[k], and the zero-weight index
    // 4 must never be selected.
    let table = default_probabilities();
    let mut rng = RandomSource::from_seed(1234);
    let mut counts = [0usize; 9];
    for _ in 0..19000 {
        let k = pick_from_probability(&mut rng, &table).unwrap();
        counts[k] += 1;
    }
    assert_eq!(counts[4], 0);
    for k in 0..9 {
        let expected = table[k] as usize * 1000;
        let diff = counts[k].abs_diff(expected);
        assert!(
            diff <= 200,
            "index {} drawn {} times, expected about {}",
            k,
            counts[k],
            expected
        );
    }
}

#[test]
fn test_rejection_in_bounds() {
    let table = default_probabilities();
    let mut rng = RandomSource::from_seed(21);
    for i in 0..5 {
        for j in 0..5 {
            for _ in 0..1000 {
                let (ni, nj) = pick_blend_indexes(&mut rng, i, j, 5, &table).unwrap();
                assert!(ni < 5);
                assert!(nj < 5);
                assert!(ni.abs_diff(i) <= 1);
                assert!(nj.abs_diff(j) <= 1);
            }
        }
    }
}

#[test]
fn test_forced_single_weight() {
    // With all the weight on one index, every draw must select it; a
    // sampler that ignored the table or the draw could not pass both.
    let mut rng = RandomSource::from_seed(3);
    let first_only = [1, 0, 0, 0, 0, 0, 0, 0, 0];
    let last_only = [0, 0, 0, 0, 0, 0, 0, 0, 7];
    for _ in 0..100 {
        assert_eq!(pick_from_probability(&mut rng, &first_only), Ok(0));
        assert_eq!(pick_from_probability(&mut rng, &last_only), Ok(8));
    }
}

#[test]
fn test_adapter_rejections() {
    let path = String::from("out.png");
    let nine: Vec<u8> = vec![1; 9];
    let eight: Vec<u8> = vec![1; 8];

    let absent_prob = run_blending(4, 1, None, Some(&path));
    assert_eq!(absent_prob, Err(BlendError::AbsentReference));

    let absent_path = run_blending(4, 1, Some(&nine), None);
    assert_eq!(absent_path, Err(BlendError::AbsentReference));

    let zero_size = run_blending(0, 1, Some(&nine), Some(&path));
    assert_eq!(zero_size, Err(BlendError::NonPositiveSize));

    let negative_size = run_blending(-3, 1, Some(&nine), Some(&path));
    assert_eq!(negative_size, Err(BlendError::NonPositiveSize));

    let zero_iterations = run_blending(4, 0, Some(&nine), Some(&path));
    assert_eq!(zero_iterations, Err(BlendError::NonPositiveIterations));

    let wrong_length = run_blending(4, 1, Some(&eight), Some(&path));
    assert_eq!(wrong_length, Err(BlendError::WrongProbabilityLength));

    for err in [
        BlendError::AbsentReference,
        BlendError::NonPositiveSize,
        BlendError::NonPositiveIterations,
        BlendError::WrongProbabilityLength,
        BlendError::DegenerateProbabilityTable,
    ] {
        assert!(err.status() < 0);
    }
}

#[test]
fn test_validate_request_passes_weights_through() {
    let nine: Vec<u8> = vec![9, 8, 7, 6, 5, 4, 3, 2, 1];
    let validated = validate_request(4, 1, Some(&nine), true);
    assert_eq!(validated, Ok([9, 8, 7, 6, 5, 4, 3, 2, 1]));
    assert_eq!(
        validate_request(4, 1, Some(&nine), false),
        Err(BlendError::AbsentReference)
    );
}

#[test]
fn test_adapter_success() {
    let path = String::from("out.png");
    let nine: Vec<u8> = vec![1; 9];
    let grid = run_blending(4, 2, Some(&nine), Some(&path)).unwrap();
    assert_eq!(grid.len(), 4);
    for row in &grid {
        assert_eq!(row.len(), 4);
    }
}

#[test]
fn test_degenerate_table() {
    let zeros = [0u8; 9];
    let run = random_blending_seeded(4, 1, &zeros, 1);
    assert_eq!(run, Err(BlendError::DegenerateProbabilityTable));

    let path = String::from("out.png");
    let zero_vec: Vec<u8> = vec![0; 9];
    let through_adapter = run_blending(4, 1, Some(&zero_vec), Some(&path));
    assert_eq!(through_adapter, Err(BlendError::DegenerateProbabilityTable));

    // A one-cell grid never samples, so even a degenerate table succeeds.
    let one_cell = run_blending(1, 5, Some(&zero_vec), Some(&path));
    assert!(one_cell.is_ok());
}

#[test]
fn test_one_round_blends_neighbors() {
    // After one round, every cell must be the truncated average of its own
    // prior value and some in-bounds neighbor's prior value.
    let uniform = [1u8; 9];
    let mut gen_rng = RandomSource::from_seed(8);
    let initial = gen_matrix(&mut gen_rng, 8);
    let mut blend_rng = RandomSource::from_seed(9);
    let result = diffuse(&mut blend_rng, clone_grid(&initial), 1, &uniform).unwrap();
    assert_ne!(result, initial);
    for i in 0..8usize {
        for j in 0..8usize {
            let mut found = false;
            for ni in i.saturating_sub(1)..=(i + 1).min(7) {
                for nj in j.saturating_sub(1)..=(j + 1).min(7) {
                    let expected = ((initial[i][j] as u16 + initial[ni][nj] as u16) / 2) as u8;
                    if result[i][j] == expected {
                        found = true;
                    }
                }
            }
            assert!(found, "cell ({}, {}) does not blend any neighbor", i, j);
        }
    }
}

#[test]
fn test_end_to_end_seeded() {
    // size 4, one round, uniform table: a 4x4 grid; with the same seed,
    // two runs produce identical output grids.
    let uniform = [1u8; 9];
    let first = random_blending_seeded(4, 1, &uniform, 77).unwrap();
    let second = random_blending_seeded(4, 1, &uniform, 77).unwrap();
    assert_eq!(first, second);
    assert_eq!(first.len(), 4);
    for row in &first {
        assert_eq!(row.len(), 4);
    }
    let other_seed = random_blending_seeded(4, 1, &uniform, 78).unwrap();
    assert_eq!(other_seed.len(), 4);
}
