use cuda_cpp::env_value::EnvValue;
use cuda_cpp::error::CudaCppError;
use cuda_cpp::experimental_recycle::{
    bucket_samples, check_factorizers, check_recycle, maybe_recycle, parse_steps, parse_u64, recycle_targets,
    reset_changed, row_seed_bits, select_units, ChosenUnit,
};
use cuda_cpp::float_bits::F32Bits;
use cuda_cpp::training_facts::RunnerFacts;

fn text(s: &str) -> EnvValue {
    EnvValue::Value(s.to_string())
}

fn bits(x: f32) -> F32Bits {
    F32Bits(x.to_bits())
}

#[test]
fn step_numbers_parse_like_std() {
    for s in ["0", "7", "+7", "007", "18446744073709551615", "18446744073709551616", "", "+", "-1", " 1", "1 ", "1a", "٣", "99999999999999999999"] {
        let chars: Vec<char> = s.chars().collect();
        assert_eq!(parse_u64(&chars), s.parse::<u64>().ok(), "{s:?}");
    }
    assert_eq!(parse_steps("3,17,9761"), Some(vec![3, 17, 9761]));
    assert_eq!(parse_steps("5"), Some(vec![5]));
    assert_eq!(parse_steps(""), None);
    assert_eq!(parse_steps("1,,2"), None);
    assert_eq!(parse_steps("1,2,"), None);
    assert_eq!(parse_steps("1, 2"), None);
}

#[test]
fn recycle_schedule() {
    assert_eq!(maybe_recycle(&EnvValue::NotPresent, 3), Ok(false));
    assert_eq!(maybe_recycle(&EnvValue::NotUnicode, 3), Err(CudaCppError::InvalidRecycleEnvironment));
    assert_eq!(maybe_recycle(&text("3,17"), 17), Ok(true));
    assert_eq!(maybe_recycle(&text("3,17"), 4), Ok(false));
    assert_eq!(maybe_recycle(&text("+3"), 3), Ok(true));
    assert_eq!(maybe_recycle(&text("3;17"), 3), Err(CudaCppError::RecycleStepsSyntax));
    assert_eq!(maybe_recycle(&text("0,5"), 5), Err(CudaCppError::ZeroRecycleStep));
    assert_eq!(maybe_recycle(&text("5,0"), 1), Err(CudaCppError::ZeroRecycleStep));
    assert_eq!(
        CudaCppError::RecycleStepsSyntax.message(),
        "recycle steps must be comma separated positive update numbers"
    );
}

#[test]
fn recycle_configuration_checks() {
    let dense = RunnerFacts {
        compact_l1: false,
        any_factorizer_axis: false,
        shared_factorizer: true,
        count_gates: false,
        l2_factorizer: true,
        l3_factorizer: false,
    };
    assert_eq!(check_recycle(true, &dense), Ok(()));
    assert_eq!(check_recycle(false, &dense), Err(CudaCppError::RecycleUnsupported));
    assert_eq!(check_recycle(true, &RunnerFacts { any_factorizer_axis: true, ..dense }), Err(CudaCppError::RecycleUnsupported));
    assert_eq!(check_factorizers(&vec![vec![bits(0.0), bits(-0.0)], vec![]]), Ok(()));
    assert_eq!(
        check_factorizers(&vec![vec![bits(0.0)], vec![bits(0.0), bits(1e-30)]]),
        Err(CudaCppError::RecycleFactorizers)
    );
    assert_eq!(check_factorizers(&vec![vec![bits(f32::NAN)]]), Err(CudaCppError::RecycleFactorizers));
}

#[test]
fn constant_units_are_chosen_per_bucket() {
    // 2048 positions, two buckets alternating, every 17th position has no weight.
    let (n, h, stacks) = (2048usize, 2usize, 2usize);
    let cols = 2 * h;
    let buckets: Vec<i32> = (0..n).map(|i| (i % 2) as i32).collect();
    let weights: Vec<F32Bits> = (0..n).map(|i| bits(if i % 17 == 0 { 0.0 } else { 1.0 })).collect();
    let mut a = vec![bits(0.5); n * cols];
    for i in 0..n {
        // Unit 0: clamped branch always 1; linear 1 in bucket 0, 0 in bucket 1.
        a[i * cols] = bits(1.0);
        a[i * cols + h] = bits(if i % 2 == 0 { 1.0 } else { -0.0 });
        // Unit 1: clamped branch saturated except at one weighted position.
        a[i * cols + 1] = bits(if i == 5 { 0.75 } else { 1.0 });
        a[i * cols + h + 1] = bits(0.0);
    }
    // Zero-weight positions do not count: break unit 0's linear branch there.
    a[0 * cols + h] = bits(0.3);
    let samples = bucket_samples(&buckets, &weights, n, 0);
    assert!(samples.iter().all(|&i| i % 2 == 0 && i % 17 != 0));
    assert_eq!(samples.len(), (0..n).filter(|i| i % 2 == 0 && i % 17 != 0).count());
    let chosen = select_units(&a, &buckets, &weights, n, h, stacks);
    assert_eq!(
        chosen,
        vec![
            ChosenUnit { bucket: 0, unit: 0, linear: bits(1.0) },
            ChosenUnit { bucket: 0, unit: 1, linear: bits(0.0) },
            ChosenUnit { bucket: 1, unit: 0, linear: bits(-0.0) },
        ]
    );
    // Too few positions: nothing is chosen.
    assert!(select_units(&a, &buckets, &weights, 1000, h, stacks).is_empty());
}

#[test]
fn fresh_rows_use_the_xorshift_stream() {
    let (k, h, u, step, f) = (1usize, 7usize, 3usize, 9761u64, 5usize);
    let mut seed = 0x9e3779b97f4a7c15u64 ^ ((k * h + u) as u64) ^ step;
    let expected: Vec<u32> = (0..f)
        .map(|_| {
            seed ^= seed << 13;
            seed ^= seed >> 7;
            seed ^= seed << 17;
            (seed >> 40) as u32
        })
        .collect();
    assert_eq!(row_seed_bits(k, h, u, step, f), expected);
    assert!(expected.iter().all(|&b| b < 1 << 24));
}

#[test]
fn recycle_targets_stay_in_the_bucket() {
    let (h, f, l1out, l2out, stacks) = (2usize, 4usize, 3usize, 2usize, 2usize);
    let t = recycle_targets(1, 1, h, f, l1out, l2out, stacks);
    assert_eq!(t.l1_out, 4);
    // Base of bucket 1's L2 block: 1 * 2 * 4 = 8; rows of 4 columns.
    assert_eq!(t.l2_columns, vec![9, 11, 13, 15]);
    assert_eq!(t.l2_biases, vec![2, 3]);
}

#[test]
fn only_changed_entries_lose_their_moments() {
    let mut momentum = vec![bits(0.25); 6];
    let mut velocity = vec![bits(0.5); 6];
    let mut slow = vec![bits(1.0); 6];
    reset_changed(&mut momentum, &mut velocity, &mut slow, &vec![(1, bits(3.0)), (4, bits(-2.0)), (1, bits(7.0))]);
    assert_eq!(momentum, vec![bits(0.25), bits(0.0), bits(0.25), bits(0.25), bits(0.0), bits(0.25)]);
    assert_eq!(velocity, vec![bits(0.5), bits(0.0), bits(0.5), bits(0.5), bits(0.0), bits(0.5)]);
    assert_eq!(slow, vec![bits(1.0), bits(7.0), bits(1.0), bits(1.0), bits(-2.0), bits(1.0)]);
}
