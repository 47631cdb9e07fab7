use cuda_cpp::error::CudaCppError;
use cuda_cpp::rate::{maximum, render_maximum, RateEntry};
use cuda_cpp::shape::SfnnForwardShape;
use cuda_cpp::unit_saturation_stats::{render_summary, SfnnUnitSaturationStats};

/// Renders a selected maximum the way the training report does: the rate
/// in percent with four decimals, then the entry.
fn render_best(best: Option<RateEntry>) -> String {
    let percent = match best {
        Some((count, n, _, _)) => format!("{:.4}", 100.0 * count as f64 / n as f64),
        None => String::new(),
    };
    render_maximum(best, &percent)
}

fn render(values: &[RateEntry]) -> String {
    render_best(maximum(&values.to_vec()))
}

fn report(stats: &SfnnUnitSaturationStats) -> String {
    let m = stats.summary();
    render_summary(
        &render_best(m.ft),
        &render_best(m.l1),
        &render_best(m.l1_square),
        &render_best(m.l2),
    )
}

fn tiny_shape() -> SfnnForwardShape {
    SfnnForwardShape { input_size: 8, ft_size: 4, l1_hidden: 3, l2_size: 2, num_stacks: 3, l1_skip: false }
}

#[test]
fn maxima_keep_rare_buckets_and_ignore_unseen() {
    assert_eq!(
        render(&[(0, 0, Some(0), 0), (80, 100, Some(1), 1), (1, 1, Some(2), 2)]),
        "100.0000%(bucket=2,unit=2,hits=1,n=1)"
    );
    assert_eq!(render(&[]), "n/a(no-samples)");
}

#[test]
fn maximum_keeps_first_on_tie_and_shared_units() {
    let values = vec![(1, 4, None, 0), (2, 8, None, 1), (3, 4, None, 2), (6, 8, None, 3)];
    assert_eq!(maximum(&values), Some((3, 4, None, 2)));
    assert_eq!(render(&values), "75.0000%(bucket=shared,unit=2,hits=3,n=4)");
    assert_eq!(maximum(&vec![(5, 0, Some(0), 0), (0, 0, None, 1)]), None);
    assert_eq!(maximum(&vec![(0, 3, Some(7), 4)]), Some((0, 3, Some(7), 4)));
    assert_eq!(render(&[(0, 3, Some(7), 4)]), "0.0000%(bucket=7,unit=4,hits=0,n=3)");
    let big = u64::MAX;
    assert_eq!(maximum(&vec![(big - 1, big, None, 0), (big, big, None, 1)]), Some((big, big, None, 1)));
    assert_eq!(
        render(&[(12345678901, 98765432109, Some(10), 1234)]),
        format!(
            "{:.4}%(bucket=10,unit=1234,hits=12345678901,n=98765432109)",
            100.0 * 12345678901u64 as f64 / 98765432109u64 as f64
        )
    );
}

#[test]
fn new_sizes_counters_and_refuses_overflow() {
    let stats = SfnnUnitSaturationStats::new(tiny_shape()).unwrap();
    assert_eq!(stats.totals().len(), 3 * (1 + 2 * 3 + 2) + 4);
    assert!(stats.totals().iter().all(|&v| v == 0));
    assert_eq!(stats.positions(), 0);
    assert_eq!(stats.shape(), tiny_shape());
    let shape = |l1_hidden, l2_size, num_stacks, ft_size| SfnnForwardShape {
        l1_hidden,
        l2_size,
        num_stacks,
        ft_size,
        ..tiny_shape()
    };
    let err = |s| SfnnUnitSaturationStats::new(s).err();
    assert_eq!(err(shape(usize::MAX / 2 + 1, 0, 1, 0)), Some(CudaCppError::UnitStatsHiddenOverflow));
    assert_eq!(err(shape(usize::MAX / 2, 1, 1, 0)), Some(CudaCppError::UnitStatsStrideOverflow));
    assert_eq!(err(shape(1, 1, usize::MAX / 2, 0)), Some(CudaCppError::UnitStatsBucketsOverflow));
    assert_eq!(err(shape(0, 0, 10, usize::MAX - 5)), Some(CudaCppError::UnitStatsLengthOverflow));
    assert_eq!(CudaCppError::UnitStatsStrideOverflow.message(), "unit stats stride overflow");
}

#[test]
fn counts_accumulate_over_chunks_and_reset() {
    let s = tiny_shape();
    let mut stats = SfnnUnitSaturationStats::new(s).unwrap();
    let len = stats.totals().len();
    let mut expected = vec![0u64; len];
    let mut positions = 0u64;
    for (chunk, n) in [(1i32, 1usize), (2, 17), (3, 257)] {
        let counts: Vec<i32> = (0..len as i32).map(|i| (i * chunk) % 5).collect();
        stats.accumulate(s, &counts, n).unwrap();
        for (e, &c) in expected.iter_mut().zip(&counts) {
            *e += c as u64;
        }
        positions += n as u64;
        assert_eq!(stats.totals(), &expected);
    }
    assert_eq!(stats.positions(), 275);
    assert_eq!(positions, 275);
    assert!(report(&stats).starts_with("ft_unit_upper_max="));
    stats.reset();
    assert!(stats.totals().iter().all(|&v| v == 0));
    assert_eq!(stats.positions(), 0);
    assert_eq!(
        report(&stats),
        "ft_unit_upper_max=n/a(no-samples) l1_unit_upper_max=n/a(no-samples) \
         l1_square_unit_upper_max=n/a(no-samples) l2_unit_upper_max=n/a(no-samples) \
         l3_unit_upper_max=n/a(no-clamp)"
    );
}

#[test]
fn negative_count_stops_the_pass() {
    let mut stats = SfnnUnitSaturationStats::new(tiny_shape()).unwrap();
    let len = stats.totals().len();
    let mut counts = vec![2i32; len];
    counts[5] = -1;
    assert_eq!(stats.accumulate(tiny_shape(), &counts, 10), Err(CudaCppError::NegativeUnitSaturationCount));
    let totals = stats.totals();
    assert!(totals[..5].iter().all(|&v| v == 2));
    assert!(totals[5..].iter().all(|&v| v == 0));
    assert_eq!(stats.positions(), 0);
    assert_eq!(
        CudaCppError::NegativeUnitSaturationCount.message(),
        "negative unit saturation count"
    );
}

#[test]
fn workspace_shape_must_match() {
    let stats = SfnnUnitSaturationStats::new(tiny_shape()).unwrap();
    assert_eq!(stats.check_workspace(tiny_shape()), Ok(()));
    let other = SfnnForwardShape { l1_skip: true, ..tiny_shape() };
    assert_eq!(stats.check_workspace(other), Err(CudaCppError::UnitStatsShapeMismatch));
    let mut stats = stats;
    let counts = vec![1i32; stats.totals().len()];
    assert_eq!(stats.accumulate(other, &counts, 3), Err(CudaCppError::UnitStatsShapeMismatch));
    assert!(stats.totals().iter().all(|&v| v == 0));
    assert_eq!(stats.positions(), 0);
    assert_eq!(CudaCppError::UnitStatsShapeMismatch.message(), "unit stats shape mismatch");
}

#[test]
fn summary_rates_each_layer_against_its_positions() {
    let s = tiny_shape();
    let mut stats = SfnnUnitSaturationStats::new(s).unwrap();
    let len = stats.totals().len();
    let stride = 1 + 2 * s.l1_hidden + s.l2_size;
    let mut counts = vec![0i32; len];
    // FT: unit 2 saturated in 6 of 2 * 5 views.
    counts[2] = 6;
    counts[1] = 3;
    // Bucket 1 saw 4 positions: L1 unit 1 three times, square unit 0 once,
    // L2 unit 1 four times.
    let b1 = s.ft_size + stride;
    counts[b1] = 4;
    counts[b1 + 1 + 1] = 3;
    counts[b1 + 1 + s.l1_hidden] = 1;
    counts[b1 + 1 + 2 * s.l1_hidden + 1] = 4;
    // Bucket 2 saw 1 position with L1 unit 0 saturated.
    let b2 = s.ft_size + 2 * stride;
    counts[b2] = 1;
    counts[b2 + 1] = 1;
    stats.accumulate(s, &counts, 5).unwrap();
    let m = stats.summary();
    assert_eq!(m.ft, Some((6, 10, None, 2)));
    assert_eq!(m.l1, Some((1, 1, Some(2), 0)));
    assert_eq!(m.l1_square, Some((1, 4, Some(1), 0)));
    assert_eq!(m.l2, Some((4, 4, Some(1), 1)));
    assert_eq!(
        report(&stats),
        "ft_unit_upper_max=60.0000%(bucket=shared,unit=2,hits=6,n=10) \
         l1_unit_upper_max=100.0000%(bucket=2,unit=0,hits=1,n=1) \
         l1_square_unit_upper_max=25.0000%(bucket=1,unit=0,hits=1,n=4) \
         l2_unit_upper_max=100.0000%(bucket=1,unit=1,hits=4,n=4) \
         l3_unit_upper_max=n/a(no-clamp)"
    );
}

#[test]
fn entries_without_samples_never_change_the_maximum() {
    let values = vec![(80, 100, Some(1), 1), (1, 1, Some(2), 2), (3, 4, None, 0)];
    let unseen = (99, 0, Some(9), 9);
    for at in 0..=values.len() {
        for count in 1..3 {
            let mut ws = values.clone();
            for _ in 0..count {
                ws.insert(at, unseen);
            }
            assert_eq!(maximum(&ws), maximum(&values));
        }
    }
}
