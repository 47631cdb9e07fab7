use cuda_cpp::error::CudaCppError;
use cuda_cpp::l1_center::{center_buffer_lengths, validate_effective_clip, CenterStep, L1CenterWindow, PrepareStep};
use cuda_cpp::training_facts::{ExperimentEnv, OptimizerFacts, RunnerFacts};

fn dense() -> RunnerFacts {
    RunnerFacts {
        compact_l1: false,
        any_factorizer_axis: false,
        shared_factorizer: true,
        count_gates: false,
        l2_factorizer: false,
        l3_factorizer: false,
    }
}

fn plain() -> OptimizerFacts {
    OptimizerFacts {
        update_scope_all: true,
        tatara_weight_clip: false,
        weight_decay: false,
        norm_loss: false,
        saturation_penalty: false,
        factorizer_residual_decay: false,
        min_weight_clip: false,
        max_weight_clip: false,
    }
}

fn clean_env() -> ExperimentEnv {
    ExperimentEnv { l1_center: false, l1_project_update: false }
}

/// The device side: a center and a sum buffer of `d` values.
struct Buffers {
    center: Vec<f64>,
    sum: Vec<f64>,
}

/// Runs one accumulation plan on `buffers` with this batch's means.
fn run(window: &mut L1CenterWindow, buffers: &mut Option<Buffers>, enabled: bool, means: &[f64]) {
    for step in window.accumulate(enabled) {
        match step {
            CenterStep::Allocate => {
                *buffers = Some(Buffers { center: vec![f64::NAN; means.len()], sum: vec![f64::NAN; means.len()] })
            }
            CenterStep::CopyCenterToSum => {
                let b = buffers.as_mut().unwrap();
                b.sum = b.center.clone();
            }
            CenterStep::MeanIntoCenter => buffers.as_mut().unwrap().center = means.to_vec(),
            CenterStep::AddCenterToSum => {
                let b = buffers.as_mut().unwrap();
                for (s, c) in b.sum.iter_mut().zip(&b.center) {
                    *s += c;
                }
            }
            CenterStep::CountBatch => {}
        }
        window.record(step);
    }
}

#[test]
fn accumulation_plans_follow_the_window() {
    let mut w = L1CenterWindow::new();
    assert_eq!(w.accumulate(true), vec![CenterStep::Allocate, CenterStep::MeanIntoCenter, CenterStep::CountBatch]);
    for step in [CenterStep::Allocate, CenterStep::MeanIntoCenter, CenterStep::CountBatch] {
        w.record(step);
    }
    assert_eq!(w, L1CenterWindow { batches: 1, allocated: true });
    assert_eq!(
        w.accumulate(true),
        vec![CenterStep::CopyCenterToSum, CenterStep::MeanIntoCenter, CenterStep::AddCenterToSum, CenterStep::CountBatch]
    );
    w.record(CenterStep::CountBatch);
    assert_eq!(w.accumulate(true), vec![CenterStep::MeanIntoCenter, CenterStep::AddCenterToSum, CenterStep::CountBatch]);
    assert!(w.accumulate(false).is_empty());
    assert_eq!(w, L1CenterWindow { batches: 0, allocated: true });
}

#[test]
fn prepared_center_is_the_mean_of_every_batch_in_the_window() {
    for n in 1..=5usize {
        let mut w = L1CenterWindow::new();
        let mut buffers = None;
        // An earlier, disabled window leaves nothing behind.
        run(&mut w, &mut buffers, true, &[100.0, -100.0]);
        run(&mut w, &mut buffers, false, &[0.0, 0.0]);
        let batches: Vec<[f64; 2]> = (0..n).map(|i| [i as f64, 1.0 + 2.0 * i as f64]).collect();
        for m in &batches {
            run(&mut w, &mut buffers, true, m);
        }
        assert_eq!(w.batches, n as u64);
        let b = buffers.as_mut().unwrap();
        match w.prepare(true, &dense(), &plain(), &clean_env()).unwrap().unwrap() {
            PrepareStep::Ready => assert_eq!(n, 1),
            PrepareStep::ScaleSumIntoCenter { batches } => {
                assert_eq!(batches, n as u64);
                b.center = b.sum.iter().map(|s| s * (1.0 / batches as f64)).collect();
            }
        }
        for j in 0..2 {
            let mean = batches.iter().map(|m| m[j]).sum::<f64>() / n as f64;
            assert!((b.center[j] - mean).abs() < 1e-12);
        }
    }
}

#[test]
fn prepare_refuses_what_centering_cannot_carry() {
    let w = L1CenterWindow { batches: 2, allocated: true };
    assert_eq!(w.prepare(false, &dense(), &plain(), &clean_env()), Ok(None));
    let unsupported = Err(CudaCppError::L1CenterUnsupported);
    assert_eq!(w.prepare(true, &RunnerFacts { compact_l1: true, ..dense() }, &plain(), &clean_env()), unsupported);
    assert_eq!(w.prepare(true, &RunnerFacts { count_gates: true, ..dense() }, &plain(), &clean_env()), unsupported);
    assert_eq!(w.prepare(true, &dense(), &OptimizerFacts { update_scope_all: false, ..plain() }, &clean_env()), unsupported);
    assert_eq!(w.prepare(true, &dense(), &OptimizerFacts { min_weight_clip: true, ..plain() }, &clean_env()), unsupported);
    assert_eq!(w.prepare(true, &dense(), &OptimizerFacts { norm_loss: true, ..plain() }, &clean_env()), unsupported);
    assert_eq!(
        w.prepare(true, &dense(), &plain(), &ExperimentEnv { l1_project_update: true, ..clean_env() }),
        unsupported
    );
    assert_eq!(
        L1CenterWindow { batches: 0, allocated: false }.prepare(true, &dense(), &plain(), &clean_env()),
        Err(CudaCppError::L1CenterMissingMeans)
    );
    assert_eq!(
        L1CenterWindow { batches: 0, allocated: true }.prepare(true, &dense(), &plain(), &clean_env()),
        Err(CudaCppError::L1CenterNoBatches)
    );
    assert_eq!(CudaCppError::L1CenterNoBatches.message(), "L1 centering has no accumulated batches");
    assert_eq!(
        CudaCppError::L1CenterMissingMeans.message(),
        "L1 centering requires accumulated input means before update"
    );
}

#[test]
fn effective_clip_needs_dense_plain_l1_and_full_scope() {
    assert_eq!(validate_effective_clip(&dense(), true), Ok(()));
    let err = Err(CudaCppError::EffectiveClipUnsupported);
    assert_eq!(validate_effective_clip(&dense(), false), err);
    assert_eq!(validate_effective_clip(&RunnerFacts { any_factorizer_axis: true, ..dense() }, true), err);
    assert_eq!(validate_effective_clip(&RunnerFacts { compact_l1: true, ..dense() }, true), err);
    assert_eq!(validate_effective_clip(&RunnerFacts { count_gates: true, ..dense() }, true), err);
    assert_eq!(
        CudaCppError::EffectiveClipUnsupported.message(),
        "L1 effective weight clip requires dense L1, none/shared, no count gates, update-scope=all"
    );
}

#[test]
fn center_buffers_hold_reduction_scratch_and_sum() {
    assert_eq!(center_buffer_lengths(1024), (32 * 1024, 1024));
    assert_eq!(center_buffer_lengths(0), (0, 0));
    // About 132 KiB of f32 at FT width 1024.
    let (c, s) = center_buffer_lengths(1024);
    assert_eq!((c + s) * 4, 135168);
}
