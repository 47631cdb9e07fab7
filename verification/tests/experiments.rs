use cuda_cpp::env_value::EnvValue;
use cuda_cpp::error::CudaCppError;
use cuda_cpp::experimental_l1_center::{center, constant_center, layout_index, transform, CenterSource, Layout};
use cuda_cpp::experimental_l1_project::{capture as capture_projection, is_projected_row, synchronized};
use cuda_cpp::experimental_output_center::{
    capture as capture_output, capture_workspace, transform_workspace, OutputCenterMode,
};
use cuda_cpp::float_bits::F32Bits;
use cuda_cpp::lr_policy::{optimizer_facts, RangerUpdateParams, SfnnLayerLrMultipliers, SfnnUpdateScope};
use cuda_cpp::training_facts::{ExperimentEnv, OptimizerFacts, RunnerFacts};

fn text(s: &str) -> EnvValue {
    EnvValue::Value(s.to_string())
}

fn bits(x: f32) -> F32Bits {
    F32Bits(x.to_bits())
}

fn dense(shared: bool) -> RunnerFacts {
    RunnerFacts {
        compact_l1: false,
        any_factorizer_axis: false,
        shared_factorizer: shared,
        count_gates: false,
        l2_factorizer: false,
        l3_factorizer: false,
    }
}

fn plain() -> OptimizerFacts {
    optimizer_facts(&RangerUpdateParams::default(), &SfnnLayerLrMultipliers::default())
}

fn clean_env() -> ExperimentEnv {
    ExperimentEnv { l1_center: false, l1_project_update: false }
}

#[test]
fn experimental_center_sources() {
    assert_eq!(center(&EnvValue::NotPresent), Ok(None));
    assert_eq!(center(&text("batch")), Ok(Some(CenterSource::BatchMean)));
    assert_eq!(center(&text("0.25")), Ok(Some(CenterSource::Constant)));
    assert_eq!(center(&text("Batch")), Ok(Some(CenterSource::Constant)));
    assert_eq!(center(&EnvValue::NotUnicode), Err(CudaCppError::InvalidExperimentalCenterEnvironment));
    assert_eq!(constant_center(Some(bits(0.25)), 3), Ok(vec![bits(0.25); 3]));
    assert_eq!(constant_center(None, 3), Err(CudaCppError::InvalidExperimentalCenter));
    assert_eq!(constant_center(Some(bits(f32::INFINITY)), 3), Err(CudaCppError::NonfiniteExperimentalCenter));
    assert_eq!(constant_center(Some(bits(f32::NAN)), 3), Err(CudaCppError::NonfiniteExperimentalCenter));
    assert_eq!(CudaCppError::InvalidExperimentalCenter.message(), "invalid experimental L1 center");
}

#[test]
fn experimental_transform_groups_and_layouts() {
    assert_eq!(transform(&dense(false)), Ok(vec![Layout::RowMajor]));
    assert_eq!(transform(&dense(true)), Ok(vec![Layout::RowMajor, Layout::ColumnMajor]));
    assert_eq!(
        transform(&RunnerFacts { count_gates: true, ..dense(true) }),
        Err(CudaCppError::ExperimentalCenterUnsupported)
    );
    // Three inputs, two outputs: shared storage is [input][output].
    assert_eq!(layout_index(Layout::ColumnMajor, 2, 3, 1, 2), 2 * 2 + 1);
    assert_eq!(layout_index(Layout::RowMajor, 2, 3, 1, 2), 3 + 2);
    for layout in [Layout::RowMajor, Layout::ColumnMajor] {
        let mut seen = vec![false; 12];
        for r in 0..3 {
            for c in 0..4 {
                let i = layout_index(layout, 3, 4, r, c);
                assert!(!seen[i]);
                seen[i] = true;
            }
        }
        assert!(seen.iter().all(|&s| s));
    }
}

#[test]
fn projection_capture() {
    let env = clean_env();
    assert_eq!(capture_projection(&EnvValue::NotPresent, &dense(true), &env), Ok(None));
    assert_eq!(capture_projection(&text("1"), &dense(false), &env), Ok(Some(vec![Layout::RowMajor])));
    assert_eq!(
        capture_projection(&text("1"), &dense(true), &env),
        Ok(Some(vec![Layout::RowMajor, Layout::ColumnMajor]))
    );
    assert_eq!(capture_projection(&text("yes"), &dense(true), &env), Err(CudaCppError::ProjectionExpectsOne));
    assert_eq!(capture_projection(&EnvValue::NotUnicode, &dense(true), &env), Err(CudaCppError::ProjectionExpectsOne));
    assert_eq!(
        capture_projection(&text("1"), &dense(true), &ExperimentEnv { l1_center: true, ..env }),
        Err(CudaCppError::ProjectionUnsupported)
    );
    assert_eq!(
        capture_projection(&text("1"), &RunnerFacts { compact_l1: true, ..dense(true) }, &env),
        Err(CudaCppError::ProjectionUnsupported)
    );
    let rows: Vec<bool> = (0..6).map(|r| is_projected_row(r, 2, 3)).collect();
    assert_eq!(rows, vec![true, true, false, true, true, false]);
}

#[test]
fn output_center_capture() {
    let env = clean_env();
    assert_eq!(capture_output(&EnvValue::NotPresent, &dense(true), &plain(), &env), Ok(None));
    assert_eq!(
        capture_output(&text("1"), &dense(true), &plain(), &env),
        Ok(Some(OutputCenterMode::HostReference))
    );
    assert_eq!(capture_output(&text("gpu"), &dense(true), &plain(), &env), Ok(Some(OutputCenterMode::Gpu)));
    assert_eq!(capture_output(&text("2"), &dense(true), &plain(), &env), Err(CudaCppError::OutputCenterMode));
    assert_eq!(capture_output(&EnvValue::NotUnicode, &dense(true), &plain(), &env), Err(CudaCppError::OutputCenterMode));
    assert_eq!(
        capture_output(&text("gpu"), &RunnerFacts { l3_factorizer: true, ..dense(true) }, &plain(), &env),
        Err(CudaCppError::OutputCenterUnsupported)
    );
    // Compact L1 is not among the output centering restrictions.
    assert_eq!(
        capture_output(&text("1"), &RunnerFacts { compact_l1: true, ..dense(true) }, &plain(), &env),
        Ok(Some(OutputCenterMode::HostReference))
    );
    let decay = optimizer_facts(
        &RangerUpdateParams {
            radam: cuda_cpp::lr_policy::RAdamUpdateParams {
                decay: bits(0.01),
                ..RangerUpdateParams::default().radam
            },
            ..RangerUpdateParams::default()
        },
        &SfnnLayerLrMultipliers::default(),
    );
    assert_eq!(capture_output(&text("1"), &dense(true), &decay, &env), Err(CudaCppError::OutputCenterUnsupported));
    assert_eq!(capture_workspace(OutputCenterMode::Gpu, false), Err(CudaCppError::OutputCenterNotConfigured));
    assert_eq!(capture_workspace(OutputCenterMode::Gpu, true), Ok(()));
    assert_eq!(capture_workspace(OutputCenterMode::HostReference, false), Ok(()));
    assert_eq!(transform_workspace(OutputCenterMode::Gpu, false), Err(CudaCppError::OutputCenterMissingWorkspace));
    assert_eq!(transform_workspace(OutputCenterMode::HostReference, false), Ok(()));
    assert_eq!(
        CudaCppError::OutputCenterNotConfigured.message(),
        "configure GPU output centering before constructing the runner"
    );
}

#[test]
fn optimizer_facts_follow_the_float_comparisons() {
    let lr = SfnnLayerLrMultipliers::default();
    let p = RangerUpdateParams::default();
    assert_eq!(
        optimizer_facts(&p, &lr),
        OptimizerFacts {
            update_scope_all: true,
            tatara_weight_clip: false,
            weight_decay: false,
            norm_loss: false,
            saturation_penalty: false,
            factorizer_residual_decay: false,
            min_weight_clip: false,
            max_weight_clip: false,
        }
    );
    for (min, max, clip_min, clip_max) in [
        (-1e20f32, 1e20f32, false, false),
        (-1.98, 1.98, true, true),
        (-1e21, 1e19, false, true),
        (f32::NAN, f32::NAN, false, false),
    ] {
        let mut q = p;
        q.radam.min_weight = bits(min);
        q.radam.max_weight = bits(max);
        let f = optimizer_facts(&q, &lr);
        assert_eq!((f.min_weight_clip, f.max_weight_clip), (clip_min, clip_max), "{min} {max}");
    }
    let lr2 = SfnnLayerLrMultipliers {
        update_scope: SfnnUpdateScope::Restricted,
        norm_loss_strength: bits(-0.0),
        saturation_penalty: bits(f32::NAN),
        ..lr
    };
    let f = optimizer_facts(&p, &lr2);
    assert!(!f.update_scope_all);
    assert!(!f.norm_loss);
    assert!(f.saturation_penalty);
}

#[test]
fn lookahead_synchronization_is_float_equality() {
    let v = vec![bits(0.5), bits(0.0)];
    assert!(synchronized(&v, &v));
    assert!(synchronized(&v, &vec![bits(0.5), bits(-0.0)]));
    assert!(!synchronized(&v, &vec![bits(0.5)]));
    assert!(!synchronized(&vec![bits(f32::NAN)], &vec![bits(f32::NAN)]));
    assert!(!synchronized(&v, &vec![bits(0.5), bits(1e-30)]));
}
