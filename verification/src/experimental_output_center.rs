//! Diagnostic experiment: center the optimizer coordinates of L2 and L3
//! only. Forward and checkpoints keep the folded affine form.
use vstd::prelude::*;
use crate::env_value::{EnvValue, is_text, spec_is_text};
use crate::error::CudaCppError;
use crate::training_facts::{
    ExperimentEnv, OptimizerFacts, RunnerFacts, plain_optimizer, spec_plain_optimizer,
};

verus! {

/// Where the L2/L3 input means are computed.
#[derive(Clone, Copy, Debug, PartialEq, Eq, Structural)]
pub enum OutputCenterMode {
    /// On the host, as a reference (`1`).
    HostReference,
    /// On the device (`gpu`).
    Gpu,
}

/// What `capture` decides for `BULLETOU_EXPERIMENT_OUTPUT_CENTER` and the
/// configuration.
pub open spec fn spec_capture(
    var: EnvValue,
    r: RunnerFacts,
    o: OptimizerFacts,
    env: ExperimentEnv,
) -> Result<Option<OutputCenterMode>, CudaCppError> {
    if var is NotPresent {
        Ok(None)
    } else if !spec_is_text(var, "1"@) && !spec_is_text(var, "gpu"@) {
        Err(CudaCppError::OutputCenterMode)
    } else if r.l2_factorizer || r.l3_factorizer || r.any_factorizer_axis || r.count_gates
        || !spec_plain_optimizer(o) || env.l1_center || env.l1_project_update {
        Err(CudaCppError::OutputCenterUnsupported)
    } else if spec_is_text(var, "gpu"@) {
        Ok(Some(OutputCenterMode::Gpu))
    } else {
        Ok(Some(OutputCenterMode::HostReference))
    }
}

/// Reads the mode and checks that L2/L3 have no factorizers and that no
/// gate, clip, penalty or other centering is active.
pub fn capture(var: &EnvValue, r: &RunnerFacts, o: &OptimizerFacts, env: &ExperimentEnv) -> (res:
    Result<Option<OutputCenterMode>, CudaCppError>)
    ensures
        res == spec_capture(*var, *r, *o, *env),
{
    if let EnvValue::NotPresent = var {
        return Ok(None);
    }
    let gpu = is_text(var, "gpu");
    if !is_text(var, "1") && !gpu {
        return Err(CudaCppError::OutputCenterMode);
    }
    if r.l2_factorizer || r.l3_factorizer || r.any_factorizer_axis || r.count_gates
        || !plain_optimizer(o) || env.l1_center || env.l1_project_update {
        return Err(CudaCppError::OutputCenterUnsupported);
    }
    if gpu {
        Ok(Some(OutputCenterMode::Gpu))
    } else {
        Ok(Some(OutputCenterMode::HostReference))
    }
}

/// GPU centering needs the mean workspace that runner construction
/// allocates.
pub fn capture_workspace(mode: OutputCenterMode, has_workspace: bool) -> (res: Result<(), CudaCppError>)
    ensures
        res == (if mode == OutputCenterMode::Gpu && !has_workspace {
            Err(CudaCppError::OutputCenterNotConfigured)
        } else {
            Ok(())
        }),
{
    if mode == OutputCenterMode::Gpu && !has_workspace {
        Err(CudaCppError::OutputCenterNotConfigured)
    } else {
        Ok(())
    }
}

/// Moving the L2/L3 groups between coordinates with device means needs the
/// mean workspace; host means need nothing.
pub fn transform_workspace(mode: OutputCenterMode, has_workspace: bool) -> (res: Result<
    (),
    CudaCppError,
>)
    ensures
        res == (if mode == OutputCenterMode::Gpu && !has_workspace {
            Err(CudaCppError::OutputCenterMissingWorkspace)
        } else {
            Ok(())
        }),
{
    if mode == OutputCenterMode::Gpu && !has_workspace {
        Err(CudaCppError::OutputCenterMissingWorkspace)
    } else {
        Ok(())
    }
}


/// Law: once the variable is present, output centering is refused whenever
/// L2 or L3 carries a factorizer tensor, a factorizer axis or count gates
/// are on, an optimizer setting it cannot carry (tatara clip, weight decay,
/// norm loss, saturation penalty, factorizer residual decay, a lower or
/// upper weight clip) is active, or a legacy centering variable is set: it
/// never enables a mode then. With a valid mode text (`1` or `gpu`) the
/// refusal is `OutputCenterUnsupported`, and comes exactly in those cases.
pub proof fn lemma_capture_refuses_interfering_settings(
    var: EnvValue,
    r: RunnerFacts,
    o: OptimizerFacts,
    env: ExperimentEnv,
)
    requires
        !(var is NotPresent),
    ensures
        (r.l2_factorizer || r.l3_factorizer || r.any_factorizer_axis || r.count_gates
            || o.tatara_weight_clip || o.weight_decay || o.norm_loss || o.saturation_penalty
            || o.factorizer_residual_decay || o.min_weight_clip || o.max_weight_clip
            || env.l1_center || env.l1_project_update) ==> spec_capture(var, r, o, env) is Err,
        spec_is_text(var, "1"@) || spec_is_text(var, "gpu"@) ==> ((r.l2_factorizer
            || r.l3_factorizer || r.any_factorizer_axis || r.count_gates || o.tatara_weight_clip
            || o.weight_decay || o.norm_loss || o.saturation_penalty || o.factorizer_residual_decay
            || o.min_weight_clip || o.max_weight_clip || env.l1_center || env.l1_project_update)
            <==> spec_capture(var, r, o, env) == Err::<Option<OutputCenterMode>, CudaCppError>(
            CudaCppError::OutputCenterUnsupported,
        )),
{
}

} // verus!
