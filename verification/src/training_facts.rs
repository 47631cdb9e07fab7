use vstd::prelude::*;

verus! {

/// What the experimental modes need to know of the training runner's
/// layout.
#[derive(Clone, Copy, Debug, PartialEq, Eq, Structural)]
pub struct RunnerFacts {
    /// The L1 layer uses the compact layout.
    pub compact_l1: bool,
    /// Some factorizer axis or pair factor is enabled.
    pub any_factorizer_axis: bool,
    /// L1 has a factorizer shared by all buckets.
    pub shared_factorizer: bool,
    /// Residual count gates are enabled.
    pub count_gates: bool,
    /// The L2 weights have a factorizer tensor.
    pub l2_factorizer: bool,
    /// The L3 weights have a factorizer tensor.
    pub l3_factorizer: bool,
}

/// Optimizer settings that interfere with centering; each field tells
/// whether the setting is active.
#[derive(Clone, Copy, Debug, PartialEq, Eq, Structural)]
pub struct OptimizerFacts {
    /// The L1 update scope is `all`.
    pub update_scope_all: bool,
    /// The legacy tatara weight clip is on.
    pub tatara_weight_clip: bool,
    /// Weight decay is not zero.
    pub weight_decay: bool,
    /// The norm loss strength is not zero.
    pub norm_loss: bool,
    /// The saturation penalty is not zero.
    pub saturation_penalty: bool,
    /// The factorizer residual decay is not zero.
    pub factorizer_residual_decay: bool,
    /// The optimizer clips weights from below (minimum above `-1e20`).
    pub min_weight_clip: bool,
    /// The optimizer clips weights from above (maximum below `1e20`).
    pub max_weight_clip: bool,
}

/// Which legacy research variables are set in the environment.
#[derive(Clone, Copy, Debug, PartialEq, Eq, Structural)]
pub struct ExperimentEnv {
    /// `BULLETOU_EXPERIMENT_L1_CENTER` is set.
    pub l1_center: bool,
    /// `BULLETOU_EXPERIMENT_L1_PROJECT_UPDATE` is set.
    pub l1_project_update: bool,
}

/// Dense L1 with factorizer none or shared, and no count gates.
pub open spec fn spec_dense_plain_l1(r: RunnerFacts) -> bool {
    !r.compact_l1 && !r.any_factorizer_axis && !r.count_gates
}

/// No optimizer setting that centering cannot carry across its coordinate
/// change is active.
pub open spec fn spec_plain_optimizer(o: OptimizerFacts) -> bool {
    &&& !o.tatara_weight_clip
    &&& !o.weight_decay
    &&& !o.norm_loss
    &&& !o.saturation_penalty
    &&& !o.factorizer_residual_decay
    &&& !o.min_weight_clip
    &&& !o.max_weight_clip
}

/// Dense L1 with factorizer none or shared, and no count gates.
pub fn dense_plain_l1(r: &RunnerFacts) -> (ok: bool)
    ensures
        ok == spec_dense_plain_l1(*r),
{
    !r.compact_l1 && !r.any_factorizer_axis && !r.count_gates
}

/// No weight clip, decay, penalty or residual decay is active.
pub fn plain_optimizer(o: &OptimizerFacts) -> (ok: bool)
    ensures
        ok == spec_plain_optimizer(*o),
{
    !o.tatara_weight_clip && !o.weight_decay && !o.norm_loss && !o.saturation_penalty
        && !o.factorizer_residual_decay && !o.min_weight_clip && !o.max_weight_clip
}

} // verus!
