//! Per-layer learning-rate policy settings that the CUDA backend reads, and
//! the norm-loss placement they imply for each tensor.
use vstd::prelude::*;
use crate::error::CudaCppError;
use crate::float_bits::{F32Bits, one, spec_eq, spec_is_finite, spec_le, spec_lt, zero};
use crate::training_facts::OptimizerFacts;

verus! {

/// Which L1 parameters an optimizer update touches.
#[derive(Clone, Copy, Debug, PartialEq, Eq, Structural)]
pub enum SfnnUpdateScope {
    /// Every parameter.
    All,
    /// Any narrower scope.
    Restricted,
}

/// The layer of an updated tensor.
#[derive(Clone, Copy, Debug, PartialEq, Eq, Structural)]
pub enum SfnnUpdateLayer {
    L0,
    L1,
    L2,
    L3,
}

/// Whether an updated tensor holds weights or biases.
#[derive(Clone, Copy, Debug, PartialEq, Eq, Structural)]
pub enum SfnnUpdateParamKind {
    Weight,
    Bias,
}

/// The per-layer policy settings the backend reads.
#[derive(Clone, Copy, Debug, PartialEq, Eq, Structural)]
pub struct SfnnLayerLrMultipliers {
    /// FT learning-rate multiplier; zero freezes FT.
    pub l0: F32Bits,
    pub update_scope: SfnnUpdateScope,
    /// The legacy tatara weight clip.
    pub tatara_weight_clip: bool,
    /// Tensor-wise norm loss strength.
    pub norm_loss_strength: F32Bits,
    /// The weight saturation penalty (separate from the FT one).
    pub saturation_penalty: F32Bits,
    pub factorizer_residual_decay: F32Bits,
    /// L1 optimizer input centering.
    pub l1_center: bool,
    /// Strength of the persistent FT saturation penalty; zero disables it.
    pub ft_saturation_penalty: F32Bits,
    /// Upper-saturation fraction at which a batch qualifies, in `(0, 1]`.
    pub ft_saturation_rate: F32Bits,
    /// Consecutive qualifying batches before a unit is penalized.
    pub ft_saturation_patience: usize,
}

/// `0.2`, the default FT saturation rate.
pub open spec fn default_ft_saturation_rate() -> F32Bits {
    F32Bits(0x3E4C_CCCD)
}

/// The defaults: unit FT multiplier, scope `all`, everything optional off,
/// FT saturation rate 20% with a patience of one batch.
pub open spec fn spec_default_multipliers() -> SfnnLayerLrMultipliers {
    SfnnLayerLrMultipliers {
        l0: one(),
        update_scope: SfnnUpdateScope::All,
        tatara_weight_clip: false,
        norm_loss_strength: zero(),
        saturation_penalty: zero(),
        factorizer_residual_decay: zero(),
        l1_center: false,
        ft_saturation_penalty: zero(),
        ft_saturation_rate: default_ft_saturation_rate(),
        ft_saturation_patience: 1,
    }
}

impl Default for SfnnLayerLrMultipliers {
    fn default() -> (p: Self)
        ensures
            p == spec_default_multipliers(),
    {
        SfnnLayerLrMultipliers {
            l0: F32Bits::one(),
            update_scope: SfnnUpdateScope::All,
            tatara_weight_clip: false,
            norm_loss_strength: F32Bits::zero(),
            saturation_penalty: F32Bits::zero(),
            factorizer_residual_decay: F32Bits::zero(),
            l1_center: false,
            ft_saturation_penalty: F32Bits::zero(),
            ft_saturation_rate: F32Bits(0x3E4C_CCCD),
            ft_saturation_patience: 1,
        }
    }
}

/// A finite strength that is not negative.
pub open spec fn spec_valid_strength(x: F32Bits) -> bool {
    spec_is_finite(x) && spec_le(zero(), x)
}

/// The first setting that `validate` refuses, if any.
pub open spec fn spec_validate(p: SfnnLayerLrMultipliers) -> Result<(), CudaCppError> {
    if !spec_valid_strength(p.norm_loss_strength) {
        Err(CudaCppError::NormLossStrengthInvalid)
    } else if !spec_valid_strength(p.ft_saturation_penalty) {
        Err(CudaCppError::FtSaturationPenaltyInvalid)
    } else if !(spec_lt(zero(), p.ft_saturation_rate) && spec_le(p.ft_saturation_rate, one())) {
        Err(CudaCppError::FtSaturationRateInvalid)
    } else if p.ft_saturation_patience == 0 {
        Err(CudaCppError::FtSaturationPatienceInvalid)
    } else {
        Ok(())
    }
}

fn valid_strength(x: F32Bits) -> (b: bool)
    ensures
        b == spec_valid_strength(x),
{
    x.is_finite() && F32Bits::zero().float_le(x)
}

impl SfnnLayerLrMultipliers {
    /// Refuses a negative or non-finite norm loss or FT saturation strength,
    /// an FT saturation rate outside `(0, 1]`, and a zero patience.
    pub fn validate(&self) -> (res: Result<(), CudaCppError>)
        ensures
            res == spec_validate(*self),
    {
        if !valid_strength(self.norm_loss_strength) {
            return Err(CudaCppError::NormLossStrengthInvalid);
        }
        if !valid_strength(self.ft_saturation_penalty) {
            return Err(CudaCppError::FtSaturationPenaltyInvalid);
        }
        if !(F32Bits::zero().float_lt(self.ft_saturation_rate) && self.ft_saturation_rate.float_le(
            F32Bits::one(),
        )) {
            return Err(CudaCppError::FtSaturationRateInvalid);
        }
        if self.ft_saturation_patience == 0 {
            return Err(CudaCppError::FtSaturationPatienceInvalid);
        }
        Ok(())
    }

    /// The optimizer parameters of one tensor: FT weights (and their
    /// factors) get no norm loss; every other tensor gets the configured
    /// strength, applied before RAdam for the L3 bias and after it
    /// otherwise. Everything else passes through.
    pub fn clip_params(
        &self,
        p: RangerUpdateParams,
        layer: SfnnUpdateLayer,
        kind: SfnnUpdateParamKind,
    ) -> (q: RangerUpdateParams)
        ensures
            q == spec_clip_params(*self, p, layer, kind),
    {
        let excluded = layer == SfnnUpdateLayer::L0 && kind == SfnnUpdateParamKind::Weight;
        RangerUpdateParams {
            norm_loss_strength: if excluded {
                F32Bits::zero()
            } else {
                self.norm_loss_strength
            },
            norm_loss_before: layer == SfnnUpdateLayer::L3 && kind == SfnnUpdateParamKind::Bias,
            ..p
        }
    }
}

/// What `clip_params` gives for a tensor.
pub open spec fn spec_clip_params(
    lr: SfnnLayerLrMultipliers,
    p: RangerUpdateParams,
    layer: SfnnUpdateLayer,
    kind: SfnnUpdateParamKind,
) -> RangerUpdateParams {
    RangerUpdateParams {
        norm_loss_strength: if layer == SfnnUpdateLayer::L0 && kind == SfnnUpdateParamKind::Weight {
            zero()
        } else {
            lr.norm_loss_strength
        },
        norm_loss_before: layer == SfnnUpdateLayer::L3 && kind == SfnnUpdateParamKind::Bias,
        ..p
    }
}

/// The RAdam settings the backend checks.
#[derive(Clone, Copy, Debug, PartialEq, Eq, Structural)]
pub struct RAdamUpdateParams {
    pub decay: F32Bits,
    pub min_weight: F32Bits,
    pub max_weight: F32Bits,
}

/// The Ranger settings of one tensor update that the backend checks.
#[derive(Clone, Copy, Debug, PartialEq, Eq, Structural)]
pub struct RangerUpdateParams {
    pub radam: RAdamUpdateParams,
    pub norm_loss_strength: F32Bits,
    /// Apply the norm loss before RAdam rather than after it.
    pub norm_loss_before: bool,
}

/// No decay, no weight clip (infinite bounds), no norm loss.
pub open spec fn spec_default_update_params() -> RangerUpdateParams {
    RangerUpdateParams {
        radam: RAdamUpdateParams {
            decay: zero(),
            min_weight: F32Bits(0xFF80_0000),
            max_weight: F32Bits(0x7F80_0000),
        },
        norm_loss_strength: zero(),
        norm_loss_before: false,
    }
}

impl Default for RangerUpdateParams {
    fn default() -> (p: Self)
        ensures
            p == spec_default_update_params(),
    {
        RangerUpdateParams {
            radam: RAdamUpdateParams {
                decay: F32Bits::zero(),
                min_weight: F32Bits(0xFF80_0000),
                max_weight: F32Bits(0x7F80_0000),
            },
            norm_loss_strength: F32Bits::zero(),
            norm_loss_before: false,
        }
    }
}

/// `1e20`, beyond which a weight bound counts as no clip.
pub open spec fn clip_limit() -> F32Bits {
    F32Bits(0x60AD_78EC)
}

/// `-1e20`.
pub open spec fn negative_clip_limit() -> F32Bits {
    F32Bits(0xE0AD_78EC)
}

/// The optimizer facts of a tensor update under a policy: each is the
/// outcome of the comparison the centering checks make.
pub open spec fn spec_optimizer_facts(p: RangerUpdateParams, lr: SfnnLayerLrMultipliers) -> OptimizerFacts {
    OptimizerFacts {
        update_scope_all: lr.update_scope == SfnnUpdateScope::All,
        tatara_weight_clip: lr.tatara_weight_clip,
        weight_decay: !spec_eq(p.radam.decay, zero()),
        norm_loss: !spec_eq(lr.norm_loss_strength, zero()),
        saturation_penalty: !spec_eq(lr.saturation_penalty, zero()),
        factorizer_residual_decay: !spec_eq(lr.factorizer_residual_decay, zero()),
        min_weight_clip: spec_lt(negative_clip_limit(), p.radam.min_weight),
        max_weight_clip: spec_lt(p.radam.max_weight, clip_limit()),
    }
}

/// Evaluates the comparisons of `spec_optimizer_facts`.
pub fn optimizer_facts(p: &RangerUpdateParams, lr: &SfnnLayerLrMultipliers) -> (f: OptimizerFacts)
    ensures
        f == spec_optimizer_facts(*p, *lr),
{
    let z = F32Bits::zero();
    OptimizerFacts {
        update_scope_all: lr.update_scope == SfnnUpdateScope::All,
        tatara_weight_clip: lr.tatara_weight_clip,
        weight_decay: !p.radam.decay.float_eq(z),
        norm_loss: !lr.norm_loss_strength.float_eq(z),
        saturation_penalty: !lr.saturation_penalty.float_eq(z),
        factorizer_residual_decay: !lr.factorizer_residual_decay.float_eq(z),
        min_weight_clip: F32Bits(0xE0AD_78EC).float_lt(p.radam.min_weight),
        max_weight_clip: p.radam.max_weight.float_lt(F32Bits(0x60AD_78EC)),
    }
}

} // verus!
