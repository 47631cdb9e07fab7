//! Linear pre-clamp hinge gradient on FT units, gated by consecutive
//! high-saturation training batches: the host-side decisions.
use vstd::prelude::*;
use crate::error::CudaCppError;
use crate::float_bits::{F32Bits, spec_eq, zero};
use crate::lr_policy::{SfnnLayerLrMultipliers, spec_validate};

verus! {

/// The settings a guard's saturation history was built for.
#[derive(Clone, Copy, Debug, PartialEq, Eq, Structural)]
pub struct GuardConfig {
    pub penalty: F32Bits,
    pub rate: F32Bits,
    pub patience: usize,
}

/// What to do with the guard before a training batch.
#[derive(Clone, Copy, Debug, PartialEq, Eq, Structural)]
pub enum GuardDecision {
    /// Drop the guard and its history; no device work.
    Disable,
    /// Keep the current history and run with `config`.
    Continue(GuardConfig),
    /// Replace the history by a fresh one for `config`, then run.
    Rebuild(GuardConfig),
}

/// A fresh saturation history: a count per FT unit plus the batch's
/// weighted position count, and a zero streak per FT unit.
#[derive(Debug)]
pub struct GuardHistory {
    pub config: GuardConfig,
    pub counts_len: usize,
    pub streaks: Vec<i32>,
}

/// What `apply` hands the caller.
#[derive(Debug)]
pub enum GuardAction {
    Disable,
    Continue { config: GuardConfig },
    Rebuild { history: GuardHistory },
}

/// Floating-point equality of two configurations.
pub open spec fn spec_same_config(a: GuardConfig, b: GuardConfig) -> bool {
    spec_eq(a.penalty, b.penalty) && spec_eq(a.rate, b.rate) && a.patience == b.patience
}

/// What `apply` decides for a policy and the configuration of the current
/// history, if any.
pub open spec fn spec_apply(p: SfnnLayerLrMultipliers, current: Option<GuardConfig>) -> Result<
    GuardDecision,
    CudaCppError,
> {
    if spec_eq(p.ft_saturation_penalty, zero()) || spec_eq(p.l0, zero()) {
        Ok(GuardDecision::Disable)
    } else {
        match spec_validate(p) {
            Err(e) => Err(e),
            Ok(()) => {
                let config = GuardConfig {
                    penalty: p.ft_saturation_penalty,
                    rate: p.ft_saturation_rate,
                    patience: p.ft_saturation_patience,
                };
                match current {
                    Some(c) => if spec_same_config(c, config) {
                        Ok(GuardDecision::Continue(config))
                    } else {
                        Ok(GuardDecision::Rebuild(config))
                    },
                    None => Ok(GuardDecision::Rebuild(config)),
                }
            },
        }
    }
}

/// Decides the guard for this batch: off (and its history dropped) when the
/// penalty is zero or FT is frozen; otherwise the policy must validate; the
/// history is kept when it was built for the same settings, and otherwise
/// replaced by a fresh one for `ft_size` units with zero streaks.
pub fn apply(p: &SfnnLayerLrMultipliers, current: Option<GuardConfig>, ft_size: usize) -> (res:
    Result<GuardAction, CudaCppError>)
    requires
        spec_apply(*p, current) is Ok && spec_apply(*p, current)->Ok_0 is Rebuild ==> ft_size
            < usize::MAX,
    ensures
        match spec_apply(*p, current) {
            Err(e) => res matches Err(e2) && e2 == e,
            Ok(GuardDecision::Disable) => res matches Ok(GuardAction::Disable),
            Ok(GuardDecision::Continue(c)) => res matches Ok(GuardAction::Continue { config })
                && config == c,
            Ok(GuardDecision::Rebuild(c)) => res matches Ok(GuardAction::Rebuild { history }) && {
                &&& history.config == c
                &&& history.counts_len == ft_size + 1
                &&& history.streaks@ == Seq::new(ft_size as nat, |i: int| 0i32)
            },
        },
{
    let z = F32Bits::zero();
    if p.ft_saturation_penalty.float_eq(z) || p.l0.float_eq(z) {
        return Ok(GuardAction::Disable);
    }
    match p.validate() {
        Err(e) => return Err(e),
        Ok(()) => {},
    }
    let config = GuardConfig {
        penalty: p.ft_saturation_penalty,
        rate: p.ft_saturation_rate,
        patience: p.ft_saturation_patience,
    };
    let same = match current {
        None => false,
        Some(c) => c.penalty.float_eq(config.penalty) && c.rate.float_eq(config.rate)
            && c.patience == config.patience,
    };
    if same {
        return Ok(GuardAction::Continue { config });
    }
    let streaks: Vec<i32> = vec![0i32; ft_size];
    assert(streaks@ =~= Seq::new(ft_size as nat, |i: int| 0i32));
    Ok(GuardAction::Rebuild { history: GuardHistory { config, counts_len: ft_size + 1, streaks } })
}


/// The settings a policy asks the guard to run with.
pub open spec fn policy_config(p: SfnnLayerLrMultipliers) -> GuardConfig {
    GuardConfig {
        penalty: p.ft_saturation_penalty,
        rate: p.ft_saturation_rate,
        patience: p.ft_saturation_patience,
    }
}

/// Law: for an enabled, valid policy the history is kept only when the
/// penalty, the rate and the patience it was built for all equal the
/// policy's (penalty and rate compared as floats); a change of any of them,
/// the rate included (as an epoch schedule makes it), rebuilds the history
/// for the policy's settings, and so does the absence of a history.
pub proof fn lemma_guard_rebuilds_on_any_setting_change(p: SfnnLayerLrMultipliers, c: GuardConfig)
    requires
        !spec_eq(p.ft_saturation_penalty, zero()),
        !spec_eq(p.l0, zero()),
        spec_validate(p) is Ok,
    ensures
        spec_apply(p, None) == Ok::<GuardDecision, CudaCppError>(GuardDecision::Rebuild(policy_config(p))),
        (spec_eq(c.penalty, p.ft_saturation_penalty) && spec_eq(c.rate, p.ft_saturation_rate)
            && c.patience == p.ft_saturation_patience) ==> spec_apply(p, Some(c)) == Ok::<
            GuardDecision,
            CudaCppError,
        >(GuardDecision::Continue(policy_config(p))),
        !spec_eq(c.rate, p.ft_saturation_rate) ==> spec_apply(p, Some(c)) == Ok::<
            GuardDecision,
            CudaCppError,
        >(GuardDecision::Rebuild(policy_config(p))),
        !spec_eq(c.penalty, p.ft_saturation_penalty) ==> spec_apply(p, Some(c)) == Ok::<
            GuardDecision,
            CudaCppError,
        >(GuardDecision::Rebuild(policy_config(p))),
        c.patience != p.ft_saturation_patience ==> spec_apply(p, Some(c)) == Ok::<
            GuardDecision,
            CudaCppError,
        >(GuardDecision::Rebuild(policy_config(p))),
{
}

} // verus!
