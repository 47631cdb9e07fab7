use vstd::prelude::*;

verus! {

/// Everything the host-side logic can refuse.
#[derive(Clone, Copy, Debug, PartialEq, Eq, Structural)]
pub enum CudaCppError {
    /// `2 * l1_hidden` does not fit in `usize`.
    UnitStatsHiddenOverflow,
    /// The unit statistics stride does not fit in `usize`.
    UnitStatsStrideOverflow,
    /// `num_stacks * stride` does not fit in `usize`.
    UnitStatsBucketsOverflow,
    /// The unit statistics length does not fit in `usize`.
    UnitStatsLengthOverflow,
    /// The forward workspace was built for another shape.
    UnitStatsShapeMismatch,
    /// The device reported a negative saturation count.
    NegativeUnitSaturationCount,
    /// The effective L1 weight clip was asked for an unsupported layout.
    EffectiveClipUnsupported,
    /// L1 centering was asked for an unsupported configuration.
    L1CenterUnsupported,
    /// L1 centering found no mean buffers.
    L1CenterMissingMeans,
    /// L1 centering found an empty accumulation window.
    L1CenterNoBatches,
    /// The experimental L1 centering saw an unsupported layout.
    ExperimentalCenterUnsupported,
    /// The experimental L1 center value is not a number.
    InvalidExperimentalCenter,
    /// The experimental L1 center value is not finite.
    NonfiniteExperimentalCenter,
    /// The experimental L1 center variable is not valid text.
    InvalidExperimentalCenterEnvironment,
    /// The L1 update projection variable is not `1`.
    ProjectionExpectsOne,
    /// The L1 update projection was asked for an unsupported configuration.
    ProjectionUnsupported,
    /// The output centering variable is neither `1` nor `gpu`.
    OutputCenterMode,
    /// Output centering was asked for an unsupported configuration.
    OutputCenterUnsupported,
    /// GPU output centering has no workspace from runner construction.
    OutputCenterNotConfigured,
    /// GPU output centering lost its workspace.
    OutputCenterMissingWorkspace,
    /// The recycle variable is not valid text.
    InvalidRecycleEnvironment,
    /// The recycle steps are not comma separated numbers.
    RecycleStepsSyntax,
    /// A recycle step is zero.
    ZeroRecycleStep,
    /// Recycling was asked for an unsupported configuration.
    RecycleUnsupported,
    /// Recycling found nonzero L2/L3 factorizer weights.
    RecycleFactorizers,
    /// A fresh recycled row has no variance over the samples.
    RecycleNoVariance,
    /// The recycled network changed its training outputs.
    RecycleParityFailed,
    /// The norm loss strength is negative or not finite.
    NormLossStrengthInvalid,
    /// The FT saturation penalty is negative or not finite.
    FtSaturationPenaltyInvalid,
    /// The FT saturation rate is outside `(0, 1]`.
    FtSaturationRateInvalid,
    /// The FT saturation patience is zero.
    FtSaturationPatienceInvalid,
}

/// The text that reports each error.
pub open spec fn spec_message(e: CudaCppError) -> Seq<char> {
    match e {
        CudaCppError::UnitStatsHiddenOverflow => "unit stats hidden overflow"@,
        CudaCppError::UnitStatsStrideOverflow => "unit stats stride overflow"@,
        CudaCppError::UnitStatsBucketsOverflow => "unit stats buckets overflow"@,
        CudaCppError::UnitStatsLengthOverflow => "unit stats length overflow"@,
        CudaCppError::UnitStatsShapeMismatch => "unit stats shape mismatch"@,
        CudaCppError::NegativeUnitSaturationCount => "negative unit saturation count"@,
        CudaCppError::EffectiveClipUnsupported =>
            "L1 effective weight clip requires dense L1, none/shared, no count gates, update-scope=all"@,
        CudaCppError::L1CenterUnsupported =>
            "L1 centering requires dense L1, none/shared, update-scope=all, no gates/clip/penalties/legacy L1 experiments"@,
        CudaCppError::L1CenterMissingMeans =>
            "L1 centering requires accumulated input means before update"@,
        CudaCppError::L1CenterNoBatches => "L1 centering has no accumulated batches"@,
        CudaCppError::ExperimentalCenterUnsupported =>
            "experimental centering supports dense L1 none/shared without count gates only"@,
        CudaCppError::InvalidExperimentalCenter => "invalid experimental L1 center"@,
        CudaCppError::NonfiniteExperimentalCenter => "nonfinite experimental L1 center"@,
        CudaCppError::InvalidExperimentalCenterEnvironment =>
            "invalid experimental L1 center environment"@,
        CudaCppError::ProjectionExpectsOne => "L1 update projection experiment expects 1"@,
        CudaCppError::ProjectionUnsupported =>
            "L1 projection requires dense none/shared, no count gates/centering"@,
        CudaCppError::OutputCenterMode => "output centering expects 1 (host reference) or gpu"@,
        CudaCppError::OutputCenterUnsupported =>
            "output centering requires none/shared, no gates/clip/penalties/other centering"@,
        CudaCppError::OutputCenterNotConfigured =>
            "configure GPU output centering before constructing the runner"@,
        CudaCppError::OutputCenterMissingWorkspace => "missing GPU output centering workspace"@,
        CudaCppError::InvalidRecycleEnvironment => "invalid recycle environment"@,
        CudaCppError::RecycleStepsSyntax =>
            "recycle steps must be comma separated positive update numbers"@,
        CudaCppError::ZeroRecycleStep => "zero recycle step"@,
        CudaCppError::RecycleUnsupported =>
            "recycle experiment requires bpu1, dense L1, no axes/count gates"@,
        CudaCppError::RecycleFactorizers =>
            "recycle experiment does not support L2/L3 factorizers"@,
        CudaCppError::RecycleNoVariance => "recycle input has no variance"@,
        CudaCppError::RecycleParityFailed =>
            "recycle forward parity failed; experimental run stopped"@,
        CudaCppError::NormLossStrengthInvalid =>
            "sfnn_norm_loss_strength must be finite and nonnegative"@,
        CudaCppError::FtSaturationPenaltyInvalid =>
            "sfnn_ft_saturation_penalty must be finite and nonnegative"@,
        CudaCppError::FtSaturationRateInvalid => "sfnn_ft_saturation_rate must be in (0,1]"@,
        CudaCppError::FtSaturationPatienceInvalid => "sfnn_ft_saturation_patience must be positive"@,
    }
}

impl CudaCppError {
    /// The text that reports this error.
    pub fn message(&self) -> (text: &'static str)
        ensures
            text@ == spec_message(*self),
    {
        match self {
            CudaCppError::UnitStatsHiddenOverflow => "unit stats hidden overflow",
            CudaCppError::UnitStatsStrideOverflow => "unit stats stride overflow",
            CudaCppError::UnitStatsBucketsOverflow => "unit stats buckets overflow",
            CudaCppError::UnitStatsLengthOverflow => "unit stats length overflow",
            CudaCppError::UnitStatsShapeMismatch => "unit stats shape mismatch",
            CudaCppError::NegativeUnitSaturationCount => "negative unit saturation count",
            CudaCppError::EffectiveClipUnsupported =>
                "L1 effective weight clip requires dense L1, none/shared, no count gates, update-scope=all",
            CudaCppError::L1CenterUnsupported =>
                "L1 centering requires dense L1, none/shared, update-scope=all, no gates/clip/penalties/legacy L1 experiments",
            CudaCppError::L1CenterMissingMeans =>
                "L1 centering requires accumulated input means before update",
            CudaCppError::L1CenterNoBatches => "L1 centering has no accumulated batches",
            CudaCppError::ExperimentalCenterUnsupported =>
                "experimental centering supports dense L1 none/shared without count gates only",
            CudaCppError::InvalidExperimentalCenter => "invalid experimental L1 center",
            CudaCppError::NonfiniteExperimentalCenter => "nonfinite experimental L1 center",
            CudaCppError::InvalidExperimentalCenterEnvironment =>
                "invalid experimental L1 center environment",
            CudaCppError::ProjectionExpectsOne => "L1 update projection experiment expects 1",
            CudaCppError::ProjectionUnsupported =>
                "L1 projection requires dense none/shared, no count gates/centering",
            CudaCppError::OutputCenterMode => "output centering expects 1 (host reference) or gpu",
            CudaCppError::OutputCenterUnsupported =>
                "output centering requires none/shared, no gates/clip/penalties/other centering",
            CudaCppError::OutputCenterNotConfigured =>
                "configure GPU output centering before constructing the runner",
            CudaCppError::OutputCenterMissingWorkspace => "missing GPU output centering workspace",
            CudaCppError::InvalidRecycleEnvironment => "invalid recycle environment",
            CudaCppError::RecycleStepsSyntax =>
                "recycle steps must be comma separated positive update numbers",
            CudaCppError::ZeroRecycleStep => "zero recycle step",
            CudaCppError::RecycleUnsupported =>
                "recycle experiment requires bpu1, dense L1, no axes/count gates",
            CudaCppError::RecycleFactorizers =>
                "recycle experiment does not support L2/L3 factorizers",
            CudaCppError::RecycleNoVariance => "recycle input has no variance",
            CudaCppError::RecycleParityFailed =>
                "recycle forward parity failed; experimental run stopped",
            CudaCppError::NormLossStrengthInvalid =>
                "sfnn_norm_loss_strength must be finite and nonnegative",
            CudaCppError::FtSaturationPenaltyInvalid =>
                "sfnn_ft_saturation_penalty must be finite and nonnegative",
            CudaCppError::FtSaturationRateInvalid => "sfnn_ft_saturation_rate must be in (0,1]",
            CudaCppError::FtSaturationPatienceInvalid => "sfnn_ft_saturation_patience must be positive",
        }
    }
}

} // verus!
