//! L1 optimizer input centering. Forward and export keep the folded affine
//! form; the same global mean serves residual and shared weights, not a
//! mean per bucket.
use vstd::prelude::*;
use crate::error::CudaCppError;
use crate::training_facts::{
    ExperimentEnv, OptimizerFacts, RunnerFacts, dense_plain_l1, plain_optimizer,
    spec_dense_plain_l1, spec_plain_optimizer,
};

verus! {

/// The effective L1 weight clip needs dense L1 with factorizer none or
/// shared, no count gates and update scope `all`.
pub fn validate_effective_clip(r: &RunnerFacts, update_scope_all: bool) -> (res: Result<(), CudaCppError>)
    ensures
        res == (if spec_dense_plain_l1(*r) && update_scope_all {
            Ok(())
        } else {
            Err(CudaCppError::EffectiveClipUnsupported)
        }),
{
    if !dense_plain_l1(r) || !update_scope_all {
        return Err(CudaCppError::EffectiveClipUnsupported);
    }
    Ok(())
}

/// One device operation of the L1 center accumulation, in the order the
/// plan lists them. The center buffer holds the latest batch mean (and,
/// after `prepare`, the window mean); the sum buffer holds the sum of the
/// batch means of the window.
#[derive(Clone, Copy, Debug, PartialEq, Eq, Structural)]
pub enum CenterStep {
    /// Allocate the center (with reduction scratch) and sum buffers, of the
    /// lengths `center_buffer_lengths` gives.
    Allocate,
    /// Copy the center buffer into the sum buffer.
    CopyCenterToSum,
    /// Compute this batch's column mean of the combined FT features into
    /// the center buffer.
    MeanIntoCenter,
    /// Add the center buffer to the sum buffer.
    AddCenterToSum,
    /// The batch is counted in the window.
    CountBatch,
}

/// The accumulation window of the L1 center: how many batches it holds and
/// whether its device buffers exist.
#[derive(Clone, Copy, Debug, PartialEq, Eq, Structural)]
pub struct L1CenterWindow {
    pub batches: u64,
    pub allocated: bool,
}

/// The device operations of one `accumulate` call on an enabled window.
pub open spec fn spec_accumulate_plan(w: L1CenterWindow) -> Seq<CenterStep> {
    (if w.allocated { seq![] } else { seq![CenterStep::Allocate] })
        + (if w.batches == 1 { seq![CenterStep::CopyCenterToSum] } else { seq![] })
        + seq![CenterStep::MeanIntoCenter]
        + (if w.batches > 0 { seq![CenterStep::AddCenterToSum] } else { seq![] })
        + seq![CenterStep::CountBatch]
}

/// The window after `step` completed on the device.
pub open spec fn spec_record(w: L1CenterWindow, step: CenterStep) -> L1CenterWindow {
    match step {
        CenterStep::Allocate => L1CenterWindow { allocated: true, ..w },
        CenterStep::CountBatch => L1CenterWindow { batches: (w.batches + 1) as u64, ..w },
        _ => w,
    }
}

/// What `prepare` asks of the device before the optimizer update.
#[derive(Clone, Copy, Debug, PartialEq, Eq, Structural)]
pub enum PrepareStep {
    /// The center buffer already holds the window mean.
    Ready,
    /// Store `sum / batches` into the center buffer.
    ScaleSumIntoCenter { batches: u64 },
}

/// What `prepare` answers for a window and configuration.
pub open spec fn spec_prepare(
    w: L1CenterWindow,
    enabled: bool,
    r: RunnerFacts,
    o: OptimizerFacts,
    env: ExperimentEnv,
) -> Result<Option<PrepareStep>, CudaCppError> {
    if !enabled {
        Ok(None)
    } else if !spec_dense_plain_l1(r) || !o.update_scope_all || !spec_plain_optimizer(o)
        || env.l1_center || env.l1_project_update {
        Err(CudaCppError::L1CenterUnsupported)
    } else if !w.allocated {
        Err(CudaCppError::L1CenterMissingMeans)
    } else if w.batches == 0 {
        Err(CudaCppError::L1CenterNoBatches)
    } else if w.batches > 1 {
        Ok(Some(PrepareStep::ScaleSumIntoCenter { batches: w.batches }))
    } else {
        Ok(Some(PrepareStep::Ready))
    }
}

/// The lengths of the center buffer (the window mean, with room for the
/// column reduction of 32 partial sums per feature) and of the sum buffer,
/// for `d` combined FT features.
pub fn center_buffer_lengths(d: usize) -> (lens: (usize, usize))
    requires
        32 * d <= usize::MAX,
    ensures
        lens.0 == 32 * d,
        lens.1 == d,
{
    (32 * d, d)
}

impl L1CenterWindow {
    /// An empty window without buffers.
    pub fn new() -> (w: Self)
        ensures
            w == (L1CenterWindow { batches: 0, allocated: false }),
    {
        L1CenterWindow { batches: 0, allocated: false }
    }

    /// Starts accumulating one batch. A disabled window is emptied and needs
    /// no device work; an enabled one returns the device operations to run
    /// in order, each to be confirmed with `record` once it succeeded.
    pub fn accumulate(&mut self, enabled: bool) -> (plan: Vec<CenterStep>)
        ensures
            !enabled ==> plan@ == Seq::<CenterStep>::empty() && *final(self) == (L1CenterWindow {
                batches: 0,
                ..*old(self)
            }),
            enabled ==> plan@ == spec_accumulate_plan(*old(self)) && *final(self) == *old(self),
    {
        let mut plan: Vec<CenterStep> = Vec::new();
        if !enabled {
            self.batches = 0;
            return plan;
        }
        if !self.allocated {
            plan.push(CenterStep::Allocate);
        }
        if self.batches == 1 {
            plan.push(CenterStep::CopyCenterToSum);
        }
        plan.push(CenterStep::MeanIntoCenter);
        if self.batches > 0 {
            plan.push(CenterStep::AddCenterToSum);
        }
        plan.push(CenterStep::CountBatch);
        assert(plan@ =~= spec_accumulate_plan(*old(self)));
        plan
    }

    /// Records that `step` succeeded on the device.
    pub fn record(&mut self, step: CenterStep)
        requires
            step == CenterStep::CountBatch ==> old(self).batches < u64::MAX,
        ensures
            *final(self) == spec_record(*old(self), step),
    {
        match step {
            CenterStep::Allocate => self.allocated = true,
            CenterStep::CountBatch => self.batches = self.batches + 1,
            _ => {},
        }
    }

    /// Checks the configuration before an optimizer update with L1 centering
    /// and says how to turn the window's sums into its mean. `None` when
    /// centering is off.
    pub fn prepare(
        &self,
        enabled: bool,
        r: &RunnerFacts,
        o: &OptimizerFacts,
        env: &ExperimentEnv,
    ) -> (res: Result<Option<PrepareStep>, CudaCppError>)
        ensures
            res == spec_prepare(*self, enabled, *r, *o, *env),
    {
        if !enabled {
            return Ok(None);
        }
        if !dense_plain_l1(r) || !o.update_scope_all || !plain_optimizer(o) || env.l1_center
            || env.l1_project_update {
            return Err(CudaCppError::L1CenterUnsupported);
        }
        if !self.allocated {
            return Err(CudaCppError::L1CenterMissingMeans);
        }
        if self.batches == 0 {
            return Err(CudaCppError::L1CenterNoBatches);
        }
        if self.batches > 1 {
            Ok(Some(PrepareStep::ScaleSumIntoCenter { batches: self.batches }))
        } else {
            Ok(Some(PrepareStep::Ready))
        }
    }
}


/// Law: with centering enabled, every setting that centering cannot carry
/// across its coordinate change refuses `prepare` with
/// `L1CenterUnsupported`, whatever the window: compact L1, a factorizer
/// axis, count gates, an update scope other than `all`, the tatara clip,
/// weight decay, norm loss, a saturation penalty, factorizer residual decay,
/// a lower or upper weight clip, or a legacy centering variable. Without any
/// of them that error never comes; with centering disabled nothing is done.
pub proof fn lemma_prepare_refuses_interfering_settings(
    w: L1CenterWindow,
    r: RunnerFacts,
    o: OptimizerFacts,
    env: ExperimentEnv,
)
    ensures
        spec_prepare(w, false, r, o, env) == Ok::<Option<PrepareStep>, CudaCppError>(None),
        (r.compact_l1 || r.any_factorizer_axis || r.count_gates || !o.update_scope_all
            || o.tatara_weight_clip || o.weight_decay || o.norm_loss || o.saturation_penalty
            || o.factorizer_residual_decay || o.min_weight_clip || o.max_weight_clip
            || env.l1_center || env.l1_project_update) <==> spec_prepare(w, true, r, o, env)
            == Err::<Option<PrepareStep>, CudaCppError>(CudaCppError::L1CenterUnsupported),
{
}

} // verus!

verus! {

/// What the center and sum buffers hold: the ordinals in the window (0 for
/// its first batch) of the batch means they add up, and the count that
/// divides the center.
#[verifier::ext_equal]
pub struct CenterBuffers {
    pub center: Seq<nat>,
    pub center_divisor: nat,
    pub sum: Seq<nat>,
}

/// The buffers after `step` ran on window `w`. Freshly allocated buffers
/// hold nothing meaningful, and nothing reads them before writing them.
pub open spec fn spec_step_effect(buf: CenterBuffers, w: L1CenterWindow, step: CenterStep) -> CenterBuffers {
    match step {
        CenterStep::CopyCenterToSum => CenterBuffers { sum: buf.center, ..buf },
        CenterStep::MeanIntoCenter => CenterBuffers {
            center: seq![w.batches as nat],
            center_divisor: 1,
            ..buf
        },
        CenterStep::AddCenterToSum => CenterBuffers { sum: buf.sum + buf.center, ..buf },
        _ => buf,
    }
}

/// The buffers after `prepare`'s device operation.
pub open spec fn spec_prepare_effect(buf: CenterBuffers, step: PrepareStep) -> CenterBuffers {
    match step {
        PrepareStep::Ready => buf,
        PrepareStep::ScaleSumIntoCenter { batches } => CenterBuffers {
            center: buf.sum,
            center_divisor: batches as nat,
            ..buf
        },
    }
}

/// Runs a plan step by step, recording each step as it completes.
pub open spec fn spec_run(buf: CenterBuffers, w: L1CenterWindow, plan: Seq<CenterStep>) -> (
    CenterBuffers,
    L1CenterWindow,
)
    decreases plan.len(),
{
    if plan.len() == 0 {
        (buf, w)
    } else {
        spec_run(spec_step_effect(buf, w, plan[0]), spec_record(w, plan[0]), plan.drop_first())
    }
}

/// `n` enabled accumulations in a row, each plan run to completion.
pub open spec fn run_accumulates(buf: CenterBuffers, w: L1CenterWindow, n: nat) -> (
    CenterBuffers,
    L1CenterWindow,
)
    decreases n,
{
    if n == 0 {
        (buf, w)
    } else {
        let (b, w1) = run_accumulates(buf, w, (n - 1) as nat);
        spec_run(b, w1, spec_accumulate_plan(w1))
    }
}

/// The ordinals `0..k`: every batch of a window of `k` batches.
pub open spec fn ordinals(k: nat) -> Seq<nat> {
    Seq::new(k, |i: int| i as nat)
}

/// After `k` batches, the center holds the latest batch mean and, from the
/// second batch on, the sum holds all batch means of the window.
pub open spec fn holds_window(buf: CenterBuffers, k: nat) -> bool {
    k == 0 || {
        &&& buf.center == seq![(k - 1) as nat]
        &&& buf.center_divisor == 1
        &&& k >= 2 ==> buf.sum == ordinals(k)
    }
}

/// The center is the mean of all `k` batch means of the window.
pub open spec fn is_window_mean(buf: CenterBuffers, k: nat) -> bool {
    buf.center == ordinals(k) && buf.center_divisor == k
}

proof fn lemma_accumulate_keeps_window(buf: CenterBuffers, w: L1CenterWindow)
    requires
        holds_window(buf, w.batches as nat),
        w.batches < u64::MAX,
    ensures
        spec_run(buf, w, spec_accumulate_plan(w)).1 == (L1CenterWindow {
            batches: (w.batches + 1) as u64,
            allocated: true,
        }),
        holds_window(
            spec_run(buf, w, spec_accumulate_plan(w)).0,
            (w.batches + 1) as nat,
        ),
{
    reveal_with_fuel(spec_run, 6);
    let plan = spec_accumulate_plan(w);
    let k = w.batches as nat;
    if w.allocated {
        if k == 0 {
            assert(plan =~= seq![CenterStep::MeanIntoCenter, CenterStep::CountBatch]);
        } else if k == 1 {
            assert(plan =~= seq![
                CenterStep::CopyCenterToSum,
                CenterStep::MeanIntoCenter,
                CenterStep::AddCenterToSum,
                CenterStep::CountBatch,
            ]);
            assert(seq![0nat] + seq![1nat] =~= ordinals(2));
        } else {
            assert(plan =~= seq![
                CenterStep::MeanIntoCenter,
                CenterStep::AddCenterToSum,
                CenterStep::CountBatch,
            ]);
            assert(ordinals(k) + seq![k] =~= ordinals(k + 1));
        }
    } else {
        if k == 0 {
            assert(plan =~= seq![
                CenterStep::Allocate,
                CenterStep::MeanIntoCenter,
                CenterStep::CountBatch,
            ]);
        } else if k == 1 {
            assert(plan =~= seq![
                CenterStep::Allocate,
                CenterStep::CopyCenterToSum,
                CenterStep::MeanIntoCenter,
                CenterStep::AddCenterToSum,
                CenterStep::CountBatch,
            ]);
            assert(seq![0nat] + seq![1nat] =~= ordinals(2));
        } else {
            assert(plan =~= seq![
                CenterStep::Allocate,
                CenterStep::MeanIntoCenter,
                CenterStep::AddCenterToSum,
                CenterStep::CountBatch,
            ]);
            assert(ordinals(k) + seq![k] =~= ordinals(k + 1));
        }
    }
}

/// Law: after the window is emptied and `n` enabled accumulations ran to
/// completion, the window counts `n` batches and has its buffers; the
/// center holds the latest batch mean and, from the second batch on, the
/// sum holds the means of all `n` batches.
pub proof fn lemma_window_after_accumulates(buf: CenterBuffers, w: L1CenterWindow, n: nat)
    requires
        w.batches == 0,
        n <= u64::MAX,
    ensures
        run_accumulates(buf, w, n).1.batches == n,
        n > 0 ==> run_accumulates(buf, w, n).1.allocated,
        holds_window(run_accumulates(buf, w, n).0, n),
    decreases n,
{
    if n > 0 {
        lemma_window_after_accumulates(buf, w, (n - 1) as nat);
        let (b, w1) = run_accumulates(buf, w, (n - 1) as nat);
        lemma_accumulate_keeps_window(b, w1);
    }
}

/// Law: after the window is emptied (a disabled `accumulate`, or a new
/// window) and `n >= 1` enabled accumulations ran to completion, `prepare`
/// on a supported configuration succeeds and leaves in the center buffer
/// the mean of the batch means of exactly those `n` batches, not only the
/// last one.
pub proof fn lemma_center_is_window_mean(
    buf: CenterBuffers,
    w: L1CenterWindow,
    n: nat,
    r: RunnerFacts,
    o: OptimizerFacts,
    env: ExperimentEnv,
)
    requires
        w.batches == 0,
        1 <= n <= u64::MAX,
        spec_dense_plain_l1(r),
        o.update_scope_all,
        spec_plain_optimizer(o),
        !env.l1_center,
        !env.l1_project_update,
    ensures
        ({
            let (b, w2) = run_accumulates(buf, w, n);
            &&& w2.batches == n
            &&& match spec_prepare(w2, true, r, o, env) {
                Ok(Some(step)) => is_window_mean(spec_prepare_effect(b, step), n),
                _ => false,
            }
        }),
{
    lemma_window_after_accumulates(buf, w, n);
    let (b, w2) = run_accumulates(buf, w, n);
    if n == 1 {
        assert(seq![0nat] =~= ordinals(1));
    }
}

} // verus!
