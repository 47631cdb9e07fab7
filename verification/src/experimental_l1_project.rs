//! Diagnostic experiment: remove from each hidden L1 weight update its
//! component along this batch's global mean input. Bias, skip rows,
//! gradients and moments are untouched; Lookahead synchronization is kept.
use vstd::prelude::*;
use crate::env_value::{EnvValue, is_text, spec_is_text};
use crate::error::CudaCppError;
use crate::experimental_l1_center::Layout;
use crate::float_bits::{F32Bits, spec_eq};
use crate::training_facts::{ExperimentEnv, RunnerFacts, dense_plain_l1, spec_dense_plain_l1};

verus! {

/// What `capture` decides: off, an error, or the weight groups to snapshot
/// and project (residual row-major, then the shared factorizer
/// column-major when there is one).
pub open spec fn spec_capture(var: EnvValue, r: RunnerFacts, env: ExperimentEnv) -> Result<
    Option<Seq<Layout>>,
    CudaCppError,
> {
    if var is NotPresent {
        Ok(None)
    } else if !spec_is_text(var, "1"@) {
        Err(CudaCppError::ProjectionExpectsOne)
    } else if !spec_dense_plain_l1(r) || env.l1_center {
        Err(CudaCppError::ProjectionUnsupported)
    } else if r.shared_factorizer {
        Ok(Some(seq![Layout::RowMajor, Layout::ColumnMajor]))
    } else {
        Ok(Some(seq![Layout::RowMajor]))
    }
}

/// Reads `BULLETOU_EXPERIMENT_L1_PROJECT_UPDATE` (only `1` enables it),
/// checks the configuration, and lists the groups to snapshot.
pub fn capture(var: &EnvValue, r: &RunnerFacts, env: &ExperimentEnv) -> (res: Result<
    Option<Vec<Layout>>,
    CudaCppError,
>)
    ensures
        match spec_capture(*var, *r, *env) {
            Ok(None) => res == Ok::<Option<Vec<Layout>>, CudaCppError>(None),
            Ok(Some(groups)) => res matches Ok(Some(v)) && v@ == groups,
            Err(e) => res == Err::<Option<Vec<Layout>>, CudaCppError>(e),
        },
{
    if let EnvValue::NotPresent = var {
        return Ok(None);
    }
    if !is_text(var, "1") {
        return Err(CudaCppError::ProjectionExpectsOne);
    }
    if !dense_plain_l1(r) || env.l1_center {
        return Err(CudaCppError::ProjectionUnsupported);
    }
    let mut groups: Vec<Layout> = Vec::new();
    groups.push(Layout::RowMajor);
    if r.shared_factorizer {
        groups.push(Layout::ColumnMajor);
    }
    assert(groups@ =~= spec_capture(*var, *r, *env)->Ok_0->Some_0);
    Ok(Some(groups))
}

/// Row `row` of a group whose outputs repeat every `stride` rows is a
/// hidden unit (projected) rather than the linear skip (never altered).
pub open spec fn spec_is_projected_row(row: int, hidden: int, stride: int) -> bool {
    row % stride < hidden
}

/// Whether the projection alters row `row`.
pub fn is_projected_row(row: usize, hidden: usize, stride: usize) -> (b: bool)
    requires
        stride > 0,
    ensures
        b == spec_is_projected_row(row as int, hidden as int, stride as int),
{
    row % stride < hidden
}

/// Fast and slow weights are equal as floating-point vectors: same length
/// and every pair equal (NaN equals nothing).
pub open spec fn spec_synchronized(fast: Seq<F32Bits>, slow: Seq<F32Bits>) -> bool {
    fast.len() == slow.len() && forall|i: int| 0 <= i < fast.len() ==> spec_eq(fast[i], slow[i])
}

/// Whether the Lookahead slow weights still equal the fast ones right after
/// a synchronization; then the projected fast weights are copied to the
/// slow ones instead of projecting the slow update separately, which keeps
/// them synchronized.
pub fn synchronized(fast: &Vec<F32Bits>, slow: &Vec<F32Bits>) -> (b: bool)
    ensures
        b == spec_synchronized(fast@, slow@),
{
    if fast.len() != slow.len() {
        return false;
    }
    let mut i: usize = 0;
    while i < fast.len()
        invariant
            fast.len() == slow.len(),
            i <= fast.len(),
            forall|j: int| 0 <= j < i ==> spec_eq(fast@[j], slow@[j]),
        decreases fast.len() - i,
    {
        if !fast[i].float_eq(slow[i]) {
            return false;
        }
        i += 1;
    }
    true
}

} // verus!
