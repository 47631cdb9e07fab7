use vstd::prelude::*;
use crate::shape::SfnnForwardShape;
use crate::error::CudaCppError;
use crate::rate::{RateEntry, maximum, spec_best};

verus! {

/// Counters per bucket block: one position counter, then the upper
/// saturation counts of the L1 output, the L1 square branch and L2.
pub open spec fn spec_stride(s: SfnnForwardShape) -> int {
    2 * s.l1_hidden + s.l2_size + 1
}

/// FT counters first, then one block of `spec_stride` counters per bucket.
pub open spec fn spec_len(s: SfnnForwardShape) -> int {
    s.num_stacks * spec_stride(s) + s.ft_size
}

/// The error that `new` reports for a shape, if any, in the order of the checks.
pub open spec fn spec_new_error(s: SfnnForwardShape) -> Option<CudaCppError> {
    if 2 * s.l1_hidden > usize::MAX {
        Some(CudaCppError::UnitStatsHiddenOverflow)
    } else if spec_stride(s) > usize::MAX {
        Some(CudaCppError::UnitStatsStrideOverflow)
    } else if s.num_stacks * spec_stride(s) > usize::MAX {
        Some(CudaCppError::UnitStatsBucketsOverflow)
    } else if spec_len(s) > usize::MAX {
        Some(CudaCppError::UnitStatsLengthOverflow)
    } else {
        None
    }
}

/// What the statistics hold: the shape, the whole-validation totals per
/// counter, and the number of positions seen.
#[verifier::ext_equal]
pub struct UnitStatsView {
    pub shape: SfnnForwardShape,
    pub totals: Seq<u64>,
    pub positions: u64,
}

/// Whole-validation unit counts, not a maximum of per-chunk rates.
/// Device counts reset each chunk; host `u64` totals avoid `i32` overflow.
pub struct SfnnUnitSaturationStats {
    shape: SfnnForwardShape,
    totals: Vec<u64>,
    positions: u64,
}

impl View for SfnnUnitSaturationStats {
    type V = UnitStatsView;

    closed spec fn view(&self) -> UnitStatsView {
        UnitStatsView { shape: self.shape, totals: self.totals@, positions: self.positions }
    }
}

/// The statistics after adding a chunk of counts without negatives: each
/// counter grows by its count, the positions by the chunk's batch size.
pub open spec fn spec_accumulated(v: UnitStatsView, counts: Seq<i32>, batch_size: usize) -> UnitStatsView {
    UnitStatsView {
        shape: v.shape,
        totals: Seq::new(
            v.totals.len(),
            |i: int|
                if i < counts.len() {
                    (v.totals[i] + counts[i]) as u64
                } else {
                    v.totals[i]
                },
        ),
        positions: (v.positions + batch_size) as u64,
    }
}

/// FT units: hits counted over both perspectives, so `2 * positions` samples.
pub open spec fn ft_entries(v: UnitStatsView) -> Seq<RateEntry> {
    Seq::new(
        v.shape.ft_size as nat,
        |u: int| (v.totals[u], (2 * v.positions) as u64, None::<usize>, u as usize),
    )
}

/// The `width` units at `offset` inside bucket `b`'s block, each rated
/// against the bucket's position counter.
pub open spec fn bucket_entries(v: UnitStatsView, offset: int, width: int, b: int) -> Seq<
    RateEntry,
> {
    let base = v.shape.ft_size + b * spec_stride(v.shape);
    Seq::new(
        width as nat,
        |u: int| (v.totals[base + 1 + offset + u], v.totals[base], Some(b as usize), u as usize),
    )
}

/// `bucket_entries` of buckets `0..count`, bucket by bucket.
pub open spec fn dense_entries(v: UnitStatsView, offset: int, width: int, count: int) -> Seq<
    RateEntry,
>
    decreases count,
{
    if count <= 0 {
        Seq::empty()
    } else {
        dense_entries(v, offset, width, count - 1) + bucket_entries(v, offset, width, count - 1)
    }
}

/// The highest upper-saturation rate per layer.
pub struct UnitSaturationMaxima {
    pub ft: Option<RateEntry>,
    pub l1: Option<RateEntry>,
    pub l1_square: Option<RateEntry>,
    pub l2: Option<RateEntry>,
}

/// The maxima that `summary` reports for statistics `v`.
pub open spec fn spec_summary(v: UnitStatsView) -> UnitSaturationMaxima {
    let s = v.shape;
    UnitSaturationMaxima {
        ft: spec_best(ft_entries(v)),
        l1: spec_best(dense_entries(v, 0, s.l1_hidden as int, s.num_stacks as int)),
        l1_square: spec_best(
            dense_entries(v, s.l1_hidden as int, s.l1_hidden as int, s.num_stacks as int),
        ),
        l2: spec_best(
            dense_entries(v, 2 * s.l1_hidden, s.l2_size as int, s.num_stacks as int),
        ),
    }
}

impl SfnnUnitSaturationStats {
    /// The counter layout fits in memory and the totals cover it exactly.
    pub open spec fn wf(&self) -> bool {
        &&& spec_new_error(self@.shape).is_none()
        &&& self@.totals.len() == spec_len(self@.shape)
    }

    /// Builds empty statistics for `shape`; fails when the counter layout
    /// overflows `usize`.
    pub fn new(shape: SfnnForwardShape) -> (res: Result<Self, CudaCppError>)
        ensures
            match res {
                Ok(stats) => {
                    &&& spec_new_error(shape).is_none()
                    &&& stats.wf()
                    &&& stats@.shape == shape
                    &&& stats@.totals == Seq::new(spec_len(shape) as nat, |i: int| 0u64)
                    &&& stats@.positions == 0
                },
                Err(e) => spec_new_error(shape) == Some(e),
            },
    {
        let hidden = match shape.l1_hidden.checked_mul(2) {
            Some(v) => v,
            None => return Err(CudaCppError::UnitStatsHiddenOverflow),
        };
        let stride = match hidden.checked_add(shape.l2_size) {
            Some(v) => match v.checked_add(1) {
                Some(w) => w,
                None => return Err(CudaCppError::UnitStatsStrideOverflow),
            },
            None => return Err(CudaCppError::UnitStatsStrideOverflow),
        };
        let buckets = match shape.num_stacks.checked_mul(stride) {
            Some(v) => v,
            None => return Err(CudaCppError::UnitStatsBucketsOverflow),
        };
        let len = match buckets.checked_add(shape.ft_size) {
            Some(v) => v,
            None => return Err(CudaCppError::UnitStatsLengthOverflow),
        };
        let totals: Vec<u64> = vec![0u64; len];
        let stats = SfnnUnitSaturationStats { shape, totals, positions: 0 };
        assert(stats@.totals =~= Seq::new(spec_len(shape) as nat, |i: int| 0u64));
        Ok(stats)
    }

    /// Forgets everything counted so far.
    pub fn reset(&mut self)
        requires
            old(self).wf(),
        ensures
            final(self).wf(),
            final(self)@.shape == old(self)@.shape,
            final(self)@.totals == Seq::new(old(self)@.totals.len(), |i: int| 0u64),
            final(self)@.positions == 0,
    {
        let n = self.totals.len();
        let mut i: usize = 0;
        while i < n
            invariant
                n == self.totals.len(),
                n == old(self)@.totals.len(),
                self.shape == old(self)@.shape,
                i <= n,
                forall|j: int| 0 <= j < i ==> self.totals@[j] == 0,
            decreases n - i,
        {
            self.totals.set(i, 0);
            i += 1;
        }
        self.positions = 0;
        assert(self@.totals =~= Seq::new(old(self)@.totals.len(), |i: int| 0u64));
    }

    /// The shape the statistics were built for.
    pub fn shape(&self) -> (s: SfnnForwardShape)
        ensures
            s == self@.shape,
    {
        self.shape
    }

    /// The totals per counter: FT units first, then one block per bucket
    /// (position counter, L1, L1 square, L2 units).
    pub fn totals(&self) -> (t: &Vec<u64>)
        ensures
            t@ == self@.totals,
    {
        &self.totals
    }

    /// The positions accumulated since the last reset.
    pub fn positions(&self) -> (p: u64)
        ensures
            p == self@.positions,
    {
        self.positions
    }

    /// Refuses a forward workspace that was built for another shape; the
    /// caller checks this before launching the counting kernel.
    pub fn check_workspace(&self, workspace_shape: SfnnForwardShape) -> (res: Result<(), CudaCppError>)
        ensures
            res == (if workspace_shape == self@.shape {
                Ok(())
            } else {
                Err(CudaCppError::UnitStatsShapeMismatch)
            }),
    {
        if workspace_shape == self.shape {
            Ok(())
        } else {
            Err(CudaCppError::UnitStatsShapeMismatch)
        }
    }

    /// Refuses counts from a workspace of another shape, leaving the
    /// statistics unchanged. Otherwise adds one chunk's device counts to the
    /// totals, counter by counter, and `batch_size` to the positions. A
    /// negative count stops the pass with an error: the counters before it
    /// have been added, the rest and the positions are unchanged.
    pub fn accumulate(
        &mut self,
        workspace_shape: SfnnForwardShape,
        counts: &Vec<i32>,
        batch_size: usize,
    ) -> (res: Result<(), CudaCppError>)
        requires
            old(self).wf(),
            workspace_shape == old(self)@.shape ==> forall|i: int|
                0 <= i < old(self)@.totals.len() && i < counts.len() && (forall|j: int|
                    0 <= j <= i ==> counts@[j] >= 0) ==> old(self)@.totals[i] + counts@[i]
                    <= u64::MAX,
            workspace_shape == old(self)@.shape && (forall|j: int|
                0 <= j < old(self)@.totals.len() && j < counts.len() ==> counts@[j] >= 0)
                ==> old(self)@.positions + batch_size <= u64::MAX,
        ensures
            final(self).wf(),
            final(self)@.shape == old(self)@.shape,
            final(self)@.totals.len() == old(self)@.totals.len(),
            workspace_shape != old(self)@.shape ==> res == Err::<(), CudaCppError>(
                CudaCppError::UnitStatsShapeMismatch,
            ) && final(self)@ == old(self)@,
            workspace_shape == old(self)@.shape ==> (res is Ok <==> forall|j: int|
                0 <= j < old(self)@.totals.len() && j < counts.len() ==> counts@[j] >= 0),
            res is Ok ==> final(self)@ == spec_accumulated(old(self)@, counts@, batch_size),
            workspace_shape == old(self)@.shape && res is Err ==> exists|f: int|
                {
                    &&& 0 <= f < old(self)@.totals.len()
                    &&& f < counts.len()
                    &&& counts@[f] < 0
                    &&& res == Err::<(), CudaCppError>(CudaCppError::NegativeUnitSaturationCount)
                    &&& (forall|j: int| 0 <= j < f ==> counts@[j] >= 0)
                    &&& (forall|i: int|
                        0 <= i < old(self)@.totals.len() ==> #[trigger] final(self)@.totals[i] == if i
                            < f {
                            old(self)@.totals[i] + counts@[i]
                        } else {
                            old(self)@.totals[i] as int
                        })
                    &&& final(self)@.positions == old(self)@.positions
                },
    {
        if workspace_shape != self.shape {
            return Err(CudaCppError::UnitStatsShapeMismatch);
        }
        let n = if self.totals.len() < counts.len() {
            self.totals.len()
        } else {
            counts.len()
        };
        let mut i: usize = 0;
        while i < n
            invariant
                n <= self.totals.len(),
                n <= counts.len(),
                n == self.totals.len() || n == counts.len(),
                self.totals.len() == old(self)@.totals.len(),
                self.shape == old(self)@.shape,
                self.positions == old(self)@.positions,
                workspace_shape == old(self)@.shape,
                old(self).wf(),
                i <= n,
                forall|j: int| 0 <= j < i ==> counts@[j] >= 0,
                forall|k: int|
                    0 <= k < old(self)@.totals.len() && k < counts.len() && (forall|j: int|
                        0 <= j <= k ==> counts@[j] >= 0) ==> old(self)@.totals[k] + counts@[k]
                        <= u64::MAX,
                forall|k: int|
                    0 <= k < old(self)@.totals.len() ==> #[trigger] self.totals@[k] == if k < i {
                        old(self)@.totals[k] + counts@[k]
                    } else {
                        old(self)@.totals[k] as int
                    },
            decreases n - i,
        {
            let value = counts[i];
            if value < 0 {
                assert(self@.totals == self.totals@);
                return Err(CudaCppError::NegativeUnitSaturationCount);
            }
            let t = self.totals[i];
            self.totals.set(i, t + value as u64);
            i += 1;
        }
        self.positions = self.positions + batch_size as u64;
        assert(self@.totals =~= spec_accumulated(old(self)@, counts@, batch_size).totals);
        Ok(())
    }

    fn dense(&self, offset: usize, width: usize) -> (out: Vec<RateEntry>)
        requires
            self.wf(),
            offset + width <= 2 * self@.shape.l1_hidden + self@.shape.l2_size,
        ensures
            out@ == dense_entries(self@, offset as int, width as int, self@.shape.num_stacks as int),
    {
        let s = self.shape;
        let stride = 1 + 2 * s.l1_hidden + s.l2_size;
        let mut out: Vec<RateEntry> = Vec::new();
        let mut b: usize = 0;
        while b < s.num_stacks
            invariant
                self.wf(),
                s == self@.shape,
                stride == spec_stride(s),
                offset + width <= 2 * s.l1_hidden + s.l2_size,
                b <= s.num_stacks,
                out@ == dense_entries(self@, offset as int, width as int, b as int),
            decreases s.num_stacks - b,
        {
            proof {
                assert(b * stride + stride <= s.num_stacks * stride) by (nonlinear_arith)
                    requires
                        b < s.num_stacks,
                ;
            }
            let base = s.ft_size + b * stride;
            let ghost prefix = out@;
            let mut u: usize = 0;
            while u < width
                invariant
                    self.wf(),
                    s == self@.shape,
                    stride == spec_stride(s),
                    offset + width <= 2 * s.l1_hidden + s.l2_size,
                    b < s.num_stacks,
                    base == s.ft_size + b * stride,
                    base + stride <= spec_len(s),
                    u <= width,
                    prefix == dense_entries(self@, offset as int, width as int, b as int),
                    out@ == prefix + bucket_entries(self@, offset as int, width as int, b as int).take(
                        u as int,
                    ),
                decreases width - u,
            {
                let entry = (self.totals[base + 1 + offset + u], self.totals[base], Some(b), u);
                out.push(entry);
                u += 1;
                assert(out@ =~= prefix + bucket_entries(self@, offset as int, width as int, b as int).take(
                    u as int,
                ));
            }
            b += 1;
            assert(out@ =~= dense_entries(self@, offset as int, width as int, b as int));
        }
        out
    }

    /// The highest upper-saturation rate of the FT, L1, L1 square and L2
    /// units over everything accumulated since the last reset.
    pub fn summary(&self) -> (m: UnitSaturationMaxima)
        requires
            self.wf(),
            self@.shape.ft_size == 0 || self@.positions <= u64::MAX / 2,
        ensures
            m == spec_summary(self@),
    {
        let s = self.shape;
        let mut ft: Vec<RateEntry> = Vec::new();
        let mut u: usize = 0;
        while u < s.ft_size
            invariant
                self.wf(),
                s == self@.shape,
                s.ft_size == 0 || self@.positions <= u64::MAX / 2,
                u <= s.ft_size,
                ft@ == ft_entries(self@).take(u as int),
            decreases s.ft_size - u,
        {
            ft.push((self.totals[u], 2 * self.positions, None, u));
            u += 1;
            assert(ft@ =~= ft_entries(self@).take(u as int));
        }
        assert(ft@ =~= ft_entries(self@));
        let ft_max = maximum(&ft);
        let l1 = maximum(&self.dense(0, s.l1_hidden));
        let l1_square = maximum(&self.dense(s.l1_hidden, s.l1_hidden));
        let l2 = maximum(&self.dense(2 * s.l1_hidden, s.l2_size));
        UnitSaturationMaxima { ft: ft_max, l1, l1_square, l2 }
    }
}

} // verus!

verus! {

/// The one-line report: the four maxima, then L3, which has no clamp.
pub open spec fn spec_render_summary(
    ft: Seq<char>,
    l1: Seq<char>,
    l1_square: Seq<char>,
    l2: Seq<char>,
) -> Seq<char> {
    "ft_unit_upper_max="@ + ft + " l1_unit_upper_max="@ + l1 + " l1_square_unit_upper_max="@
        + l1_square + " l2_unit_upper_max="@ + l2 + " l3_unit_upper_max=n/a(no-clamp)"@
}

/// Joins the rendered maxima of the FT, L1, L1 square and L2 units into
/// the summary line.
pub fn render_summary(ft: &str, l1: &str, l1_square: &str, l2: &str) -> (text: String)
    ensures
        text@ == spec_render_summary(ft@, l1@, l1_square@, l2@),
{
    let mut out = String::from_str("ft_unit_upper_max=");
    out.append(ft);
    out.append(" l1_unit_upper_max=");
    out.append(l1);
    out.append(" l1_square_unit_upper_max=");
    out.append(l1_square);
    out.append(" l2_unit_upper_max=");
    out.append(l2);
    out.append(" l3_unit_upper_max=n/a(no-clamp)");
    out
}

/// Every counter is zero and no position was seen: what `new` and `reset`
/// leave behind.
pub open spec fn is_cleared(v: UnitStatsView) -> bool {
    &&& forall|i: int| 0 <= i < v.totals.len() ==> v.totals[i] == 0
    &&& v.positions == 0
}

proof fn lemma_no_samples_no_best(vals: Seq<RateEntry>)
    requires
        forall|k: int| 0 <= k < vals.len() ==> vals[k].1 == 0,
    ensures
        spec_best(vals) is None,
{
    assert(!exists|k: int| crate::rate::is_first_best(vals, k));
}

proof fn lemma_dense_unseen(v: UnitStatsView, offset: int, width: int, count: int)
    requires
        spec_new_error(v.shape).is_none(),
        v.totals.len() == spec_len(v.shape),
        is_cleared(v),
        0 <= count <= v.shape.num_stacks,
    ensures
        forall|k: int|
            0 <= k < dense_entries(v, offset, width, count).len() ==> dense_entries(
                v,
                offset,
                width,
                count,
            )[k].1 == 0,
    decreases count,
{
    if count > 0 {
        lemma_dense_unseen(v, offset, width, count - 1);
        let b = count - 1;
        let stride = spec_stride(v.shape);
        assert(b * stride + stride <= v.shape.num_stacks * stride) by (nonlinear_arith)
            requires
                0 <= b < v.shape.num_stacks,
                stride >= 1,
        ;
        let prev = dense_entries(v, offset, width, count - 1);
        let last = bucket_entries(v, offset, width, b);
        assert forall|k: int| 0 <= k < (prev + last).len() implies (prev + last)[k].1 == 0 by {
            if k >= prev.len() {
                assert((prev + last)[k] == last[k - prev.len()]);
            }
        }
    }
}

/// Law: statistics with every counter cleared (after `new` or `reset`)
/// report no samples for any layer.
pub proof fn lemma_cleared_summary_has_no_samples(v: UnitStatsView)
    requires
        spec_new_error(v.shape).is_none(),
        v.totals.len() == spec_len(v.shape),
        is_cleared(v),
    ensures
        spec_summary(v).ft is None,
        spec_summary(v).l1 is None,
        spec_summary(v).l1_square is None,
        spec_summary(v).l2 is None,
{
    let s = v.shape;
    lemma_no_samples_no_best(ft_entries(v));
    lemma_dense_unseen(v, 0, s.l1_hidden as int, s.num_stacks as int);
    lemma_no_samples_no_best(dense_entries(v, 0, s.l1_hidden as int, s.num_stacks as int));
    lemma_dense_unseen(v, s.l1_hidden as int, s.l1_hidden as int, s.num_stacks as int);
    lemma_no_samples_no_best(
        dense_entries(v, s.l1_hidden as int, s.l1_hidden as int, s.num_stacks as int),
    );
    lemma_dense_unseen(v, 2 * s.l1_hidden, s.l2_size as int, s.num_stacks as int);
    lemma_no_samples_no_best(dense_entries(v, 2 * s.l1_hidden, s.l2_size as int, s.num_stacks as int));
}

/// The statistics after accumulating the first `t` chunks, in order.
pub open spec fn accumulate_all(
    v: UnitStatsView,
    chunks: Seq<Seq<i32>>,
    batches: Seq<usize>,
    t: int,
) -> UnitStatsView
    decreases t,
{
    if t <= 0 {
        v
    } else {
        spec_accumulated(accumulate_all(v, chunks, batches, t - 1), chunks[t - 1], batches[t - 1])
    }
}

/// Counter `i` summed over the first `t` chunks.
pub open spec fn chunk_sum(chunks: Seq<Seq<i32>>, i: int, t: int) -> int
    decreases t,
{
    if t <= 0 {
        0
    } else {
        chunk_sum(chunks, i, t - 1) + chunks[t - 1][i]
    }
}

/// The batch sizes of the first `t` chunks, summed.
pub open spec fn batch_sum(batches: Seq<usize>, t: int) -> int
    decreases t,
{
    if t <= 0 {
        0
    } else {
        batch_sum(batches, t - 1) + batches[t - 1]
    }
}

proof fn lemma_chunk_sum_bounds(chunks: Seq<Seq<i32>>, n: int, i: int, t: int, u: int)
    requires
        0 <= t <= u <= chunks.len(),
        0 <= i < n,
        forall|j: int| 0 <= j < chunks.len() ==> #[trigger] chunks[j].len() == n,
        forall|j: int, k: int| 0 <= j < chunks.len() && 0 <= k < chunks[j].len() ==> #[trigger] chunks[j][k] >= 0,
    ensures
        0 <= chunk_sum(chunks, i, t) <= chunk_sum(chunks, i, u),
    decreases u,
{
    if t < u {
        lemma_chunk_sum_bounds(chunks, n, i, t, u - 1);
        assert(chunks[u - 1].len() == n);
        assert(chunks[u - 1][i] >= 0);
    } else if t > 0 {
        lemma_chunk_sum_bounds(chunks, n, i, t - 1, t - 1);
        assert(chunks[t - 1].len() == n);
        assert(chunks[t - 1][i] >= 0);
    }
}

proof fn lemma_batch_sum_bounds(batches: Seq<usize>, t: int, u: int)
    requires
        0 <= t <= u <= batches.len(),
    ensures
        0 <= batch_sum(batches, t) <= batch_sum(batches, u),
    decreases u - t + t,
{
    if t < u {
        lemma_batch_sum_bounds(batches, t, u - 1);
    } else if t > 0 {
        lemma_batch_sum_bounds(batches, t - 1, t - 1);
    }
}

/// Law: starting from cleared statistics, accumulating chunks without
/// negative counts gives, per counter, the sum of that counter over all
/// chunks (a whole-run count, not a maximum of per-chunk rates), and the
/// sum of the batch sizes as positions, as long as those sums fit in `u64`.
pub proof fn lemma_totals_are_chunk_sums(
    v: UnitStatsView,
    chunks: Seq<Seq<i32>>,
    batches: Seq<usize>,
    t: int,
)
    requires
        is_cleared(v),
        chunks.len() == batches.len(),
        0 <= t <= chunks.len(),
        forall|j: int| 0 <= j < chunks.len() ==> #[trigger] chunks[j].len() == v.totals.len(),
        forall|j: int, k: int| 0 <= j < chunks.len() && 0 <= k < chunks[j].len() ==> #[trigger] chunks[j][k] >= 0,
        forall|i: int| 0 <= i < v.totals.len() ==> chunk_sum(chunks, i, chunks.len() as int) <= u64::MAX,
        batch_sum(batches, batches.len() as int) <= u64::MAX,
    ensures
        accumulate_all(v, chunks, batches, t).shape == v.shape,
        accumulate_all(v, chunks, batches, t).totals.len() == v.totals.len(),
        forall|i: int|
            0 <= i < v.totals.len() ==> accumulate_all(v, chunks, batches, t).totals[i] == chunk_sum(
                chunks,
                i,
                t,
            ),
        accumulate_all(v, chunks, batches, t).positions == batch_sum(batches, t),
    decreases t,
{
    if t > 0 {
        lemma_totals_are_chunk_sums(v, chunks, batches, t - 1);
        let prev = accumulate_all(v, chunks, batches, t - 1);
        assert(chunks[t - 1].len() == v.totals.len());
        assert forall|i: int| 0 <= i < v.totals.len() implies accumulate_all(
            v,
            chunks,
            batches,
            t,
        ).totals[i] == chunk_sum(chunks, i, t) by {
            lemma_chunk_sum_bounds(chunks, v.totals.len() as int, i, t, chunks.len() as int);
            assert(chunks[t - 1][i] >= 0);
            assert(prev.totals[i] == chunk_sum(chunks, i, t - 1));
            assert(chunk_sum(chunks, i, t) == chunk_sum(chunks, i, t - 1) + chunks[t - 1][i]);
            assert(chunk_sum(chunks, i, chunks.len() as int) <= u64::MAX);
            assert(accumulate_all(v, chunks, batches, t) == spec_accumulated(prev, chunks[t - 1], batches[t - 1]));
        }
        lemma_batch_sum_bounds(batches, t, batches.len() as int);
    } else {
        assert forall|i: int| 0 <= i < v.totals.len() implies accumulate_all(
            v,
            chunks,
            batches,
            t,
        ).totals[i] == chunk_sum(chunks, i, t) by {}
    }
}


proof fn lemma_dense_entry_at(v: UnitStatsView, offset: int, width: int, count: int, b: int, u: int)
    requires
        0 <= b < count,
        0 <= u < width,
    ensures
        dense_entries(v, offset, width, count).len() == count * width,
        b * width + u < count * width,
        dense_entries(v, offset, width, count)[b * width + u] == bucket_entries(v, offset, width, b)[u],
    decreases count,
{
    let prev = dense_entries(v, offset, width, count - 1);
    let last = bucket_entries(v, offset, width, count - 1);
    lemma_dense_len(v, offset, width, count - 1);
    assert((count - 1) * width + width == count * width) by (nonlinear_arith);
    if b < count - 1 {
        lemma_dense_entry_at(v, offset, width, count - 1, b, u);
        assert((prev + last)[b * width + u] == prev[b * width + u]);
    } else {
        assert((prev + last)[b * width + u] == last[u]);
    }
}

proof fn lemma_dense_len(v: UnitStatsView, offset: int, width: int, count: int)
    requires
        0 <= width,
        0 <= count,
    ensures
        dense_entries(v, offset, width, count).len() == count * width,
    decreases count,
{
    if count > 0 {
        lemma_dense_len(v, offset, width, count - 1);
        assert((count - 1) * width + width == count * width) by (nonlinear_arith);
    } else {
        assert(count * width == 0) by (nonlinear_arith)
            requires
                count == 0,
        ;
    }
}

proof fn lemma_dense_entry_origin(v: UnitStatsView, offset: int, width: int, count: int, k: int) -> (bu: (int, int))
    requires
        0 <= width,
        0 <= count,
        0 <= k < dense_entries(v, offset, width, count).len(),
    ensures
        0 <= bu.0 < count,
        0 <= bu.1 < width,
        dense_entries(v, offset, width, count)[k] == bucket_entries(v, offset, width, bu.0)[bu.1],
    decreases count,
{
    let prev = dense_entries(v, offset, width, count - 1);
    let last = bucket_entries(v, offset, width, count - 1);
    lemma_dense_len(v, offset, width, count - 1);
    if k < prev.len() {
        assert((prev + last)[k] == prev[k]);
        lemma_dense_entry_origin(v, offset, width, count - 1, k)
    } else {
        assert((prev + last)[k] == last[k - prev.len()]);
        (count - 1, k - prev.len())
    }
}

/// The counter index of unit `u` at `offset` inside bucket `b`'s block.
pub open spec fn unit_counter(s: SfnnForwardShape, b: int, offset: int, u: int) -> int {
    s.ft_size + b * spec_stride(s) + 1 + offset + u
}

/// The position counter of bucket `b`.
pub open spec fn bucket_counter(s: SfnnForwardShape, b: int) -> int {
    s.ft_size + b * spec_stride(s)
}

/// The reported maximum `m` of a bucketed layer (units at `offset`, `width`
/// of them) is a unit of some bucket with samples, and no unit of a bucket
/// with samples has a strictly higher rate.
pub open spec fn is_layer_maximum(v: UnitStatsView, offset: int, width: int, m: RateEntry) -> bool {
    let s = v.shape;
    &&& m.1 > 0
    &&& exists|b: int, u: int|
        0 <= b < s.num_stacks && 0 <= u < width && m == (
            v.totals[unit_counter(s, b, offset, u)],
            v.totals[bucket_counter(s, b)],
            Some(b as usize),
            u as usize,
        )
    &&& forall|b: int, u: int|
        0 <= b < s.num_stacks && 0 <= u < width && v.totals[bucket_counter(s, b)] > 0 ==> (v.totals[unit_counter(s, b, offset, u)] as int) * (m.1 as int)
            <= (m.0 as int) * (v.totals[bucket_counter(s, b)] as int)
}

proof fn lemma_layer_rates_every_bucket(v: UnitStatsView, offset: int, width: int, b: int, u: int)
    requires
        0 <= b < v.shape.num_stacks,
        0 <= u < width,
        v.totals[bucket_counter(v.shape, b)] > 0,
    ensures
        spec_best(dense_entries(v, offset, width, v.shape.num_stacks as int)) is Some,
        is_layer_maximum(v, offset, width, spec_best(dense_entries(v, offset, width, v.shape.num_stacks as int))->Some_0),
{
    let s = v.shape;
    let n = s.num_stacks as int;
    let vals = dense_entries(v, offset, width, n);
    lemma_dense_entry_at(v, offset, width, n, b, u);
    crate::rate::lemma_best_dominates(vals, b * width + u);
    let m = spec_best(vals)->Some_0;
    let i = choose|i: int| 0 <= i < vals.len() && vals[i] == m;
    let bu = lemma_dense_entry_origin(v, offset, width, n, i);
    assert(m == (
        v.totals[unit_counter(s, bu.0, offset, bu.1)],
        v.totals[bucket_counter(s, bu.0)],
        Some(bu.0 as usize),
        bu.1 as usize,
    ));
    assert forall|b2: int, u2: int|
        0 <= b2 < s.num_stacks && 0 <= u2 < width && v.totals[bucket_counter(s, b2)] > 0 implies (v.totals[unit_counter(s, b2, offset, u2)] as int) * (m.1 as int)
            <= (m.0 as int) * (v.totals[bucket_counter(s, b2)] as int) by {
        lemma_dense_entry_at(v, offset, width, n, b2, u2);
        assert(vals[b2 * width + u2].1 > 0);
    }
}

/// Law: every bucket with a positive position counter is rated, bucket 0
/// included. For each such bucket and each unit of it, the L1, L1 square
/// and L2 maxima that `summary` reports exist, come from some bucket with
/// samples, and no unit of a bucket with samples has a strictly higher
/// rate (compared by cross-multiplying hits and positions).
pub proof fn lemma_summary_rates_every_bucket(v: UnitStatsView, b: int, u: int)
    requires
        0 <= b < v.shape.num_stacks,
        0 <= u,
        v.totals.len() == spec_len(v.shape),
        v.totals[bucket_counter(v.shape, b)] > 0,
    ensures
        u < v.shape.l1_hidden ==> spec_summary(v).l1 is Some && is_layer_maximum(
            v,
            0,
            v.shape.l1_hidden as int,
            spec_summary(v).l1->Some_0,
        ),
        u < v.shape.l1_hidden ==> spec_summary(v).l1_square is Some && is_layer_maximum(
            v,
            v.shape.l1_hidden as int,
            v.shape.l1_hidden as int,
            spec_summary(v).l1_square->Some_0,
        ),
        u < v.shape.l2_size ==> spec_summary(v).l2 is Some && is_layer_maximum(
            v,
            2 * v.shape.l1_hidden,
            v.shape.l2_size as int,
            spec_summary(v).l2->Some_0,
        ),
{
    let s = v.shape;
    if u < s.l1_hidden {
        lemma_layer_rates_every_bucket(v, 0, s.l1_hidden as int, b, u);
        lemma_layer_rates_every_bucket(v, s.l1_hidden as int, s.l1_hidden as int, b, u);
    }
    if u < s.l2_size {
        lemma_layer_rates_every_bucket(v, 2 * s.l1_hidden, s.l2_size as int, b, u);
    }
}

} // verus!
