//! Scratch-only diagnostic experiment: at chosen update steps, replace L1
//! units that were constant over the current training batch by fresh rows,
//! folding their constant contribution into the L2 bias. Selection uses the
//! training batch only, never validation.
use vstd::prelude::*;
use crate::env_value::EnvValue;
use crate::error::CudaCppError;
use crate::float_bits::{F32Bits, one, spec_eq, spec_lt, zero};
use crate::training_facts::{RunnerFacts, dense_plain_l1, spec_dense_plain_l1};

verus! {

/// A decimal digit.
pub open spec fn is_digit(c: char) -> bool {
    '0' <= c && c <= '9'
}

/// The number that a run of decimal digits spells.
pub open spec fn digits_value(s: Seq<char>) -> nat
    decreases s.len(),
{
    if s.len() == 0 {
        0
    } else {
        digits_value(s.drop_last()) * 10 + ((s.last() as int - 48) as nat)
    }
}

/// The digits of an unsigned integer's text: an optional leading `+`
/// dropped.
pub open spec fn unsigned_digits(s: Seq<char>) -> Seq<char> {
    if s.len() > 0 && s[0] == '+' {
        s.drop_first()
    } else {
        s
    }
}

/// How text parses as a `u64`: an optional `+`, then at least one decimal
/// digit and nothing else, of a value that fits.
pub open spec fn spec_parse_u64(s: Seq<char>) -> Option<u64> {
    let d = unsigned_digits(s);
    if d.len() > 0 && (forall|i: int| 0 <= i < d.len() ==> is_digit(#[trigger] d[i])) && digits_value(d)
        <= u64::MAX {
        Some(digits_value(d) as u64)
    } else {
        None
    }
}

/// The pieces of `s` between commas, in order (one empty piece for empty
/// text, and an empty piece after a trailing comma).
pub open spec fn spec_segments(s: Seq<char>) -> Seq<Seq<char>>
    decreases s.len(),
{
    if s.len() == 0 {
        seq![Seq::empty()]
    } else {
        let prev = spec_segments(s.drop_last());
        if s.last() == ',' {
            prev.push(Seq::empty())
        } else {
            prev.update(prev.len() - 1, prev.last().push(s.last()))
        }
    }
}

/// The update steps of a comma separated list, when every piece parses.
pub open spec fn spec_parse_steps(s: Seq<char>) -> Option<Seq<u64>> {
    let segs = spec_segments(s);
    if forall|j: int| 0 <= j < segs.len() ==> (#[trigger] spec_parse_u64(segs[j])) is Some {
        Some(Seq::new(segs.len(), |j: int| spec_parse_u64(segs[j])->Some_0))
    } else {
        None
    }
}

proof fn lemma_segments_nonempty(s: Seq<char>)
    ensures
        spec_segments(s).len() >= 1,
    decreases s.len(),
{
    if s.len() > 0 {
        lemma_segments_nonempty(s.drop_last());
    }
}

proof fn lemma_digits_value_grows(s: Seq<char>, k: int)
    requires
        0 <= k <= s.len(),
    ensures
        digits_value(s.take(k)) <= digits_value(s),
    decreases s.len(),
{
    if k < s.len() {
        lemma_digits_value_grows(s.drop_last(), k);
        assert(s.drop_last().take(k) =~= s.take(k));
    } else {
        assert(s.take(k) =~= s);
    }
}

/// Parses text as a `u64` the way `str::parse::<u64>` does.
pub fn parse_u64(s: &Vec<char>) -> (res: Option<u64>)
    ensures
        res == spec_parse_u64(s@),
{
    let n = s.len();
    let start: usize = if n > 0 && s[0] == '+' {
        1
    } else {
        0
    };
    let ghost d = unsigned_digits(s@);
    assert(d =~= s@.subrange(start as int, n as int));
    if start == n {
        return None;
    }
    let mut v: u64 = 0;
    let mut i: usize = start;
    while i < n
        invariant
            start <= i <= n,
            n == s.len(),
            d == s@.subrange(start as int, n as int),
            d == unsigned_digits(s@),
            forall|j: int| 0 <= j < i - start ==> is_digit(#[trigger] d[j]),
            v == digits_value(d.take(i - start)),
        decreases n - i,
    {
        let c = s[i];
        assert(d[i - start] == c);
        if !('0' <= c && c <= '9') {
            assert(!is_digit(d[i - start]));
            return None;
        }
        let digit: u64 = (c as u32 - 48) as u64;
        let ghost k = i - start;
        assert(d.take(k + 1).drop_last() =~= d.take(k));
        assert(d.take(k + 1).last() == c);
        if v > (u64::MAX - digit) / 10 {
            proof {
                assert(v * 10 + digit > u64::MAX) by (nonlinear_arith)
                    requires
                        v > (u64::MAX - digit) / 10,
                        digit <= 9,
                ;
                assert(digits_value(d.take(k + 1)) == digits_value(d.take(k)) * 10 + ((c as int
                    - 48) as nat));
                lemma_digits_value_grows(d, k + 1);
            }
            return None;
        }
        assert(v * 10 + digit <= u64::MAX) by (nonlinear_arith)
            requires
                v <= (u64::MAX - digit) / 10,
                digit <= 9,
        ;
        assert(digits_value(d.take(k + 1)) == digits_value(d.take(k)) * 10 + ((c as int - 48) as nat));
        v = v * 10 + digit;
        i += 1;
    }
    assert(d.take(n - start) =~= d);
    Some(v)
}

/// Reads a comma separated list of update steps.
pub fn parse_steps(raw: &str) -> (res: Option<Vec<u64>>)
    ensures
        match spec_parse_steps(raw@) {
            None => res is None,
            Some(steps) => res matches Some(v) && v@ == steps,
        },
{
    let n = raw.unicode_len();
    let mut steps: Vec<u64> = Vec::new();
    let mut current: Vec<char> = Vec::new();
    let ghost mut done: Seq<Seq<char>> = Seq::empty();
    let mut i: usize = 0;
    assert(raw@.take(0) =~= Seq::<char>::empty());
    while i < n
        invariant
            n == raw@.len(),
            i <= n,
            spec_segments(raw@.take(i as int)) == done.push(current@),
            steps@.len() == done.len(),
            forall|j: int| 0 <= j < done.len() ==> (#[trigger] spec_parse_u64(done[j])) == Some(steps@[j]),
        decreases n - i,
    {
        let c = raw.get_char(i);
        let ghost prefix = raw@.take(i as int);
        assert(raw@.take(i + 1).drop_last() =~= prefix);
        assert(raw@.take(i + 1).last() == c);
        if c == ',' {
            match parse_u64(&current) {
                None => {
                    proof {
                        let segs = spec_segments(raw@);
                        lemma_segments_prefix(raw@, i as int);
                        assert(segs[done.len() as int] == current@);
                    }
                    return None;
                },
                Some(v) => {
                    steps.push(v);
                    proof {
                        done = done.push(current@);
                    }
                    current = Vec::new();
                    assert(current@ =~= Seq::<char>::empty());
                },
            }
        } else {
            let ghost before = current@;
            current.push(c);
            assert(done.push(before).update(done.len() as int, before.push(c)) =~= done.push(current@));
        }
        i += 1;
    }
    assert(raw@.take(n as int) =~= raw@);
    match parse_u64(&current) {
        None => {
            assert(spec_segments(raw@)[done.len() as int] == current@);
            None
        },
        Some(v) => {
            steps.push(v);
            proof {
                done = done.push(current@);
                let segs = spec_segments(raw@);
                assert(segs =~= done);
                assert(steps@ =~= Seq::new(segs.len(), |j: int| spec_parse_u64(segs[j])->Some_0));
            }
            Some(steps)
        },
    }
}

/// Every completed piece of a prefix is a piece of the whole text, at the
/// same position.
proof fn lemma_segments_prefix(s: Seq<char>, i: int)
    requires
        0 <= i <= s.len(),
    ensures
        spec_segments(s).len() >= spec_segments(s.take(i)).len(),
        forall|j: int|
            0 <= j < spec_segments(s.take(i)).len() - 1 ==> spec_segments(s)[j] == spec_segments(
                s.take(i),
            )[j],
        i < s.len() && s[i] == ',' ==> spec_segments(s)[spec_segments(s.take(i)).len() - 1]
            == spec_segments(s.take(i)).last(),
    decreases s.len() - i,
{
    lemma_segments_nonempty(s.take(i));
    if i < s.len() {
        let t = s.take(i + 1);
        assert(t.drop_last() =~= s.take(i));
        lemma_segments_nonempty(t);
        lemma_segments_prefix(s, i + 1);
        assert(s.take(i + 1).take(i) =~= s.take(i));
        if s[i] == ',' {
            assert(spec_segments(t) == spec_segments(s.take(i)).push(Seq::empty()));
        }
    } else {
        assert(s.take(i) =~= s);
    }
}

/// What `maybe_recycle` decides for `BULLETOU_EXPERIMENT_RECYCLE_STEPS`
/// at update `step`: whether to recycle now.
pub open spec fn spec_maybe_recycle(var: EnvValue, step: u64) -> Result<bool, CudaCppError> {
    match var {
        EnvValue::NotPresent => Ok(false),
        EnvValue::NotUnicode => Err(CudaCppError::InvalidRecycleEnvironment),
        EnvValue::Value(raw) => match spec_parse_steps(raw@) {
            None => Err(CudaCppError::RecycleStepsSyntax),
            Some(steps) => if steps.contains(0) {
                Err(CudaCppError::ZeroRecycleStep)
            } else {
                Ok(steps.contains(step))
            },
        },
    }
}

/// Reads the recycle schedule, a comma separated list of positive update
/// numbers, and says whether update `step` is in it.
pub fn maybe_recycle(var: &EnvValue, step: u64) -> (res: Result<bool, CudaCppError>)
    ensures
        res == spec_maybe_recycle(*var, step),
{
    let raw = match var {
        EnvValue::NotPresent => return Ok(false),
        EnvValue::NotUnicode => return Err(CudaCppError::InvalidRecycleEnvironment),
        EnvValue::Value(raw) => raw,
    };
    let steps = match parse_steps(raw.as_str()) {
        None => return Err(CudaCppError::RecycleStepsSyntax),
        Some(steps) => steps,
    };
    let mut has_zero = false;
    let mut has_step = false;
    let mut i: usize = 0;
    while i < steps.len()
        invariant
            i <= steps.len(),
            has_zero == (exists|j: int| 0 <= j < i && steps@[j] == 0),
            has_step == (exists|j: int| 0 <= j < i && steps@[j] == step),
        decreases steps.len() - i,
    {
        if steps[i] == 0 {
            has_zero = true;
        }
        if steps[i] == step {
            has_step = true;
        }
        i += 1;
    }
    if has_zero {
        assert(steps@.contains(0));
        return Err(CudaCppError::ZeroRecycleStep);
    }
    Ok(has_step)
}

/// Recycling needs an optimizer update on every batch, dense L1 with
/// factorizer none or shared, and no count gates.
pub fn check_recycle(update_weights: bool, r: &RunnerFacts) -> (res: Result<(), CudaCppError>)
    ensures
        res == (if update_weights && spec_dense_plain_l1(*r) {
            Ok(())
        } else {
            Err(CudaCppError::RecycleUnsupported)
        }),
{
    if !update_weights || !dense_plain_l1(r) {
        Err(CudaCppError::RecycleUnsupported)
    } else {
        Ok(())
    }
}

/// Recycling refuses L2/L3 factorizer tensors with any nonzero weight.
pub fn check_factorizers(tensors: &Vec<Vec<F32Bits>>) -> (res: Result<(), CudaCppError>)
    ensures
        res == (if exists|t: int, i: int|
            0 <= t < tensors.len() && 0 <= i < tensors@[t].len() && !spec_eq(
                #[trigger] tensors@[t]@[i],
                zero(),
            ) {
            Err(CudaCppError::RecycleFactorizers)
        } else {
            Ok(())
        }),
{
    let z = F32Bits::zero();
    let mut t: usize = 0;
    while t < tensors.len()
        invariant
            t <= tensors.len(),
            z == zero(),
            forall|tt: int, i: int|
                0 <= tt < t && 0 <= i < tensors@[tt].len() ==> spec_eq(
                    #[trigger] tensors@[tt]@[i],
                    zero(),
                ),
        decreases tensors.len() - t,
    {
        let tensor = &tensors[t];
        let mut i: usize = 0;
        while i < tensor.len()
            invariant
                i <= tensor.len(),
                t < tensors.len(),
                tensor == tensors@[t as int],
                z == zero(),
                forall|tt: int, j: int|
                    0 <= tt < t && 0 <= j < tensors@[tt].len() ==> spec_eq(
                        #[trigger] tensors@[tt]@[j],
                        zero(),
                    ),
                forall|j: int| 0 <= j < i ==> spec_eq(#[trigger] tensor@[j], zero()),
            decreases tensor.len() - i,
        {
            if !tensor[i].float_eq(z) {
                assert(!spec_eq(tensors@[t as int]@[i as int], zero()));
                return Err(CudaCppError::RecycleFactorizers);
            }
            i += 1;
        }
        t += 1;
    }
    Ok(())
}

/// Position `i` belongs to bucket `k` and has a positive entry weight.
pub open spec fn is_sample(buckets: Seq<i32>, weights: Seq<F32Bits>, k: int, i: int) -> bool {
    buckets[i] == k as i32 && spec_lt(zero(), weights[i])
}

/// The positions `0..m` of bucket `k` with a positive entry weight, in
/// order.
pub open spec fn spec_samples(buckets: Seq<i32>, weights: Seq<F32Bits>, k: int, m: int) -> Seq<usize>
    decreases m,
{
    if m <= 0 {
        Seq::empty()
    } else {
        spec_samples(buckets, weights, k, m - 1) + if is_sample(buckets, weights, k, m - 1) {
            seq![(m - 1) as usize]
        } else {
            Seq::empty()
        }
    }
}

proof fn lemma_samples_below(buckets: Seq<i32>, weights: Seq<F32Bits>, k: int, m: int)
    requires
        0 <= m,
    ensures
        forall|t: int|
            0 <= t < spec_samples(buckets, weights, k, m).len() ==> spec_samples(
                buckets,
                weights,
                k,
                m,
            )[t] < m,
    decreases m,
{
    if m > 0 {
        lemma_samples_below(buckets, weights, k, m - 1);
        let prev = spec_samples(buckets, weights, k, m - 1);
        let all = spec_samples(buckets, weights, k, m);
        assert forall|t: int| 0 <= t < all.len() implies all[t] < m by {
            if t < prev.len() {
                assert(all[t] == prev[t]);
            } else {
                assert(all[t] == (m - 1) as usize);
            }
        }
    }
}

/// The training positions of bucket `k` among the first `n`: those with a
/// positive entry weight.
pub fn bucket_samples(buckets: &Vec<i32>, weights: &Vec<F32Bits>, n: usize, k: usize) -> (s: Vec<
    usize,
>)
    requires
        n <= buckets.len(),
        n <= weights.len(),
    ensures
        s@ == spec_samples(buckets@, weights@, k as int, n as int),
        forall|t: int| 0 <= t < s.len() ==> s@[t] < n,
{
    let z = F32Bits::zero();
    let mut s: Vec<usize> = Vec::new();
    let mut i: usize = 0;
    while i < n
        invariant
            i <= n,
            n <= buckets.len(),
            n <= weights.len(),
            z == zero(),
            s@ == spec_samples(buckets@, weights@, k as int, i as int),
        decreases n - i,
    {
        if buckets[i] == k as i32 && z.float_lt(weights[i]) {
            s.push(i);
        }
        i += 1;
        assert(s@ =~= spec_samples(buckets@, weights@, k as int, i as int));
    }
    proof {
        lemma_samples_below(buckets@, weights@, k as int, n as int);
    }
    s
}

/// How many training positions a bucket needs before its units are
/// considered.
pub const MIN_RECYCLE_SAMPLES: usize = 512;

/// For unit `u` of a bucket with training positions `samples`: when the
/// unit is constant over them (enough positions, the clamped branch at
/// `1.0` everywhere, the linear branch everywhere equal to its first value,
/// which is `0.0` or `1.0`), that first linear value.
pub open spec fn spec_constant_linear(
    a: Seq<F32Bits>,
    samples: Seq<usize>,
    cols: int,
    h: int,
    u: int,
) -> Option<F32Bits> {
    if samples.len() < MIN_RECYCLE_SAMPLES {
        None
    } else if !(forall|t: int|
        0 <= t < samples.len() ==> spec_eq(a[#[trigger] samples[t] * cols + u], one())) {
        None
    } else {
        let linear = a[samples[0] * cols + h + u];
        if (spec_eq(linear, zero()) || spec_eq(linear, one())) && (forall|t: int|
            0 <= t < samples.len() ==> spec_eq(a[#[trigger] samples[t] * cols + h + u], linear)) {
            Some(linear)
        } else {
            None
        }
    }
}

/// A unit chosen for recycling, with the constant value of its linear
/// branch.
#[derive(Clone, Copy, Debug, PartialEq, Eq, Structural)]
pub struct ChosenUnit {
    pub bucket: usize,
    pub unit: usize,
    pub linear: F32Bits,
}

/// The chosen units `0..m` of bucket `k`, in order.
pub open spec fn spec_bucket_units(
    a: Seq<F32Bits>,
    samples: Seq<usize>,
    cols: int,
    h: int,
    k: int,
    m: int,
) -> Seq<ChosenUnit>
    decreases m,
{
    if m <= 0 {
        Seq::empty()
    } else {
        spec_bucket_units(a, samples, cols, h, k, m - 1) + match spec_constant_linear(
            a,
            samples,
            cols,
            h,
            m - 1,
        ) {
            Some(linear) => seq![ChosenUnit { bucket: k as usize, unit: (m - 1) as usize, linear }],
            None => Seq::empty(),
        }
    }
}

/// The chosen units of buckets `0..stacks`, bucket by bucket, unit by unit.
pub open spec fn spec_chosen(
    a: Seq<F32Bits>,
    buckets: Seq<i32>,
    weights: Seq<F32Bits>,
    n: int,
    h: int,
    stacks: int,
) -> Seq<ChosenUnit>
    decreases stacks,
{
    if stacks <= 0 {
        Seq::empty()
    } else {
        spec_chosen(a, buckets, weights, n, h, stacks - 1) + spec_bucket_units(
            a,
            spec_samples(buckets, weights, stacks - 1, n),
            2 * h,
            h,
            stacks - 1,
            h,
        )
    }
}

/// Whether unit `u` is constant over `samples`; see `spec_constant_linear`.
fn constant_linear(a: &Vec<F32Bits>, samples: &Vec<usize>, n: usize, cols: usize, h: usize, u: usize) -> (res:
    Option<F32Bits>)
    requires
        cols == 2 * h,
        u < h,
        n * cols <= a.len(),
        forall|t: int| 0 <= t < samples.len() ==> samples@[t] < n,
    ensures
        res == spec_constant_linear(a@, samples@, cols as int, h as int, u as int),
{
    if samples.len() < MIN_RECYCLE_SAMPLES {
        return None;
    }
    let o = F32Bits::one();
    let z = F32Bits::zero();
    let mut t: usize = 0;
    while t < samples.len()
        invariant
            t <= samples.len(),
            cols == 2 * h,
            u < h,
            n * cols <= a.len(),
            forall|j: int| 0 <= j < samples.len() ==> samples@[j] < n,
            o == one(),
            forall|j: int| 0 <= j < t ==> spec_eq(a@[#[trigger] samples@[j] * cols + u], one()),
        decreases samples.len() - t,
    {
        let s = samples[t];
        assert(s * cols + h + u < n * cols) by (nonlinear_arith)
            requires
                s < n,
                cols == 2 * h,
                u < h,
        ;
        if !a[s * cols + u].float_eq(o) {
            return None;
        }
        t += 1;
    }
    let s0 = samples[0];
    assert(s0 * cols + h + u < n * cols) by (nonlinear_arith)
        requires
            s0 < n,
            cols == 2 * h,
            u < h,
    ;
    let linear = a[s0 * cols + h + u];
    if !(linear.float_eq(z) || linear.float_eq(o)) {
        return None;
    }
    let mut t: usize = 0;
    while t < samples.len()
        invariant
            t <= samples.len(),
            cols == 2 * h,
            u < h,
            n * cols <= a.len(),
            forall|j: int| 0 <= j < samples.len() ==> samples@[j] < n,
            forall|j: int| 0 <= j < samples.len() ==> spec_eq(a@[#[trigger] samples@[j] * cols + u], one()),
            samples.len() >= MIN_RECYCLE_SAMPLES,
            linear == a@[samples@[0] * cols + h + u],
            forall|j: int| 0 <= j < t ==> spec_eq(a@[#[trigger] samples@[j] * cols + h + u], linear),
        decreases samples.len() - t,
    {
        let s = samples[t];
        assert(s * cols + h + u < n * cols) by (nonlinear_arith)
            requires
                s < n,
                cols == 2 * h,
                u < h,
        ;
        if !a[s * cols + h + u].float_eq(linear) {
            assert(!spec_eq(a@[samples@[t as int] * cols + h + u], linear));
            return None;
        }
        t += 1;
    }
    Some(linear)
}

/// Chooses the units to recycle: per bucket with at least `MIN_RECYCLE_SAMPLES` training
/// positions, the units whose activations over those positions are
/// constant (see `spec_constant_linear`). `a` holds `n` rows of the L2
/// input, `2 * h` values each: the clamped branch, then the linear one.
pub fn select_units(
    a: &Vec<F32Bits>,
    buckets: &Vec<i32>,
    weights: &Vec<F32Bits>,
    n: usize,
    h: usize,
    stacks: usize,
) -> (chosen: Vec<ChosenUnit>)
    requires
        n <= buckets.len(),
        n <= weights.len(),
        2 * h <= usize::MAX,
        n * (2 * h) <= a.len(),
    ensures
        chosen@ == spec_chosen(a@, buckets@, weights@, n as int, h as int, stacks as int),
{
    let cols = 2 * h;
    let mut chosen: Vec<ChosenUnit> = Vec::new();
    let mut k: usize = 0;
    while k < stacks
        invariant
            k <= stacks,
            cols == 2 * h,
            n <= buckets.len(),
            n <= weights.len(),
            n * cols <= a.len(),
            chosen@ == spec_chosen(a@, buckets@, weights@, n as int, h as int, k as int),
        decreases stacks - k,
    {
        let samples = bucket_samples(buckets, weights, n, k);
        let ghost prefix = chosen@;
        let mut u: usize = 0;
        while u < h
            invariant
                u <= h,
                k < stacks,
                cols == 2 * h,
                n * cols <= a.len(),
                forall|t: int| 0 <= t < samples.len() ==> samples@[t] < n,
                samples@ == spec_samples(buckets@, weights@, k as int, n as int),
                prefix == spec_chosen(a@, buckets@, weights@, n as int, h as int, k as int),
                chosen@ == prefix + spec_bucket_units(
                    a@,
                    samples@,
                    cols as int,
                    h as int,
                    k as int,
                    u as int,
                ),
            decreases h - u,
        {
            match constant_linear(a, &samples, n, cols, h, u) {
                Some(linear) => chosen.push(ChosenUnit { bucket: k, unit: u, linear }),
                None => {},
            }
            u += 1;
            assert(chosen@ =~= prefix + spec_bucket_units(
                a@,
                samples@,
                cols as int,
                h as int,
                k as int,
                u as int,
            ));
        }
        k += 1;
    }
    chosen
}

/// One step of the xorshift generator that draws fresh rows.
pub open spec fn xorshift(s: u64) -> u64 {
    let a = s ^ (s << 13u64);
    let b = a ^ (a >> 7u64);
    b ^ (b << 17u64)
}

/// The generator state after `j` steps from `s`.
pub open spec fn xorshift_n(s: u64, j: nat) -> u64
    decreases j,
{
    if j == 0 {
        s
    } else {
        xorshift(xorshift_n(s, (j - 1) as nat))
    }
}

/// The seed of the fresh row of unit `u` (of `h`) in bucket `k` at update
/// `step`.
pub open spec fn row_seed(k: int, h: int, u: int, step: u64) -> u64 {
    0x9e37_79b9_7f4a_7c15u64 ^ ((k * h + u) as u64) ^ step
}

/// The top 24 bits of the generator state after each of `f` steps: one
/// uniform draw per input feature of the fresh row, in order.
pub fn row_seed_bits(k: usize, h: usize, u: usize, step: u64, f: usize) -> (bits: Vec<u32>)
    requires
        k * h + u <= usize::MAX,
    ensures
        bits.len() == f,
        forall|j: int|
            0 <= j < f ==> bits@[j] as int == xorshift_n(
                row_seed(k as int, h as int, u as int, step),
                (j + 1) as nat,
            ) >> 40u64,
{
    let mut seed: u64 = 0x9e37_79b9_7f4a_7c15u64 ^ ((k * h + u) as u64) ^ step;
    let ghost s0 = seed;
    assert(s0 == row_seed(k as int, h as int, u as int, step));
    let mut bits: Vec<u32> = Vec::new();
    let mut j: usize = 0;
    while j < f
        invariant
            j <= f,
            bits.len() == j,
            seed == xorshift_n(s0, j as nat),
            forall|t: int| 0 <= t < j ==> bits@[t] as int == xorshift_n(s0, (t + 1) as nat) >> 40u64,
        decreases f - j,
    {
        seed = seed ^ (seed << 13u64);
        seed = seed ^ (seed >> 7u64);
        seed = seed ^ (seed << 17u64);
        assert(seed >> 40u64 < 0x1_0000_0000) by (bit_vector);
        bits.push((seed >> 40u64) as u32);
        j += 1;
    }
    bits
}

/// The L2 weight entries fed by unit `u`: for each of the `l2out` outputs
/// of the bucket block at `base`, the clamped-branch column `u`, then the
/// linear-branch column `h + u`.
pub open spec fn spec_l2_columns(base: int, cols: int, h: int, u: int, m: int) -> Seq<int>
    decreases m,
{
    if m <= 0 {
        Seq::empty()
    } else {
        spec_l2_columns(base, cols, h, u, m - 1) + seq![
            base + (m - 1) * cols + u,
            base + (m - 1) * cols + h + u,
        ]
    }
}

/// Where recycling unit `u` of bucket `k` writes.
pub struct RecycleTargets {
    /// The L1 output row: its bias index; its weights start at `row * f`.
    pub l1_out: usize,
    /// The L2 weights that read the unit (folded into the L2 bias, then
    /// zeroed, their moments reset).
    pub l2_columns: Vec<usize>,
    /// The L2 biases of the bucket (their moments reset).
    pub l2_biases: Vec<usize>,
}

/// The entries that recycling unit `u` of bucket `k` changes, all inside
/// bucket `k`'s blocks: the L1 row `k * l1out + u` (of `f` weights), the
/// two L2 columns reading the unit, and the bucket's L2 biases.
pub fn recycle_targets(
    k: usize,
    u: usize,
    h: usize,
    f: usize,
    l1out: usize,
    l2out: usize,
    stacks: usize,
) -> (t: RecycleTargets)
    requires
        k < stacks,
        u < h,
        u < l1out,
        2 * h <= usize::MAX,
        stacks * l1out <= usize::MAX,
        stacks * l2out <= usize::MAX,
        stacks * l1out * f <= usize::MAX,
        stacks * l2out * (2 * h) <= usize::MAX,
    ensures
        t.l1_out == k * l1out + u,
        t.l1_out < stacks * l1out,
        t.l1_out * f + f <= stacks * l1out * f,
        t.l2_columns@.map_values(|i: usize| i as int) == spec_l2_columns(
            (k * l2out * (2 * h)) as int,
            2 * h,
            h as int,
            u as int,
            l2out as int,
        ),
        forall|i: int|
            0 <= i < t.l2_columns.len() ==> k * l2out * (2 * h) <= #[trigger] t.l2_columns@[i] < (k
                + 1) * l2out * (2 * h),
        t.l2_biases@ == Seq::new(l2out as nat, |j: int| (k * l2out + j) as usize),
        forall|i: int| 0 <= i < t.l2_biases.len() ==> #[trigger] t.l2_biases@[i] < stacks * l2out,
{
    let cols = 2 * h;
    proof {
        assert(k * l1out + u < stacks * l1out) by (nonlinear_arith)
            requires
                k < stacks,
                u < l1out,
        ;
        assert((k * l1out + u) * f + f <= stacks * l1out * f) by (nonlinear_arith)
            requires
                k * l1out + u < stacks * l1out,
        ;
        assert((k + 1) * l2out * cols <= stacks * l2out * cols) by (nonlinear_arith)
            requires
                k < stacks,
        ;
        assert((k + 1) * l2out <= stacks * l2out) by (nonlinear_arith)
            requires
                k < stacks,
        ;
        assert(k * l2out * cols + l2out * cols == (k + 1) * l2out * cols) by (nonlinear_arith);
        assert(k * l2out + l2out == (k + 1) * l2out) by (nonlinear_arith);
    }
    let out = k * l1out + u;
    let base = k * l2out * cols;
    let mut columns: Vec<usize> = Vec::new();
    let mut biases: Vec<usize> = Vec::new();
    let mut j: usize = 0;
    while j < l2out
        invariant
            j <= l2out,
            cols == 2 * h,
            u < h,
            base == k * l2out * cols,
            base + l2out * cols == (k + 1) * l2out * cols,
            (k + 1) * l2out * cols <= usize::MAX,
            k * l2out + l2out == (k + 1) * l2out,
            (k + 1) * l2out <= stacks * l2out,
            stacks * l2out <= usize::MAX,
            columns@.map_values(|i: usize| i as int) == spec_l2_columns(
                base as int,
                cols as int,
                h as int,
                u as int,
                j as int,
            ),
            forall|i: int|
                0 <= i < columns.len() ==> base <= #[trigger] columns@[i] < base + j * cols,
            biases@ == Seq::new(j as nat, |t: int| (k * l2out + t) as usize),
        decreases l2out - j,
    {
        proof {
            assert(j * cols + cols <= l2out * cols) by (nonlinear_arith)
                requires
                    j < l2out,
            ;
            assert(j * cols + cols == (j + 1) * cols) by (nonlinear_arith);
        }
        let ghost before = columns@;
        columns.push(base + j * cols + u);
        columns.push(base + j * cols + h + u);
        biases.push(k * l2out + j);
        j += 1;
        assert(columns@.map_values(|i: usize| i as int) =~= spec_l2_columns(
            base as int,
            cols as int,
            h as int,
            u as int,
            j as int,
        ));
        assert(biases@ =~= Seq::new(j as nat, |t: int| (k * l2out + t) as usize));
    }
    RecycleTargets { l1_out: out, l2_columns: columns, l2_biases: biases }
}

/// The Lookahead slow values after storing `changes` in order (a later
/// change of the same entry wins).
pub open spec fn spec_store(slow: Seq<F32Bits>, changes: Seq<(usize, F32Bits)>) -> Seq<F32Bits>
    decreases changes.len(),
{
    if changes.len() == 0 {
        slow
    } else {
        spec_store(slow, changes.drop_last()).update(
            changes.last().0 as int,
            changes.last().1,
        )
    }
}

/// Entry `i` is the target of some change.
pub open spec fn is_changed(changes: Seq<(usize, F32Bits)>, i: int) -> bool {
    exists|c: int| 0 <= c < changes.len() && changes[c].0 == i
}

proof fn lemma_store_len(slow: Seq<F32Bits>, changes: Seq<(usize, F32Bits)>)
    requires
        forall|c: int| 0 <= c < changes.len() ==> #[trigger] changes[c].0 < slow.len(),
    ensures
        spec_store(slow, changes).len() == slow.len(),
    decreases changes.len(),
{
    if changes.len() > 0 {
        let prev = changes.drop_last();
        assert forall|c: int| 0 <= c < prev.len() implies #[trigger] prev[c].0 < slow.len() by {
            assert(prev[c] == changes[c]);
        }
        lemma_store_len(slow, prev);
        assert(changes[changes.len() - 1].0 < slow.len());
    }
}

/// Resets the optimizer state of the changed entries of one tensor: their
/// momentum and velocity become zero and their slow value is the one
/// given; every other entry keeps its state.
pub fn reset_changed(
    momentum: &mut Vec<F32Bits>,
    velocity: &mut Vec<F32Bits>,
    slow: &mut Vec<F32Bits>,
    changes: &Vec<(usize, F32Bits)>,
)
    requires
        old(momentum).len() == old(slow).len(),
        old(velocity).len() == old(slow).len(),
        forall|c: int| 0 <= c < changes.len() ==> #[trigger] changes@[c].0 < old(slow).len(),
    ensures
        final(momentum).len() == old(momentum).len(),
        final(velocity).len() == old(velocity).len(),
        final(slow)@ == spec_store(old(slow)@, changes@),
        forall|i: int|
            0 <= i < old(slow).len() ==> if is_changed(changes@, i) {
                final(momentum)@[i] == zero() && final(velocity)@[i] == zero()
            } else {
                final(momentum)@[i] == old(momentum)@[i] && final(velocity)@[i] == old(velocity)@[i]
                    && final(slow)@[i] == old(slow)@[i]
            },
{
    let n = slow.len();
    let mut c: usize = 0;
    while c < changes.len()
        invariant
            c <= changes.len(),
            n == slow.len(),
            n == old(slow).len(),
            momentum.len() == n,
            velocity.len() == n,
            forall|d: int| 0 <= d < changes.len() ==> #[trigger] changes@[d].0 < n,
            slow@ == spec_store(old(slow)@, changes@.take(c as int)),
            forall|i: int|
                0 <= i < n ==> if is_changed(changes@.take(c as int), i) {
                    momentum@[i] == zero() && velocity@[i] == zero()
                } else {
                    momentum@[i] == old(momentum)@[i] && velocity@[i] == old(velocity)@[i]
                        && slow@[i] == old(slow)@[i]
                },
        decreases changes.len() - c,
    {
        let (i, value) = changes[c];
        let ghost before = changes@.take(c as int);
        let ghost after = changes@.take(c + 1);
        assert(after.drop_last() =~= before);
        assert(after.last() == (i, value));
        momentum.set(i, F32Bits::zero());
        velocity.set(i, F32Bits::zero());
        slow.set(i, value);
        proof {
            assert forall|d: int| 0 <= d < before.len() implies #[trigger] before[d].0 < old(
                slow,
            )@.len() by {
                assert(before[d] == changes@[d]);
            }
            lemma_store_len(old(slow)@, before);
            assert forall|j: int| 0 <= j < n implies (if is_changed(after, j) {
                momentum@[j] == zero() && velocity@[j] == zero()
            } else {
                momentum@[j] == old(momentum)@[j] && velocity@[j] == old(velocity)@[j] && slow@[j]
                    == old(slow)@[j]
            }) by {
                if j == i {
                    assert(after[c as int].0 == j);
                } else if is_changed(before, j) {
                    let w = choose|w: int| 0 <= w < before.len() && before[w].0 == j;
                    assert(after[w].0 == j);
                } else {
                    if is_changed(after, j) {
                        let w = choose|w: int| 0 <= w < after.len() && after[w].0 == j;
                        assert(w < c);
                        assert(before[w].0 == j);
                    }
                }
            }
        }
        c += 1;
    }
    assert(changes@.take(changes.len() as int) =~= changes@);
}

} // verus!
