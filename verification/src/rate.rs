use vstd::prelude::*;
use crate::decimal::{push_decimal, spec_decimal};

verus! {

/// One candidate rate: `(hits, samples, bucket, unit)`; `None` marks a
/// unit shared by all buckets.
pub type RateEntry = (u64, u64, Option<usize>, usize);

/// `a` has a strictly higher hit rate than `b` (compared by cross
/// multiplication, so no division is needed).
pub open spec fn rate_exceeds(a: RateEntry, b: RateEntry) -> bool {
    (a.0 as int) * (b.1 as int) > (b.0 as int) * (a.1 as int)
}

/// Entry `k` has samples, no entry with samples has a higher rate, and
/// every earlier entry with samples has a strictly lower rate.
pub open spec fn is_first_best(vals: Seq<RateEntry>, k: int) -> bool {
    &&& 0 <= k < vals.len()
    &&& vals[k].1 > 0
    &&& forall|j: int| 0 <= j < vals.len() && vals[j].1 > 0 ==> !rate_exceeds(vals[j], vals[k])
    &&& forall|j: int| 0 <= j < k && vals[j].1 > 0 ==> rate_exceeds(vals[k], vals[j])
}

/// The highest-rate entry among those with samples, the first one on a tie;
/// `None` when no entry has samples (an unseen bucket has no defined rate).
pub open spec fn spec_best(vals: Seq<RateEntry>) -> Option<RateEntry> {
    if exists|k: int| is_first_best(vals, k) {
        Some(vals[choose|k: int| is_first_best(vals, k)])
    } else {
        None
    }
}

proof fn lemma_exceeds_then_not_exceeded(a: RateEntry, b: RateEntry, c: RateEntry)
    requires
        a.1 > 0,
        b.1 > 0,
        c.1 > 0,
        rate_exceeds(a, b),
        !rate_exceeds(c, b),
    ensures
        rate_exceeds(a, c),
{
    let (a0, a1, b0, b1, c0, c1) = (a.0 as int, a.1 as int, b.0 as int, b.1 as int, c.0 as int, c.1 as int);
    assert(a0 * c1 > c0 * a1) by (nonlinear_arith)
        requires
            a1 > 0,
            b1 > 0,
            c1 > 0,
            a0 * b1 > b0 * a1,
            c0 * b1 <= b0 * c1,
            a0 >= 0,
            b0 >= 0,
            c0 >= 0,
    {
        assert(a0 * b1 * c1 > b0 * a1 * c1);
        assert(c0 * b1 * a1 <= b0 * c1 * a1);
    }
}

proof fn lemma_exceeds_transitive(a: RateEntry, b: RateEntry, c: RateEntry)
    requires
        a.1 > 0,
        b.1 > 0,
        c.1 > 0,
        rate_exceeds(a, b),
        rate_exceeds(b, c),
    ensures
        rate_exceeds(a, c),
{
    let (a0, a1, b0, b1, c0, c1) = (a.0 as int, a.1 as int, b.0 as int, b.1 as int, c.0 as int, c.1 as int);
    assert(a0 * c1 > c0 * a1) by (nonlinear_arith)
        requires
            a1 > 0,
            b1 > 0,
            c1 > 0,
            a0 * b1 > b0 * a1,
            b0 * c1 > c0 * b1,
            a0 >= 0,
            b0 >= 0,
            c0 >= 0,
    {
        assert(a0 * b1 * c1 > b0 * a1 * c1);
        assert(b0 * c1 * a1 > c0 * b1 * a1);
    }
}

proof fn lemma_first_best_unique(vals: Seq<RateEntry>, k1: int, k2: int)
    requires
        is_first_best(vals, k1),
        is_first_best(vals, k2),
    ensures
        k1 == k2,
{
    if k1 < k2 {
        assert(rate_exceeds(vals[k2], vals[k1]));
    } else if k2 < k1 {
        assert(rate_exceeds(vals[k1], vals[k2]));
    }
}

/// `spec_best` is the entry at the unique first-best index.
pub proof fn lemma_spec_best_at(vals: Seq<RateEntry>, k: int)
    requires
        is_first_best(vals, k),
    ensures
        spec_best(vals) == Some(vals[k]),
{
    let c = choose|k: int| is_first_best(vals, k);
    lemma_first_best_unique(vals, c, k);
}

/// Selects the highest hit rate among the entries with samples, keeping the
/// first entry on a tie; entries without samples are skipped.
pub fn maximum(values: &Vec<RateEntry>) -> (best: Option<RateEntry>)
    ensures
        best == spec_best(values@),
        best is None <==> forall|i: int| 0 <= i < values.len() ==> values@[i].1 == 0,
{
    let mut best: Option<RateEntry> = None;
    let ghost mut bi: int = 0;
    let n = values.len();
    let mut i: usize = 0;
    while i < n
        invariant
            n == values.len(),
            i <= n,
            best is None <==> forall|j: int| 0 <= j < i ==> values@[j].1 == 0,
            best is Some ==> {
                &&& 0 <= bi < i
                &&& best == Some(values@[bi])
                &&& is_first_best(values@.take(i as int), bi)
            },
        decreases n - i,
    {
        let v = values[i];
        let ghost vals = values@;
        let ghost pre = vals.take(i as int);
        let ghost post = vals.take(i + 1);
        assert(forall|j: int| 0 <= j < i ==> post[j] == pre[j]);
        assert(post[i as int] == v);
        if v.1 > 0 {
            let replace = match best {
                None => true,
                Some(b) => {
                    assert((v.0 as int) * (b.1 as int) <= u64::MAX * u64::MAX) by (nonlinear_arith)
                        requires
                            v.0 <= u64::MAX,
                            b.1 <= u64::MAX,
                    ;
                    assert((b.0 as int) * (v.1 as int) <= u64::MAX * u64::MAX) by (nonlinear_arith)
                        requires
                            b.0 <= u64::MAX,
                            v.1 <= u64::MAX,
                    ;
                    (v.0 as u128) * (b.1 as u128) > (b.0 as u128) * (v.1 as u128)
                },
            };
            if replace {
                proof {
                    if best is Some {
                        let b = values@[bi];
                        assert forall|j: int| 0 <= j < i + 1 && post[j].1 > 0 implies !rate_exceeds(
                            post[j],
                            v,
                        ) by {
                            if j < i {
                                assert(!rate_exceeds(pre[j], b));
                                if rate_exceeds(post[j], v) {
                                    lemma_exceeds_transitive(post[j], v, b);
                                }
                            }
                        }
                        assert forall|j: int| 0 <= j < i && post[j].1 > 0 implies rate_exceeds(
                            v,
                            post[j],
                        ) by {
                            assert(!rate_exceeds(pre[j], b));
                            lemma_exceeds_then_not_exceeded(v, b, post[j]);
                        }
                    }
                    bi = i as int;
                }
                best = Some(v);
            } else {
                proof {
                    let b = values@[bi];
                    assert(is_first_best(post, bi));
                }
            }
        } else {
            proof {
                if best is Some {
                    assert(is_first_best(post, bi));
                }
            }
        }
        i += 1;
    }
    proof {
        assert(values@.take(n as int) =~= values@);
        if best is Some {
            lemma_spec_best_at(values@, bi);
        } else {
            assert(!exists|k: int| is_first_best(values@, k));
        }
    }
    best
}

/// The text of a selected maximum, given the text of its percentage:
/// `P%(bucket=B,unit=U,hits=H,n=N)` with `B` the bucket or `shared`, or
/// `n/a(no-samples)` when nothing was selected.
pub open spec fn spec_render_maximum(best: Option<RateEntry>, percent: Seq<char>) -> Seq<char> {
    match best {
        None => "n/a(no-samples)"@,
        Some((count, n, b, u)) => percent + "%(bucket="@ + match b {
            None => "shared"@,
            Some(v) => spec_decimal(v as nat),
        } + ",unit="@ + spec_decimal(u as nat) + ",hits="@ + spec_decimal(count as nat) + ",n="@
            + spec_decimal(n as nat) + ")"@,
    }
}

/// Renders a selected maximum; `percent` is the text of `100 * hits / n`
/// with four decimals, which the caller formats.
pub fn render_maximum(best: Option<RateEntry>, percent: &str) -> (text: String)
    ensures
        text@ == spec_render_maximum(best, percent@),
{
    match best {
        None => String::from_str("n/a(no-samples)"),
        Some((count, n, b, u)) => {
            let mut out = String::from_str(percent);
            out.append("%(bucket=");
            match b {
                None => out.append("shared"),
                Some(v) => push_decimal(&mut out, v as u64),
            }
            out.append(",unit=");
            push_decimal(&mut out, u as u64);
            out.append(",hits=");
            push_decimal(&mut out, count);
            out.append(",n=");
            push_decimal(&mut out, n);
            out.append(")");
            out
        },
    }
}

} // verus!

verus! {

/// The entry has samples (a nonzero denominator).
pub open spec fn has_samples(e: RateEntry) -> bool {
    e.1 > 0
}

/// The best entry, scanning left to right and replacing the current best
/// only by a strictly higher rate.
spec fn scan_best(vals: Seq<RateEntry>) -> Option<RateEntry>
    decreases vals.len(),
{
    if vals.len() == 0 {
        None
    } else {
        let prev = scan_best(vals.drop_last());
        let v = vals.last();
        if v.1 == 0 {
            prev
        } else {
            match prev {
                None => Some(v),
                Some(b) => if rate_exceeds(v, b) {
                    Some(v)
                } else {
                    prev
                },
            }
        }
    }
}

proof fn lemma_scan_is_best(vals: Seq<RateEntry>)
    ensures
        scan_best(vals) is None <==> forall|i: int| 0 <= i < vals.len() ==> vals[i].1 == 0,
        scan_best(vals) is Some ==> exists|k: int| is_first_best(vals, k) && vals[k] == scan_best(vals)->Some_0,
    decreases vals.len(),
{
    if vals.len() > 0 {
        let pre = vals.drop_last();
        let n = pre.len() as int;
        let v = vals.last();
        lemma_scan_is_best(pre);
        assert forall|j: int| 0 <= j < n implies vals[j] == pre[j] by {}
        if v.1 == 0 {
            if scan_best(pre) is Some {
                let k = choose|k: int| is_first_best(pre, k) && pre[k] == scan_best(pre)->Some_0;
                assert(is_first_best(vals, k));
            }
        } else {
            match scan_best(pre) {
                None => {
                    assert(is_first_best(vals, n));
                },
                Some(b) => {
                    let k = choose|k: int| is_first_best(pre, k) && pre[k] == b;
                    if rate_exceeds(v, b) {
                        assert forall|j: int| 0 <= j < vals.len() && vals[j].1 > 0 implies !rate_exceeds(
                            vals[j],
                            v,
                        ) by {
                            if j < n {
                                assert(!rate_exceeds(pre[j], b));
                                if rate_exceeds(vals[j], v) {
                                    lemma_exceeds_transitive(vals[j], v, b);
                                }
                            }
                        }
                        assert forall|j: int| 0 <= j < n && vals[j].1 > 0 implies rate_exceeds(
                            v,
                            vals[j],
                        ) by {
                            assert(!rate_exceeds(pre[j], b));
                            lemma_exceeds_then_not_exceeded(v, b, vals[j]);
                        }
                        assert(is_first_best(vals, n));
                    } else {
                        assert(is_first_best(vals, k));
                    }
                },
            }
        }
    }
}

proof fn lemma_scan_is_spec_best(vals: Seq<RateEntry>)
    ensures
        scan_best(vals) == spec_best(vals),
{
    lemma_scan_is_best(vals);
    if scan_best(vals) is Some {
        let k = choose|k: int| is_first_best(vals, k) && vals[k] == scan_best(vals)->Some_0;
        lemma_spec_best_at(vals, k);
    } else {
        assert(!exists|k: int| is_first_best(vals, k));
    }
}

proof fn lemma_scan_ignores_unseen(vals: Seq<RateEntry>)
    ensures
        scan_best(vals) == scan_best(vals.filter(|e: RateEntry| has_samples(e))),
    decreases vals.len(),
{
    reveal(Seq::filter);
    let pred = |e: RateEntry| has_samples(e);
    if vals.len() > 0 {
        lemma_scan_ignores_unseen(vals.drop_last());
        let f = vals.filter(pred);
        let fp = vals.drop_last().filter(pred);
        if has_samples(vals.last()) {
            assert(f == fp.push(vals.last()));
            assert(f.drop_last() =~= fp);
        } else {
            assert(f == fp);
        }
    }
}

/// Law: entries without samples never affect the maximum. Two lists with
/// the same entries with samples, in the same order, however many entries
/// without samples are inserted anywhere, select the same maximum.
pub proof fn lemma_unseen_entries_do_not_matter(ws: Seq<RateEntry>, values: Seq<RateEntry>)
    requires
        ws.filter(|e: RateEntry| has_samples(e)) == values.filter(|e: RateEntry| has_samples(e)),
    ensures
        spec_best(ws) == spec_best(values),
{
    lemma_scan_ignores_unseen(ws);
    lemma_scan_ignores_unseen(values);
    lemma_scan_is_spec_best(ws);
    lemma_scan_is_spec_best(values);
}

} // verus!

verus! {

/// Law: as soon as one entry has samples, a maximum is selected; it is one
/// of the entries, it has samples, and no entry with samples has a strictly
/// higher rate (compared by cross multiplication).
pub proof fn lemma_best_dominates(vals: Seq<RateEntry>, k: int)
    requires
        0 <= k < vals.len(),
        vals[k].1 > 0,
    ensures
        spec_best(vals) is Some,
        spec_best(vals)->Some_0.1 > 0,
        exists|i: int| 0 <= i < vals.len() && vals[i] == spec_best(vals)->Some_0,
        forall|j: int|
            0 <= j < vals.len() && vals[j].1 > 0 ==> (vals[j].0 as int) * (spec_best(vals)->Some_0.1 as int)
                <= (spec_best(vals)->Some_0.0 as int) * (vals[j].1 as int),
{
    lemma_scan_is_best(vals);
    lemma_scan_is_spec_best(vals);
    let i = choose|i: int| is_first_best(vals, i) && vals[i] == scan_best(vals)->Some_0;
    assert(is_first_best(vals, i));
}

} // verus!
