//! The least and the greatest of a sequence of samples, as a left fold.

use vstd::prelude::*;
use crate::sample::{gt, is_nan, lt, sample_gt, sample_is_nan, sample_lt, value_rank};

verus! {

/// The least and the greatest sample seen so far.
#[derive(Clone, Copy, Debug, PartialEq, Eq, Structural)]
pub struct Extrema {
    pub min: u64,
    pub max: u64,
}

/// The fold's step: a NaN changes nothing, the first other sample is both
/// extremes, and a later one replaces an extreme only where it is strictly
/// beyond it.
pub open spec fn extend(seen: Option<Extrema>, z: u64) -> Option<Extrema> {
    if is_nan(z) {
        seen
    } else {
        match seen {
            None => Some(Extrema { min: z, max: z }),
            Some(e) => Some(
                Extrema {
                    min: if lt(z, e.min) { z } else { e.min },
                    max: if gt(z, e.max) { z } else { e.max },
                },
            ),
        }
    }
}

/// The extremes of `zs`, folded from the left; `None` where `zs` holds no
/// sample other than NaN.
pub open spec fn extrema_of(zs: Seq<u64>) -> Option<Extrema>
    decreases zs.len(),
{
    if zs.len() == 0 {
        None
    } else {
        extend(extrema_of(zs.drop_last()), zs.last())
    }
}

/// One step of the fold.
pub fn extend_extrema(seen: Option<Extrema>, z: u64) -> (r: Option<Extrema>)
    ensures
        r == extend(seen, z),
{
    if sample_is_nan(z) {
        seen
    } else {
        match seen {
            None => Some(Extrema { min: z, max: z }),
            Some(e) => {
                let min: u64 = if sample_lt(z, e.min) { z } else { e.min };
                let max: u64 = if sample_gt(z, e.max) { z } else { e.max };
                Some(Extrema { min, max })
            },
        }
    }
}

/// The extremes of a vector of samples in one pass.
pub fn sample_extrema(zs: &Vec<u64>) -> (r: Option<Extrema>)
    ensures
        r == extrema_of(zs@),
{
    let mut seen: Option<Extrema> = None;
    let mut i: usize = 0;
    while i < zs.len()
        invariant
            i <= zs.len(),
            seen == extrema_of(zs@.take(i as int)),
        decreases zs.len() - i,
    {
        proof {
            assert(zs@.take(i + 1).drop_last() =~= zs@.take(i as int));
        }
        seen = extend_extrema(seen, zs[i]);
        i += 1;
    }
    proof {
        assert(zs@.take(i as int) =~= zs@);
    }
    seen
}

/// The extremes of two runs put together, the first run's extreme staying
/// where the second's is not strictly beyond it.
pub open spec fn merge(first: Option<Extrema>, second: Option<Extrema>) -> Option<Extrema> {
    match (first, second) {
        (None, _) => second,
        (_, None) => first,
        (Some(a), Some(b)) => Some(
            Extrema {
                min: if lt(b.min, a.min) { b.min } else { a.min },
                max: if gt(b.max, a.max) { b.max } else { a.max },
            },
        ),
    }
}

/// Puts the extremes of two runs together.
pub fn merge_extrema(first: Option<Extrema>, second: Option<Extrema>) -> (r: Option<Extrema>)
    ensures
        r == merge(first, second),
{
    match (first, second) {
        (None, _) => second,
        (_, None) => first,
        (Some(a), Some(b)) => {
            let min: u64 = if sample_lt(b.min, a.min) { b.min } else { a.min };
            let max: u64 = if sample_gt(b.max, a.max) { b.max } else { a.max };
            Some(Extrema { min, max })
        },
    }
}

/// Extremes that a fold can yield: neither is a NaN, and the least is not
/// above the greatest.
pub open spec fn is_span(e: Option<Extrema>) -> bool {
    e matches Some(x) ==> !is_nan(x.min) && !is_nan(x.max) && value_rank(x.min) <= value_rank(x.max)
}

/// The fold may be cut anywhere: the extremes of a sequence are those of its
/// two parts, merged.
pub proof fn lemma_extrema_of_parts(front: Seq<u64>, back: Seq<u64>)
    ensures
        extrema_of(front + back) == merge(extrema_of(front), extrema_of(back)),
        is_span(extrema_of(front + back)),
    decreases back.len(),
{
    lemma_extrema_bound(front);
    lemma_extrema_bound(back);
    lemma_extrema_bound(front + back);
    if back.len() > 0 {
        let shorter = back.drop_last();
        lemma_extrema_of_parts(front, shorter);
        lemma_extrema_bound(shorter);
        assert((front + back).drop_last() =~= front + shorter);
    }
}

/// Merging is associative on what folds yield, so partial folds may be
/// combined in any grouping.
pub proof fn lemma_merge_associative(a: Option<Extrema>, b: Option<Extrema>, c: Option<Extrema>)
    requires
        is_span(a),
        is_span(b),
        is_span(c),
    ensures
        merge(merge(a, b), c) == merge(a, merge(b, c)),
        is_span(merge(a, b)),
{
}

/// What the fold finds. It finds nothing exactly when every sample is a NaN.
/// Otherwise both extremes occur in `zs`, neither is a NaN, and every sample
/// that is not a NaN lies between them in the order of the encoded numbers.
pub proof fn lemma_extrema_bound(zs: Seq<u64>)
    ensures
        extrema_of(zs).is_none() <==> forall|i: int| 0 <= i < zs.len() ==> is_nan(#[trigger] zs[i]),
        extrema_of(zs) matches Some(e) ==> {
            &&& zs.contains(e.min)
            &&& zs.contains(e.max)
            &&& !is_nan(e.min)
            &&& !is_nan(e.max)
            &&& forall|i: int|
                0 <= i < zs.len() && !is_nan(#[trigger] zs[i]) ==> value_rank(e.min) <= value_rank(
                    zs[i],
                ) <= value_rank(e.max)
        },
    decreases zs.len(),
{
    if zs.len() > 0 {
        let front = zs.drop_last();
        let z = zs.last();
        lemma_extrema_bound(front);
        match extrema_of(front) {
            None => {
                if !is_nan(z) {
                    assert forall|i: int| 0 <= i < zs.len() && !is_nan(#[trigger] zs[i]) implies i
                        == zs.len() - 1 by {
                        if i < front.len() {
                            assert(is_nan(front[i]));
                        }
                    }
                } else {
                    assert forall|i: int| 0 <= i < zs.len() implies is_nan(#[trigger] zs[i]) by {
                        if i < front.len() {
                            assert(is_nan(front[i]));
                        }
                    }
                }
            },
            Some(e) => {
                let now = extend(Some(e), z)->Some_0;
                assert forall|i: int| 0 <= i < zs.len() && !is_nan(#[trigger] zs[i]) implies value_rank(
                    now.min,
                ) <= value_rank(zs[i]) <= value_rank(now.max) by {
                    if i < front.len() {
                        assert(!is_nan(front[i]));
                    }
                }
            },
        }
    }
}

} // verus!
