//! The draw order of a projected cloud: the points' positions sorted by
//! their depth, least first, by a merge sort.
//!
//! The depth of a point is the key that the projection gives it for drawing.
//! A painter draws from the least key to the greatest, so a renderer hands in
//! keys that grow toward the viewer: what is far away is then drawn first and
//! what is near last, over it.

use vstd::prelude::*;
use crate::sample::{gt, sample_total_rank, total_rank, value_rank};

verus! {

/// Whether the point at position `a` is drawn before the one at `b`: its
/// depth has the lesser total rank, or the same and `a` is the lesser
/// position.
pub open spec fn draws_before(depth: Seq<u64>, a: int, b: int) -> bool {
    total_rank(depth[a]) < total_rank(depth[b]) || (total_rank(depth[a]) == total_rank(depth[b])
        && a < b)
}

/// Whether `order` runs strictly upward in the order of drawing.
pub open spec fn in_draw_order(depth: Seq<u64>, order: Seq<usize>) -> bool {
    forall|i: int, j: int|
        0 <= i < j < order.len() ==> draws_before(
            depth,
            #[trigger] order[i] as int,
            #[trigger] order[j] as int,
        )
}

/// Whether `order` holds exactly the positions from `lo` up to `hi`.
pub open spec fn covers(order: Seq<usize>, lo: int, hi: int) -> bool {
    &&& order.len() == hi - lo
    &&& forall|i: int| 0 <= i < order.len() ==> lo <= #[trigger] order[i] < hi
    &&& forall|k: usize| lo <= k < hi ==> #[trigger] order.contains(k)
}

/// Whether `order` lists each position below `n` exactly once.
pub open spec fn is_permutation(order: Seq<usize>, n: nat) -> bool {
    &&& covers(order, 0, n as int)
    &&& order.no_duplicates()
}

/// Decides `draws_before` on two positions.
fn comes_first(depth: &Vec<u64>, a: usize, b: usize) -> (r: bool)
    requires
        a < depth.len(),
        b < depth.len(),
    ensures
        r == draws_before(depth@, a as int, b as int),
{
    let ra: i64 = sample_total_rank(depth[a]);
    let rb: i64 = sample_total_rank(depth[b]);
    ra < rb || (ra == rb && a < b)
}

/// Merges two runs that are each in draw order into one.
fn merge(depth: &Vec<u64>, left: &Vec<usize>, right: &Vec<usize>) -> (out: Vec<usize>)
    requires
        in_draw_order(depth@, left@),
        in_draw_order(depth@, right@),
        forall|i: int| 0 <= i < left.len() ==> #[trigger] left[i] < depth.len(),
        forall|i: int| 0 <= i < right.len() ==> #[trigger] right[i] < depth.len(),
        forall|i: int, j: int|
            0 <= i < left.len() && 0 <= j < right.len() ==> #[trigger] left[i] != #[trigger] right[j],
        left.len() + right.len() <= usize::MAX,
    ensures
        in_draw_order(depth@, out@),
        out.len() == left.len() + right.len(),
        forall|i: int|
            0 <= i < out.len() ==> left@.contains(#[trigger] out[i]) || right@.contains(out[i]),
        forall|k: usize| left@.contains(k) || right@.contains(k) ==> out@.contains(k),
{
    let mut out: Vec<usize> = Vec::new();
    let mut i: usize = 0;
    let mut j: usize = 0;
    while i < left.len() || j < right.len()
        invariant
            i <= left.len(),
            j <= right.len(),
            out.len() == i + j,
            left.len() + right.len() <= usize::MAX,
            in_draw_order(depth@, left@),
            in_draw_order(depth@, right@),
            in_draw_order(depth@, out@),
            forall|a: int| 0 <= a < left.len() ==> #[trigger] left[a] < depth.len(),
            forall|b: int| 0 <= b < right.len() ==> #[trigger] right[b] < depth.len(),
            forall|a: int, b: int|
                0 <= a < left.len() && 0 <= b < right.len() ==> #[trigger] left[a]
                    != #[trigger] right[b],
            forall|c: int, a: int|
                0 <= c < out.len() && i <= a < left.len() ==> draws_before(
                    depth@,
                    #[trigger] out[c] as int,
                    #[trigger] left[a] as int,
                ),
            forall|c: int, b: int|
                0 <= c < out.len() && j <= b < right.len() ==> draws_before(
                    depth@,
                    #[trigger] out[c] as int,
                    #[trigger] right[b] as int,
                ),
            forall|c: int|
                0 <= c < out.len() ==> left@.contains(#[trigger] out[c]) || right@.contains(out[c]),
            forall|a: int| 0 <= a < i ==> out@.contains(#[trigger] left[a]),
            forall|b: int| 0 <= b < j ==> out@.contains(#[trigger] right[b]),
        decreases left.len() + right.len() - i - j,
    {
        let ghost before = out@;
        let take_left: bool = if i >= left.len() {
            false
        } else if j >= right.len() {
            true
        } else {
            comes_first(depth, left[i], right[j])
        };
        if take_left {
            let x: usize = left[i];
            out.push(x);
            proof {
                assert forall|a: int| 0 <= a < i + 1 implies out@.contains(#[trigger] left[a]) by {
                    if a < i {
                        let c = choose|c: int| 0 <= c < before.len() && before[c] == left[a];
                        assert(out[c] == left[a]);
                    } else {
                        assert(out[out.len() - 1] == left[a]);
                    }
                }
                assert forall|b: int| 0 <= b < j implies out@.contains(#[trigger] right[b]) by {
                    let c = choose|c: int| 0 <= c < before.len() && before[c] == right[b];
                    assert(out[c] == right[b]);
                }
            }
            i += 1;
        } else {
            let x: usize = right[j];
            out.push(x);
            proof {
                assert forall|a: int| 0 <= a < i implies out@.contains(#[trigger] left[a]) by {
                    let c = choose|c: int| 0 <= c < before.len() && before[c] == left[a];
                    assert(out[c] == left[a]);
                }
                assert forall|b: int| 0 <= b < j + 1 implies out@.contains(#[trigger] right[b]) by {
                    if b < j {
                        let c = choose|c: int| 0 <= c < before.len() && before[c] == right[b];
                        assert(out[c] == right[b]);
                    } else {
                        assert(out[out.len() - 1] == right[b]);
                    }
                }
            }
            j += 1;
        }
    }
    out
}

/// The positions from `lo` up to `hi` in draw order.
fn sort_range(depth: &Vec<u64>, lo: usize, hi: usize) -> (out: Vec<usize>)
    requires
        lo <= hi <= depth.len(),
    ensures
        covers(out@, lo as int, hi as int),
        in_draw_order(depth@, out@),
    decreases hi - lo,
{
    if hi - lo == 0 {
        Vec::new()
    } else if hi - lo == 1 {
        let mut out: Vec<usize> = Vec::new();
        out.push(lo);
        proof {
            assert(out[0] == lo);
        }
        out
    } else {
        let mid: usize = lo + (hi - lo) / 2;
        let left = sort_range(depth, lo, mid);
        let right = sort_range(depth, mid, hi);
        merge(depth, &left, &right)
    }
}

/// The order in which to draw points with the given depths: each position
/// once, depths never decreasing along it. Points of equal depth keep the
/// order of their positions, so the result is determined.
pub fn draw_order(depth: &Vec<u64>) -> (order: Vec<usize>)
    ensures
        is_permutation(order@, depth.len() as nat),
        in_draw_order(depth@, order@),
{
    let order = sort_range(depth, 0, depth.len());
    proof {
        lemma_draw_order_distinct(depth@, order@);
    }
    order
}

/// Positions in draw order are pairwise distinct.
pub proof fn lemma_draw_order_distinct(depth: Seq<u64>, order: Seq<usize>)
    requires
        in_draw_order(depth, order),
    ensures
        order.no_duplicates(),
{
}

/// Along a draw order depths never decrease: of two points that are not NaN,
/// the one drawn later is not the lesser number.
pub proof fn lemma_draw_order_monotone(depth: Seq<u64>, order: Seq<usize>, i: int, j: int)
    requires
        in_draw_order(depth, order),
        0 <= i <= j < order.len(),
    ensures
        total_rank(depth[order[i] as int]) <= total_rank(depth[order[j] as int]),
        value_rank(depth[order[i] as int]) <= value_rank(depth[order[j] as int]),
        !gt(depth[order[i] as int], depth[order[j] as int]),
{
}

/// The draw order of given depths is unique: two permutations that are both
/// in draw order are the same.
pub proof fn lemma_draw_order_unique(depth: Seq<u64>, a: Seq<usize>, b: Seq<usize>)
    requires
        is_permutation(a, depth.len()),
        is_permutation(b, depth.len()),
        in_draw_order(depth, a),
        in_draw_order(depth, b),
    ensures
        a == b,
{
    assert forall|x: usize| a.contains(x) <==> b.contains(x) by {}
    assert forall|k: int| 0 <= k < a.len() implies a[k] == b[k] by {
        let x = a[k];
        assert(a.contains(x));
        let kb = choose|j: int| 0 <= j < b.len() && b[j] == x;
        lemma_place_bound(depth, a, b, k, kb);
        lemma_place_bound(depth, b, a, kb, k);
    }
}

/// Where two draw orders hold the same positions, an entry stands no earlier
/// in the second than in the first: all that precede it in the first are
/// drawn before it, so they precede it in the second too.
proof fn lemma_place_bound(depth: Seq<u64>, first: Seq<usize>, second: Seq<usize>, k1: int, k2: int)
    requires
        first.len() == second.len(),
        in_draw_order(depth, first),
        in_draw_order(depth, second),
        first.no_duplicates(),
        forall|x: usize| first.contains(x) <==> second.contains(x),
        0 <= k1 < first.len(),
        0 <= k2 < second.len(),
        first[k1] == second[k2],
    ensures
        k1 <= k2,
{
    let front = first.take(k1);
    let room = second.take(k2);
    assert forall|i: int| 0 <= i < front.len() implies room.contains(#[trigger] front[i]) by {
        let x = first[i];
        assert(first.contains(x));
        let j = choose|j: int| 0 <= j < second.len() && second[j] == x;
        assert(room[j] == x);
    }
    lemma_injection_needs_room(front, room);
}

/// A sequence without duplicates whose entries all occur in another is no
/// longer than the other.
proof fn lemma_injection_needs_room(front: Seq<usize>, room: Seq<usize>)
    requires
        front.no_duplicates(),
        forall|i: int| 0 <= i < front.len() ==> room.contains(#[trigger] front[i]),
    ensures
        front.len() <= room.len(),
{
    front.unique_seq_to_set();
    vstd::seq_lib::seq_to_set_is_finite(room);
    vstd::set_lib::lemma_len_subset(front.to_set(), room.to_set());
    room.lemma_cardinality_of_set();
}

} // verus!
