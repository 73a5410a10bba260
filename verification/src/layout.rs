//! The arithmetic of the layout: which weights are drawn, and the angles
//! between which each drawn weight lies.

use vstd::prelude::*;
use vstd::arithmetic::div_mod::{lemma_div_is_ordered, lemma_div_multiples_vanish, lemma_fundamental_div_mod};
use vstd::arithmetic::mul::{lemma_mul_inequality, lemma_mul_is_commutative};

verus! {

/// How many units of angle make a radian: angles are in nanoradians.
pub const ANGLE_SCALE: u64 = 1_000_000_000;

/// One full turn, in nanoradians.
pub const FULL_TURN: u64 = 6_283_185_307;

/// The gap that leads every slice, in nanoradians: a tenth of a radian
/// divided by a full turn in radians.
pub const SPACING: u64 = 15_915_494;

/// A weight is drawn when it is at least one part in this many of the total.
pub const MIN_WEIGHT_PARTS: u64 = 100;

/// The sum of a sequence of weights.
pub open spec fn sum(ws: Seq<int>) -> int
    decreases ws.len(),
{
    if ws.len() == 0 {
        0
    } else {
        sum(ws.drop_last()) + ws.last()
    }
}

/// No weight is negative.
pub open spec fn non_negative(ws: Seq<int>) -> bool {
    forall|i: int| 0 <= i < ws.len() ==> ws[i] >= 0
}

/// Whether a weight is large enough to be drawn beside a given total:
/// its share of the total is at least one in `MIN_WEIGHT_PARTS`.
/// With a total of zero nothing is drawn.
pub open spec fn is_kept(weight: int, total: int) -> bool {
    total > 0 && weight * MIN_WEIGHT_PARTS >= total
}

/// The positions below `n` whose weight is kept beside `total`, ascending.
pub open spec fn kept_upto(ws: Seq<int>, total: int, n: int) -> Seq<int>
    decreases n,
{
    if n <= 0 {
        Seq::empty()
    } else if is_kept(ws[n - 1], total) {
        kept_upto(ws, total, n - 1).push(n - 1)
    } else {
        kept_upto(ws, total, n - 1)
    }
}

/// The positions of the weights that are drawn, ascending.
pub open spec fn kept_indices(ws: Seq<int>) -> Seq<int> {
    kept_upto(ws, sum(ws), ws.len() as int)
}

/// The weights at the given positions.
pub open spec fn pick(ws: Seq<int>, positions: Seq<int>) -> Seq<int> {
    Seq::new(positions.len(), |k: int| ws[positions[k]])
}

/// The weights that are drawn, in the order in which they stand among all.
pub open spec fn kept_weights(ws: Seq<int>) -> Seq<int> {
    pick(ws, kept_indices(ws))
}

/// The angle reached once `part` of `whole` has been drawn: that share of
/// a full turn, rounded down.
pub open spec fn share_of_turn(part: int, whole: int) -> int {
    part * FULL_TURN / whole
}

/// The angle reached after the first `k` of the drawn weights `fw`: the
/// share of their sum in the sum of `fw`.
pub open spec fn turn_after(fw: Seq<int>, k: int) -> int {
    if sum(fw) > 0 {
        share_of_turn(sum(fw.take(k)), sum(fw))
    } else {
        0
    }
}

/// Where the `k`-th drawn slice starts: the angle reached before it, plus the gap.
pub open spec fn start_angle(fw: Seq<int>, k: int) -> int {
    turn_after(fw, k) + SPACING
}

/// Where the `k`-th drawn slice ends: the angle reached after it.
pub open spec fn end_angle(fw: Seq<int>, k: int) -> int {
    turn_after(fw, k + 1)
}

/// A weight more adds itself to the sum.
pub proof fn lemma_sum_push(ws: Seq<int>, w: int)
    ensures
        sum(ws.push(w)) == sum(ws) + w,
{
    assert(ws.push(w).drop_last() =~= ws);
}

/// A prefix that is longer by one weight sums to that weight more.
pub proof fn lemma_sum_take_step(ws: Seq<int>, k: int)
    requires
        0 <= k < ws.len(),
    ensures
        sum(ws.take(k + 1)) == sum(ws.take(k)) + ws[k],
{
    assert(ws.take(k + 1).drop_last() =~= ws.take(k));
}

/// Weights of which none is negative do not sum to less than zero.
pub proof fn lemma_sum_non_negative(ws: Seq<int>)
    requires
        non_negative(ws),
    ensures
        sum(ws) >= 0,
    decreases ws.len(),
{
    if ws.len() > 0 {
        lemma_sum_non_negative(ws.drop_last());
    }
}

/// Of non-negative weights, a shorter prefix sums to no more than a longer one.
pub proof fn lemma_sum_take_ordered(ws: Seq<int>, i: int, j: int)
    requires
        non_negative(ws),
        0 <= i <= j <= ws.len(),
    ensures
        0 <= sum(ws.take(i)) <= sum(ws.take(j)),
        sum(ws.take(ws.len() as int)) == sum(ws),
    decreases j - i,
{
    assert(ws.take(ws.len() as int) =~= ws);
    lemma_sum_non_negative(ws.take(i));
    if i < j {
        lemma_sum_take_ordered(ws, i, j - 1);
        lemma_sum_take_step(ws, j - 1);
    }
}

/// The share of a full turn grows with the part, and a whole gives the full turn.
pub proof fn lemma_share_ordered(a: int, b: int, whole: int)
    requires
        0 <= a <= b <= whole,
        whole > 0,
    ensures
        0 <= share_of_turn(a, whole) <= share_of_turn(b, whole) <= FULL_TURN,
        share_of_turn(0, whole) == 0,
        share_of_turn(whole, whole) == FULL_TURN,
{
    let f = FULL_TURN as int;
    lemma_mul_inequality(a, b, f);
    lemma_mul_inequality(b, whole, f);
    lemma_mul_inequality(0, a, f);
    lemma_div_is_ordered(a * f, b * f, whole);
    lemma_div_is_ordered(b * f, whole * f, whole);
    lemma_div_is_ordered(0, a * f, whole);
    lemma_div_multiples_vanish(f, whole);
    lemma_mul_is_commutative(whole, f);
    assert(0int / whole == 0) by (nonlinear_arith)
        requires
            whole > 0,
    ;
}

/// A part that is kept beside a total no smaller than `whole` widens the
/// angle reached by at least the gap.
pub proof fn lemma_share_step(before: int, weight: int, whole: int)
    requires
        0 <= before,
        0 < whole,
        weight * MIN_WEIGHT_PARTS >= whole,
    ensures
        share_of_turn(before + weight, whole) >= share_of_turn(before, whole) + SPACING,
{
    let f = FULL_TURN as int;
    let q = before * f / whole;
    lemma_fundamental_div_mod(before * f, whole);
    // before * f == whole * q + r, with 0 <= r
    assert(whole * (q + SPACING as int) <= (before + weight) * f) by (nonlinear_arith)
        requires
            whole * q <= before * f,
            weight * 100 >= whole,
            whole > 0,
            f == 6_283_185_307,
            SPACING == 15_915_494,
    ;
    lemma_mul_is_commutative(whole, q + SPACING as int);
    lemma_div_multiples_vanish(q + SPACING as int, whole);
    lemma_div_is_ordered((q + SPACING as int) * whole, (before + weight) * f, whole);
}

/// What `kept_upto` holds: exactly the kept positions below `n`, each once, ascending.
pub proof fn lemma_kept_upto(ws: Seq<int>, total: int, n: int)
    requires
        0 <= n <= ws.len(),
    ensures
        kept_upto(ws, total, n).len() <= n,
        forall|k: int|
            0 <= k < kept_upto(ws, total, n).len() ==> 0 <= #[trigger] kept_upto(ws, total, n)[k]
                < n && is_kept(ws[kept_upto(ws, total, n)[k]], total),
        forall|j: int, k: int|
            0 <= j < k < kept_upto(ws, total, n).len() ==> #[trigger] kept_upto(ws, total, n)[j]
                < #[trigger] kept_upto(ws, total, n)[k],
        forall|i: int|
            0 <= i < n && is_kept(#[trigger] ws[i], total) ==> kept_upto(ws, total, n).contains(i),
    decreases n,
{
    if n > 0 {
        lemma_kept_upto(ws, total, n - 1);
        let prev = kept_upto(ws, total, n - 1);
        let cur = kept_upto(ws, total, n);
        assert forall|i: int| 0 <= i < n && is_kept(#[trigger] ws[i], total) implies cur.contains(
            i,
        ) by {
            if i < n - 1 {
                let k = choose|k: int| 0 <= k < prev.len() && prev[k] == i;
                assert(cur[k] == i);
            } else {
                assert(cur[cur.len() - 1] == i);
            }
        }
    }
}

/// The kept weights among the first `n` sum to no more than those `n` weights do.
pub proof fn lemma_kept_sum(ws: Seq<int>, total: int, n: int)
    requires
        non_negative(ws),
        0 <= n <= ws.len(),
    ensures
        0 <= sum(pick(ws, kept_upto(ws, total, n))) <= sum(ws.take(n)),
    decreases n,
{
    if n > 0 {
        lemma_kept_sum(ws, total, n - 1);
        lemma_sum_take_step(ws, n - 1);
        let prev = kept_upto(ws, total, n - 1);
        if is_kept(ws[n - 1], total) {
            assert(pick(ws, prev.push(n - 1)) =~= pick(ws, prev).push(ws[n - 1]));
            lemma_sum_push(pick(ws, prev), ws[n - 1]);
        }
    } else {
        assert(pick(ws, kept_upto(ws, total, n)) =~= Seq::<int>::empty());
        assert(ws.take(0) =~= Seq::<int>::empty());
    }
}

/// What holds of the weights that are drawn: none is negative, each is at
/// least one part in `MIN_WEIGHT_PARTS` of the sum of all weights, which is
/// positive and no smaller than their own sum.
pub proof fn lemma_kept_weights(ws: Seq<int>)
    requires
        non_negative(ws),
    ensures
        kept_weights(ws).len() == kept_indices(ws).len(),
        non_negative(kept_weights(ws)),
        0 <= sum(kept_weights(ws)) <= sum(ws),
        forall|k: int|
            0 <= k < kept_weights(ws).len() ==> is_kept(#[trigger] kept_weights(ws)[k], sum(ws)),
        kept_weights(ws).len() > 0 ==> sum(kept_weights(ws)) > 0,
{
    let n = ws.len() as int;
    let fw = kept_weights(ws);
    lemma_kept_upto(ws, sum(ws), n);
    lemma_kept_sum(ws, sum(ws), n);
    lemma_sum_take_ordered(ws, n, n);
    assert forall|k: int| 0 <= k < fw.len() implies is_kept(#[trigger] fw[k], sum(ws)) && fw[k]
        >= 0 by {
        assert(fw[k] == ws[kept_indices(ws)[k]]);
    }
    if fw.len() > 0 {
        lemma_sum_take_ordered(fw, 1, fw.len() as int);
        lemma_sum_take_step(fw, 0);
        assert(fw.take(0) =~= Seq::<int>::empty());
        assert(fw[0] * MIN_WEIGHT_PARTS >= sum(ws));
    }
}

/// A weight is drawn exactly when its share of the total reaches the threshold.
pub proof fn lemma_filtering(ws: Seq<int>, i: int)
    requires
        0 <= i < ws.len(),
    ensures
        kept_indices(ws).contains(i) <==> is_kept(ws[i], sum(ws)),
{
    lemma_kept_upto(ws, sum(ws), ws.len() as int);
    if kept_indices(ws).contains(i) {
        let k = choose|k: int| 0 <= k < kept_indices(ws).len() && kept_indices(ws)[k] == i;
        assert(is_kept(ws[kept_indices(ws)[k]], sum(ws)));
    }
}

/// Every drawn slice starts no later than it ends, and ends within the full turn.
pub proof fn lemma_slice_bounds(ws: Seq<int>, k: int)
    requires
        non_negative(ws),
        0 <= k < kept_weights(ws).len(),
    ensures
        SPACING <= start_angle(kept_weights(ws), k) <= end_angle(kept_weights(ws), k) <= FULL_TURN,
{
    let fw = kept_weights(ws);
    lemma_kept_weights(ws);
    lemma_sum_take_ordered(fw, k, k + 1);
    lemma_sum_take_ordered(fw, k + 1, fw.len() as int);
    lemma_sum_take_step(fw, k);
    assert(is_kept(fw[k], sum(ws)));
    lemma_share_ordered(sum(fw.take(k)), sum(fw.take(k + 1)), sum(fw));
    lemma_share_step(sum(fw.take(k)), fw[k], sum(fw));
}

/// The angle reached grows with the number of slices drawn.
pub proof fn lemma_turn_ordered(ws: Seq<int>, j: int, k: int)
    requires
        non_negative(ws),
        0 <= j <= k <= kept_weights(ws).len(),
    ensures
        0 <= turn_after(kept_weights(ws), j) <= turn_after(kept_weights(ws), k) <= FULL_TURN,
{
    let fw = kept_weights(ws);
    lemma_kept_weights(ws);
    if fw.len() > 0 {
        lemma_sum_take_ordered(fw, j, k);
        lemma_sum_take_ordered(fw, k, fw.len() as int);
        lemma_share_ordered(sum(fw.take(j)), sum(fw.take(k)), sum(fw));
    }
}

/// The slices' start angles do not decrease in drawing order.
pub proof fn lemma_starts_ordered(ws: Seq<int>, j: int, k: int)
    requires
        non_negative(ws),
        0 <= j <= k < kept_weights(ws).len(),
    ensures
        start_angle(kept_weights(ws), j) <= start_angle(kept_weights(ws), k),
{
    lemma_turn_ordered(ws, j, k);
}

/// A slice starts after every earlier slice has ended.
pub proof fn lemma_slices_apart(ws: Seq<int>, j: int, k: int)
    requires
        non_negative(ws),
        0 <= j < k < kept_weights(ws).len(),
    ensures
        end_angle(kept_weights(ws), j) < start_angle(kept_weights(ws), k),
{
    lemma_turn_ordered(ws, j + 1, k);
}

/// The widths of the first `k` slices, each taken from the angle reached
/// before it (its start without the gap) to its end, summed.
pub open spec fn widths_sum(fw: Seq<int>, k: int) -> int
    decreases k,
{
    if k <= 0 {
        0
    } else {
        widths_sum(fw, k - 1) + (end_angle(fw, k - 1) - (start_angle(fw, k - 1) - SPACING))
    }
}

/// The widths of the first `k` slices sum to the angle reached after them.
pub proof fn lemma_widths_telescope(fw: Seq<int>, k: int)
    requires
        0 <= k <= fw.len(),
    ensures
        widths_sum(fw, k) == turn_after(fw, k),
    decreases k,
{
    if k > 0 {
        lemma_widths_telescope(fw, k - 1);
    } else {
        assert(fw.take(0) =~= Seq::<int>::empty());
        if sum(fw) > 0 {
            assert(0int * FULL_TURN / sum(fw) == 0) by (nonlinear_arith)
                requires
                    sum(fw) > 0,
            ;
        }
    }
}

/// Where anything is drawn, the slices fill the circle: without their gaps
/// their widths sum to a full turn, and the last one ends at the full turn.
pub proof fn lemma_full_turn(ws: Seq<int>)
    requires
        non_negative(ws),
        kept_indices(ws).len() > 0,
    ensures
        widths_sum(kept_weights(ws), kept_weights(ws).len() as int) == FULL_TURN,
        end_angle(kept_weights(ws), kept_weights(ws).len() - 1) == FULL_TURN,
{
    let fw = kept_weights(ws);
    lemma_kept_weights(ws);
    lemma_widths_telescope(fw, fw.len() as int);
    lemma_sum_take_ordered(fw, fw.len() as int, fw.len() as int);
    lemma_share_ordered(sum(fw), sum(fw), sum(fw));
}

} // verus!
