//! The general laws of the library, stated over the same models its
//! contracts use and proved once and for all.
use crate::algebra::{hu_grids, max_int, vu_val};
use crate::codec::{count_fail_rows, decode_wf, decoded, div_trunc, enc, in_rng, mag};
use crate::eval::{eval_of, matrix_eval_post, ZetaResult};
use crate::value::{grid_width, is_rect, rows_cover_width, transform_free, ZetaObject, ZetaVal};
use vstd::prelude::*;

verus! {

/// Counting failure rows across the encoding of `n` saturates at `|n|`: the
/// magnitude rows all count, the sign-marker row (when present) does not.
proof fn lemma_count_enc<F>(n: int, k: int)
    requires
        0 <= k <= enc::<F>(n).grid().len(),
    ensures
        count_fail_rows(enc::<F>(n).grid(), k) == if k <= mag(n) {
            k
        } else {
            mag(n)
        },
    decreases k,
{
    if k > 0 {
        lemma_count_enc::<F>(n, k - 1);
    }
}

/// Round-trip: every representable integer decodes from its own encoding,
/// the encoding is a grid the decoder may read, and the encoding is the
/// canonical empty grid exactly for zero.
pub proof fn lemma_round_trip<F>(n: int)
    requires
        in_rng(n),
    ensures
        decoded(enc::<F>(n)) == n,
        decode_wf(enc::<F>(n)),
        enc::<F>(n).is_empty_grid() <==> n == 0,
{
    let g = enc::<F>(n).grid();
    lemma_count_enc::<F>(n, g.len() as int);
}

/// Arithmetic consistency: adding, subtracting or multiplying two decoded
/// values and re-encoding decodes back to the exact integer result whenever
/// it is representable; the truncated quotient of representable values is
/// itself representable and round-trips; and the empty-grid divisor guard
/// fires exactly on the encoding of zero.
pub proof fn lemma_arithmetic_consistency<F>(a: int, b: int)
    requires
        in_rng(a),
        in_rng(b),
    ensures
        in_rng(a + b) ==> decoded(enc::<F>(a + b)) == a + b,
        in_rng(a - b) ==> decoded(enc::<F>(a - b)) == a - b,
        in_rng(a * b) ==> decoded(enc::<F>(a * b)) == a * b,
        b != 0 ==> in_rng(div_trunc(a, b)) && decoded(enc::<F>(div_trunc(a, b))) == div_trunc(
            a,
            b,
        ),
        b != 0 ==> !enc::<F>(b).is_empty_grid(),
        enc::<F>(0).is_empty_grid(),
{
    if in_rng(a + b) {
        lemma_round_trip::<F>(a + b);
    }
    if in_rng(a - b) {
        lemma_round_trip::<F>(a - b);
    }
    if in_rng(a * b) {
        lemma_round_trip::<F>(a * b);
    }
    if b != 0 {
        vstd::arithmetic::div_mod::lemma_div_pos_is_pos(mag(a), mag(b));
        vstd::arithmetic::div_mod::lemma_div_nonincreasing(mag(a), mag(b));
        lemma_round_trip::<F>(div_trunc(a, b));
        lemma_round_trip::<F>(b);
    }
    lemma_round_trip::<F>(0);
}

/// Evaluating the canonical success grid as an operator halts at once, for
/// any operand: its width is zero, so the very first bound check fails with
/// no row-advances, no column-advances (at least the grid's own width), and
/// the canonical success value as result.
pub proof fn lemma_success_operator<F>()
    ensures
        is_rect(ZetaVal::<F>::success().grid()),
        rows_cover_width(ZetaVal::<F>::success().grid()),
        transform_free(ZetaVal::<F>::success().grid()),
        grid_width(ZetaVal::<F>::success().grid()) == 0,
        eval_of(ZetaVal::<F>::success().grid()) == (0int, 0int, ZetaVal::<F>::success()),
{
}

/// Stacking the encodings of two non-negative integers encodes their sum:
/// both encodings are columns of single failure cells, so no padding is
/// needed and the row counts simply add. (A negative operand breaks this:
/// its sign-marker row would land in the middle of the stack.)
pub proof fn lemma_vertical_union_of_encodings<F>(a: int, b: int)
    requires
        0 <= a,
        0 <= b,
    ensures
        vu_val(enc::<F>(a), enc::<F>(b)) == enc::<F>(a + b),
{
    assert(vu_val(enc::<F>(a), enc::<F>(b)).grid() =~~= enc::<F>(a + b).grid());
    assert(vu_val(enc::<F>(a), enc::<F>(b)) =~~= enc::<F>(a + b));
}

/// The shape of a column-wise union of rectangular grids: the row count is
/// the larger of the two, every row is exactly `width(a) + width(b)` cells
/// wide, and every synthetic cell that padding contributed is the failure
/// atom.
pub proof fn lemma_horizontal_union_shape<F>(ga: Seq<Seq<ZetaVal<F>>>, gb: Seq<Seq<ZetaVal<F>>>)
    requires
        is_rect(ga),
        is_rect(gb),
    ensures
        hu_grids(ga, gb).grid().len() == max_int(ga.len() as int, gb.len() as int),
        forall|i: int|
            0 <= i < max_int(ga.len() as int, gb.len() as int) ==> (#[trigger] hu_grids(
                ga,
                gb,
            ).grid()[i]).len() == grid_width(ga) + grid_width(gb),
        forall|i: int, j: int|
            ga.len() <= i < max_int(ga.len() as int, gb.len() as int) && 0 <= j < grid_width(ga)
                ==> (#[trigger] hu_grids(ga, gb).grid()[i][j]) is Fail,
        forall|i: int, j: int|
            gb.len() <= i < max_int(ga.len() as int, gb.len() as int) && grid_width(ga) <= j
                < grid_width(ga) + grid_width(gb) ==> (#[trigger] hu_grids(ga, gb).grid()[i][j])
                is Fail,
{
    let h = hu_grids(ga, gb).grid();
    let m = max_int(ga.len() as int, gb.len() as int);
    assert forall|i: int| 0 <= i < m implies (#[trigger] h[i]).len() == grid_width(ga)
        + grid_width(gb) by {
        if i < ga.len() {
            assert(ga[i].len() == grid_width(ga));
        }
        if i < gb.len() {
            assert(gb[i].len() == grid_width(gb));
        }
    }
}

/// Determinism: a transform-free operator grid pins the whole result record,
/// so two evaluations of the same operator that each started from a fresh
/// operand agree on every count and on the result value. (Re-evaluating
/// against the same already-mutated operand handle is a different initial
/// state and may differ.)
pub proof fn lemma_evaluate_deterministic<F>(op: ZetaObject<F>, r1: ZetaResult<F>, r2: ZetaResult<
    F,
>)
    requires
        op@ is Grid,
        matrix_eval_post(op@.grid(), r1),
        matrix_eval_post(op@.grid(), r2),
    ensures
        r1.failures == r2.failures,
        r1.successes == r2.successes,
        r1.result@ == r2.result@,
{
}

} // verus!
