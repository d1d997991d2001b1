//! The row/column traversal that turns a grid into a control-flow automaton:
//! each row is one candidate plan, each column one step of it. A failing
//! step drops to the next row without resetting the column — the staircase
//! cursor — and a succeeding step advances the column.
use crate::value::{
    grid_width, lemma_matrix_view, rows_cover_width, transform_free, Success, Transform,
    ZetaObject, ZetaVal,
};
use vstd::prelude::*;

verus! {

/// What one evaluation produced: the operator, the operand as it stood when
/// evaluation halted, the row cursor (count of alternation steps), the
/// column cursor (count of sequencing steps), and the last computed result.
#[derive(Debug, PartialEq)]
pub struct ZetaResult<F> {
    pub operator: ZetaObject<F>,
    pub operand: ZetaObject<F>,
    pub failures: usize,
    pub successes: usize,
    pub result: ZetaObject<F>,
}

/// The staircase scan of an inert grid from cursor `(row, col)`, where `cur`
/// is the last result so far: a failure cell advances the row, any other
/// cell advances the column, and the scan halts the instant either bound is
/// violated. The column bound is fixed by row 0's width for the whole scan.
pub open spec fn eval_from<F>(
    g: Seq<Seq<ZetaVal<F>>>,
    row: int,
    col: int,
    cur: ZetaVal<F>,
) -> (int, int, ZetaVal<F>)
    decreases g.len() - row + grid_width(g) - col,
{
    if row < g.len() && col < grid_width(g) {
        if g[row][col] is Fail {
            eval_from(g, row + 1, col, g[row][col])
        } else {
            eval_from(g, row, col + 1, g[row][col])
        }
    } else {
        (row, col, cur)
    }
}

/// The whole scan of an inert grid, from the origin, starting from the
/// canonical success value.
pub open spec fn eval_of<F>(g: Seq<Seq<ZetaVal<F>>>) -> (int, int, ZetaVal<F>) {
    eval_from(g, 0, 0, ZetaVal::success())
}

/// The result record a transform-free evaluation is pinned to.
pub open spec fn matrix_eval_post<F>(g: Seq<Seq<ZetaVal<F>>>, r: ZetaResult<F>) -> bool {
    (r.failures as int, r.successes as int, r.result@) == eval_of(g)
}

impl<F: Transform> ZetaObject<F> {
    /// Evaluate this value as an operator against an external operand. For a
    /// grid, run the staircase scan, applying each visited cell to the
    /// operand (transform cells are the only ones that may change it); the
    /// final row index counts failures, the final column index successes.
    /// Any other operator short-circuits to a degenerate record.
    #[verifier::loop_isolation(false)]
    pub fn evaluate(self, object: &mut ZetaObject<F>) -> (r: ZetaResult<F>)
        requires
            self@ is Grid ==> rows_cover_width(self@.grid()),
        ensures
            r.operator@ == self@,
            !(self@ is Grid) ==> {
                &&& r.operator == self
                &&& r.result == self
                &&& r.operand@ == ZetaVal::<F>::Fail
                &&& r.failures == 0 && r.successes == 0
                &&& *final(object) == *old(object)
            },
            self@ is Grid ==> {
                let g = self@.grid();
                let w = grid_width(g);
                &&& r.operator == self
                &&& r.operand@ == final(object)@
                &&& r.failures <= g.len() && r.successes <= w
                &&& (r.failures == g.len() || r.successes == w)
                &&& (g.len() == 0 || w == 0) ==> {
                    &&& r.failures == 0 && r.successes == 0
                    &&& r.result@ == ZetaVal::<F>::success()
                    &&& *final(object) == *old(object)
                }
                &&& (g.len() > 0 && w > 0 && r.failures == g.len()) ==> r.result@ is Fail
                &&& (g.len() > 0 && w > 0 && r.failures < g.len()) ==> (r.successes == w && !(
                r.result@ is Fail))
                &&& transform_free(g) ==> {
                    &&& matrix_eval_post(g, r)
                    &&& *final(object) == *old(object)
                }
            },
    {
        match self {
            ZetaObject::Matrix(m) => {
                proof {
                    assert(self == ZetaObject::Matrix(m));
                    lemma_matrix_view(ZetaObject::Matrix(m));
                }
                let ghost g = ZetaObject::Matrix(m)@.grid();
                let ghost w = grid_width(g);
                let mut row: usize = 0;
                let mut col: usize = 0;
                let mut result: ZetaObject<F> = Success();
                while row < m.len() && col < m[0].len()
                    invariant
                        0 <= row <= g.len(),
                        0 <= col <= w,
                        row == 0 && col == 0 ==> result@ == ZetaVal::<F>::success(),
                        g.len() == 0 || w == 0 ==> row == 0 && col == 0 && *object == *old(object),
                        g.len() > 0 && w > 0 && row == g.len() ==> result@ is Fail,
                        g.len() > 0 && w > 0 && col == w ==> !(result@ is Fail),
                        transform_free(g) ==> {
                            &&& eval_from(g, row as int, col as int, result@) == eval_of(g)
                            &&& *object == *old(object)
                        },
                    decreases g.len() - row + w - col,
                {
                    let rowv = &m[row];
                    proof {
                        assert(g[row as int].len() >= w);
                        assert(rowv@.len() == g[row as int].len());
                    }
                    let cell: &ZetaObject<F> = &rowv[col];
                    proof {
                        assert(cell@ == g[row as int][col as int]);
                    }
                    let step = cell.evaluate_object(object);
                    let failed = step.is_null();
                    result = step;
                    if failed {
                        row += 1;
                    } else {
                        col += 1;
                    }
                }
                ZetaResult {
                    operator: ZetaObject::Matrix(m),
                    operand: object.deep_copy(),
                    failures: row,
                    successes: col,
                    result,
                }
            },
            other => {
                let op = other.deep_copy();
                ZetaResult {
                    operator: op,
                    operand: ZetaObject::Null,
                    failures: 0,
                    successes: 0,
                    result: other,
                }
            },
        }
    }
}

} // verus!
