//! Bidirectional mapping between signed integers and their grid encoding,
//! plus the arithmetic operators built strictly on top of codec round-trips.
//!
//! A non-negative integer `n` is a grid of `n` rows, each a single failure
//! cell; a negative `n` is the `|n|`-row encoding with one extra trailing row
//! whose single cell is the canonical success grid (the sign marker); zero is
//! the grid with no rows.
use crate::value::{lemma_matrix_view, Failure, Success, Transform, ZetaObject, ZetaVal};
use vstd::prelude::*;

verus! {

/// The magnitude of an integer.
pub open spec fn mag(n: int) -> int {
    if n < 0 {
        -n
    } else {
        n
    }
}

/// `n` is representable by the codec: a signed machine word whose negation
/// is one as well.
pub open spec fn in_rng(n: int) -> bool {
    -(isize::MAX as int) <= n <= isize::MAX as int
}

/// The grid encoding of `n`: `|n|` rows holding one failure cell each, then,
/// for negative `n`, one sign-marker row holding the canonical success grid.
pub open spec fn enc<F>(n: int) -> ZetaVal<F> {
    ZetaVal::Grid(
        Seq::new(
            (mag(n) + if n < 0 {
                1int
            } else {
                0int
            }) as nat,
            |i: int|
                if n < 0 && i == mag(n) {
                    seq![ZetaVal::<F>::success()]
                } else {
                    seq![ZetaVal::<F>::Fail]
                },
        ),
    )
}

/// How many of the first `k` rows of `g` have a failure atom as their first
/// cell.
pub open spec fn count_fail_rows<F>(g: Seq<Seq<ZetaVal<F>>>, k: int) -> int
    decreases k,
{
    if k <= 0 {
        0
    } else {
        count_fail_rows(g, k - 1) + if g[k - 1][0] is Fail {
            1int
        } else {
            0int
        }
    }
}

/// The integer a value decodes to: for a grid, the number of rows whose
/// first cell is the failure atom, negated when the first cell of the last
/// row is itself a grid; for any other value, the sentinel minimum.
pub open spec fn decoded<F>(v: ZetaVal<F>) -> int {
    if v is Grid {
        let g = v.grid();
        let c = count_fail_rows(g, g.len() as int);
        if g.len() >= 1 && g[g.len() - 1][0] is Grid {
            -c
        } else {
            c
        }
    } else {
        isize::MIN as int
    }
}

/// The decoder may read a value: every row of a grid has a first cell, and
/// the row count stays within the machine word the decoder counts in.
pub open spec fn decode_wf<F>(v: ZetaVal<F>) -> bool {
    v is Grid ==> {
        &&& forall|i: int| 0 <= i < v.grid().len() ==> (#[trigger] v.grid()[i]).len() >= 1
        &&& count_fail_rows(v.grid(), v.grid().len() as int) <= isize::MAX as int
    }
}

/// Truncated (toward-zero) integer division, the semantics of machine
/// division.
pub open spec fn div_trunc(x: int, d: int) -> int
    recommends
        d != 0,
{
    let q = mag(x) / mag(d);
    if (x < 0) == (d < 0) {
        q
    } else {
        -q
    }
}

/// Counting failure rows never exceeds the number of rows examined and never
/// shrinks as more rows are examined.
pub proof fn lemma_count_fail_rows_bounds<F>(g: Seq<Seq<ZetaVal<F>>>, a: int, b: int)
    requires
        0 <= a <= b,
    ensures
        0 <= count_fail_rows(g, a) <= a,
        count_fail_rows(g, a) <= count_fail_rows(g, b) <= count_fail_rows(g, a) + (b - a),
    decreases b,
{
    if b > 0 {
        if a == b {
            lemma_count_fail_rows_bounds(g, a - 1, b - 1);
        } else {
            lemma_count_fail_rows_bounds(g, a, b - 1);
        }
    }
}

impl<F: Transform> ZetaObject<F> {
    /// Encode `n` as a grid.
    #[verifier::loop_isolation(false)]
    pub fn from_int(n: isize) -> (r: ZetaObject<F>)
        requires
            n != isize::MIN,
        ensures
            r@ == enc::<F>(n as int),
    {
        let a: isize = if n < 0 {
            -n
        } else {
            n
        };
        let mut v: Vec<Vec<Box<ZetaObject<F>>>> = Vec::new();
        let mut i: isize = 0;
        while i < a
            invariant
                0 <= i <= a,
                v@.len() == i,
                forall|k: int| 0 <= k < i ==> (#[trigger] v@[k])@.len() == 1,
                forall|k: int| 0 <= k < i ==> (*(#[trigger] v@[k])@[0])@ == ZetaVal::<F>::Fail,
            decreases a - i,
        {
            let mut row: Vec<Box<ZetaObject<F>>> = Vec::new();
            row.push(Box::new(ZetaObject::Null));
            v.push(row);
            i += 1;
        }
        if n < 0 {
            let mut row: Vec<Box<ZetaObject<F>>> = Vec::new();
            row.push(Box::new(Success()));
            v.push(row);
        }
        let r = ZetaObject::Matrix(v);
        proof {
            lemma_matrix_view(r);
            assert(r@.grid() =~~= enc::<F>(n as int).grid());
            assert(r@ =~~= enc::<F>(n as int));
        }
        r
    }

    /// Decode a grid to the integer it encodes; any non-grid value decodes
    /// to the sentinel minimum.
    #[verifier::loop_isolation(false)]
    pub fn to_int(&self) -> (r: isize)
        requires
            decode_wf(self@),
        ensures
            r as int == decoded(self@),
    {
        match self {
            ZetaObject::Matrix(m) => {
                proof {
                    lemma_matrix_view(*self);
                }
                let ghost g = self@.grid();
                let mut count: usize = 0;
                let mut i: usize = 0;
                while i < m.len()
                    invariant
                        0 <= i <= m.len(),
                        count == count_fail_rows(g, i as int),
                        count <= i,
                    decreases m.len() - i,
                {
                    let row = &m[i];
                    proof {
                        assert(g[i as int].len() >= 1);
                    }
                    let first: &ZetaObject<F> = &row[0];
                    if first.is_null() {
                        count += 1;
                    }
                    i += 1;
                }
                proof {
                    lemma_count_fail_rows_bounds(g, m@.len() as int, m@.len() as int);
                }
                let c = count as isize;
                if m.len() >= 1 {
                    let last_row = &m[m.len() - 1];
                    proof {
                        assert(g[m@.len() - 1].len() >= 1);
                    }
                    let first: &ZetaObject<F> = &last_row[0];
                    if first.is_matrix() {
                        return -c;
                    }
                }
                c
            },
            _ => isize::MIN,
        }
    }
}

/// The sum of what the operands decode to, re-encoded.
pub fn add<F: Transform>(N: ZetaObject<F>, A: ZetaObject<F>) -> (r: ZetaObject<F>)
    requires
        decode_wf(N@),
        decode_wf(A@),
        in_rng(decoded(N@) + decoded(A@)),
    ensures
        r@ == enc::<F>(decoded(N@) + decoded(A@)),
{
    let x = N.to_int();
    let y = A.to_int();
    ZetaObject::from_int(x + y)
}

/// The difference of what the operands decode to, re-encoded.
pub fn sub<F: Transform>(N: ZetaObject<F>, A: ZetaObject<F>) -> (r: ZetaObject<F>)
    requires
        decode_wf(N@),
        decode_wf(A@),
        in_rng(decoded(N@) - decoded(A@)),
    ensures
        r@ == enc::<F>(decoded(N@) - decoded(A@)),
{
    let x = N.to_int();
    let y = A.to_int();
    ZetaObject::from_int(x - y)
}

/// The product of what the operands decode to, re-encoded.
pub fn mul<F: Transform>(N: ZetaObject<F>, A: ZetaObject<F>) -> (r: ZetaObject<F>)
    requires
        decode_wf(N@),
        decode_wf(A@),
        in_rng(decoded(N@) * decoded(A@)),
    ensures
        r@ == enc::<F>(decoded(N@) * decoded(A@)),
{
    let x = N.to_int();
    let y = A.to_int();
    ZetaObject::from_int(x * y)
}

/// Guarded division: the empty-grid divisor (every row of zero width, the
/// shape zero encodes to) yields the failure atom as data, not an error;
/// any other divisor must decode to a nonzero value, and the quotient
/// truncates toward zero.
pub fn div<F: Transform>(N: ZetaObject<F>, A: ZetaObject<F>) -> (r: ZetaObject<F>)
    requires
        decode_wf(N@),
        decode_wf(A@),
        in_rng(decoded(N@)),
        in_rng(decoded(A@)),
        !A@.is_empty_grid() ==> decoded(A@) != 0,
    ensures
        A@.is_empty_grid() ==> r@ == ZetaVal::<F>::Fail,
        !A@.is_empty_grid() ==> r@ == enc::<F>(div_trunc(decoded(N@), decoded(A@))),
{
    if A.is_empty() {
        Failure()
    } else {
        let x = N.to_int();
        let d = A.to_int();
        let xm: usize = (if x < 0 {
            -x
        } else {
            x
        }) as usize;
        let dm: usize = (if d < 0 {
            -d
        } else {
            d
        }) as usize;
        let q: usize = xm / dm;
        proof {
            vstd::arithmetic::div_mod::lemma_div_pos_is_pos(xm as int, dm as int);
            vstd::arithmetic::div_mod::lemma_div_nonincreasing(xm as int, dm as int);
        }
        let qs: isize = q as isize;
        let signed: isize = if (x < 0) != (d < 0) {
            -qs
        } else {
            qs
        };
        ZetaObject::from_int(signed)
    }
}

} // verus!
