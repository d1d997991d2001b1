//! The two concatenation operators that combine grids into larger composite
//! programs, padding with failure cells where shapes do not line up.
use crate::value::{
    grid_width, is_rect, lemma_matrix_view, Transform, ZetaObject, ZetaVal,
};
use vstd::prelude::*;

verus! {

/// A non-grid operand enters the grid algebra as a grid of one row holding
/// one cell.
pub open spec fn gridify<F>(v: ZetaVal<F>) -> Seq<Seq<ZetaVal<F>>> {
    if v is Grid {
        v.grid()
    } else {
        seq![seq![v]]
    }
}

/// The larger of two integers.
pub open spec fn max_int(a: int, b: int) -> int {
    if a < b {
        b
    } else {
        a
    }
}

/// `r` extended with trailing failure cells up to width `w` (unchanged when
/// already that wide).
pub open spec fn pad_row<F>(r: Seq<ZetaVal<F>>, w: int) -> Seq<ZetaVal<F>> {
    if r.len() < w {
        r + Seq::new((w - r.len()) as nat, |k: int| ZetaVal::<F>::Fail)
    } else {
        r
    }
}

/// Row-wise union: the rows of `b` stacked beneath the rows of `a`, every
/// row padded with trailing failure cells to the larger of the two row-0
/// widths. A non-grid operand is first wrapped as a 1-by-1 grid.
pub open spec fn vu_val<F>(a: ZetaVal<F>, b: ZetaVal<F>) -> ZetaVal<F> {
    let ga = gridify(a);
    let gb = gridify(b);
    let w = max_int(grid_width(ga), grid_width(gb));
    ZetaVal::Grid(
        Seq::new(
            (ga.len() + gb.len()) as nat,
            |i: int|
                if 0 <= i < ga.len() {
                    pad_row(ga[i], w)
                } else {
                    pad_row(gb[i - ga.len()], w)
                },
        ),
    )
}

/// Column-wise union of two grids: row `i` of the result is row `i` of `a`
/// (or a synthetic row of `width(a)` failure cells when `a` has no row `i`)
/// followed by row `i` of `b` (or `width(b)` failure cells).
pub open spec fn hu_grids<F>(ga: Seq<Seq<ZetaVal<F>>>, gb: Seq<Seq<ZetaVal<F>>>) -> ZetaVal<F> {
    ZetaVal::Grid(
        Seq::new(
            max_int(ga.len() as int, gb.len() as int) as nat,
            |i: int|
                (if 0 <= i < ga.len() {
                    ga[i]
                } else {
                    Seq::new(grid_width(ga) as nat, |k: int| ZetaVal::<F>::Fail)
                }) + (if 0 <= i < gb.len() {
                    gb[i]
                } else {
                    Seq::new(grid_width(gb) as nat, |k: int| ZetaVal::<F>::Fail)
                }),
        ),
    )
}

/// Wrap a single value as a 1-by-1 grid.
fn wrap_cell<F: Transform>(v: ZetaObject<F>) -> (r: ZetaObject<F>)
    ensures
        r@ == ZetaVal::Grid(seq![seq![v@]]),
{
    let mut row: Vec<Box<ZetaObject<F>>> = Vec::new();
    row.push(Box::new(v));
    let mut rows: Vec<Vec<Box<ZetaObject<F>>>> = Vec::new();
    rows.push(row);
    let r = ZetaObject::Matrix(rows);
    proof {
        lemma_matrix_view(r);
        assert(r@.grid() =~~= seq![seq![v@]]);
        assert(r@ =~~= ZetaVal::Grid(seq![seq![v@]]));
    }
    r
}

/// Append independent copies of every cell of `src` to `dst`.
#[verifier::loop_isolation(false)]
fn append_copies<F: Transform>(dst: &mut Vec<Box<ZetaObject<F>>>, src: &Vec<Box<ZetaObject<F>>>)
    ensures
        ZetaObject::row_val(*final(dst)) == ZetaObject::row_val(*old(dst)) + ZetaObject::row_val(
            *src,
        ),
{
    let mut j: usize = 0;
    while j < src.len()
        invariant
            0 <= j <= src.len(),
            dst@.len() == old(dst)@.len() + j,
            forall|l: int| 0 <= l < old(dst)@.len() ==> (*#[trigger] dst@[l])@ == (*old(dst)@[l])@,
            forall|l: int|
                old(dst)@.len() <= l < dst@.len() ==> (*#[trigger] dst@[l])@ == (*src@[l - old(
                    dst,
                )@.len()])@,
        decreases src.len() - j,
    {
        let cell: &ZetaObject<F> = &src[j];
        dst.push(Box::new(cell.deep_copy()));
        j += 1;
    }
    proof {
        assert(ZetaObject::row_val(*dst) =~= ZetaObject::row_val(*old(dst)) + ZetaObject::row_val(
            *src,
        ));
    }
}

/// Append `k` failure cells to `dst`.
#[verifier::loop_isolation(false)]
fn append_fails<F: Transform>(dst: &mut Vec<Box<ZetaObject<F>>>, k: usize)
    ensures
        ZetaObject::row_val(*final(dst)) == ZetaObject::row_val(*old(dst)) + Seq::new(
            k as nat,
            |x: int| ZetaVal::<F>::Fail,
        ),
{
    let mut j: usize = 0;
    while j < k
        invariant
            0 <= j <= k,
            dst@.len() == old(dst)@.len() + j,
            forall|l: int| 0 <= l < old(dst)@.len() ==> (*#[trigger] dst@[l])@ == (*old(dst)@[l])@,
            forall|l: int|
                old(dst)@.len() <= l < dst@.len() ==> (*#[trigger] dst@[l])@ == ZetaVal::<F>::Fail,
        decreases k - j,
    {
        dst.push(Box::new(ZetaObject::Null));
        j += 1;
    }
    proof {
        assert(ZetaObject::row_val(*dst) =~= ZetaObject::row_val(*old(dst)) + Seq::new(
            k as nat,
            |x: int| ZetaVal::<F>::Fail,
        ));
    }
}

/// Stack `A`'s rows beneath `N`'s, padding every row of the narrower grid
/// with trailing failure cells until the two row-0 widths match. A non-grid
/// operand is first wrapped as a 1-by-1 grid.
#[verifier::loop_isolation(false)]
pub fn vertical_union<F: Transform>(N: ZetaObject<F>, A: ZetaObject<F>) -> (r: ZetaObject<F>)
    requires
        N@ is Grid ==> is_rect(N@.grid()) && N@.grid().len() >= 1,
        A@ is Grid ==> is_rect(A@.grid()) && A@.grid().len() >= 1,
    ensures
        r@ == vu_val(N@, A@),
    decreases (if N@ is Grid {
        0int
    } else {
        1int
    }) + (if A@ is Grid {
        0int
    } else {
        1int
    }),
{
    if !N.is_matrix() {
        let w = wrap_cell(N);
        proof {
            assert(gridify(w@) =~~= gridify(N@));
            assert(vu_val(w@, A@) =~~= vu_val(N@, A@));
        }
        return vertical_union(w, A);
    }
    if !A.is_matrix() {
        let w = wrap_cell(A);
        proof {
            assert(gridify(w@) =~~= gridify(A@));
            assert(vu_val(N@, w@) =~~= vu_val(N@, A@));
        }
        return vertical_union(N, w);
    }
    match (N, A) {
        (ZetaObject::Matrix(mn), ZetaObject::Matrix(ma)) => {
            proof {
                assert(N == ZetaObject::Matrix(mn));
                assert(A == ZetaObject::Matrix(ma));
                lemma_matrix_view(ZetaObject::Matrix(mn));
                lemma_matrix_view(ZetaObject::Matrix(ma));
            }
            let ghost gn = N@.grid();
            let ghost ga = A@.grid();
            let wn = mn[0].len();
            let wa = ma[0].len();
            let target = if wn < wa {
                wa
            } else {
                wn
            };
            let ghost tw = max_int(grid_width(gn), grid_width(ga));
            proof {
                assert(tw == target);
            }
            let mut out: Vec<Vec<Box<ZetaObject<F>>>> = Vec::new();
            let mut i: usize = 0;
            while i < mn.len()
                invariant
                    0 <= i <= mn.len(),
                    out@.len() == i,
                    forall|k: int|
                        0 <= k < i ==> ZetaObject::row_val(#[trigger] out@[k]) == pad_row(
                            gn[k],
                            tw,
                        ),
                decreases mn.len() - i,
            {
                let mut row: Vec<Box<ZetaObject<F>>> = Vec::new();
                append_copies(&mut row, &mn[i]);
                append_fails(&mut row, target - wn);
                proof {
                    assert(ZetaObject::row_val(row) =~= pad_row(gn[i as int], tw));
                }
                out.push(row);
                i += 1;
            }
            let mut h: usize = 0;
            while h < ma.len()
                invariant
                    0 <= h <= ma.len(),
                    out@.len() == mn@.len() + h,
                    forall|k: int|
                        0 <= k < mn@.len() ==> ZetaObject::row_val(#[trigger] out@[k]) == pad_row(
                            gn[k],
                            tw,
                        ),
                    forall|k: int|
                        mn@.len() <= k < out@.len() ==> ZetaObject::row_val(#[trigger] out@[k])
                            == pad_row(ga[k - mn@.len()], tw),
                decreases ma.len() - h,
            {
                let mut row: Vec<Box<ZetaObject<F>>> = Vec::new();
                append_copies(&mut row, &ma[h]);
                append_fails(&mut row, target - wa);
                proof {
                    assert(ZetaObject::row_val(row) =~= pad_row(ga[h as int], tw));
                }
                out.push(row);
                h += 1;
            }
            let r = ZetaObject::Matrix(out);
            proof {
                lemma_matrix_view(r);
                assert(r@.grid() =~~= vu_val(N@, A@).grid());
                assert(r@ =~~= vu_val(N@, A@));
            }
            r
        },
        _ => {
            proof {
                assert(false);
            }
            ZetaObject::Null
        },
    }
}

/// Concatenate `A`'s rows onto the end of `N`'s row by row; when the row
/// counts differ, the shorter side contributes synthetic rows of failure
/// cells at its own width. When either operand is not a grid this falls
/// back to stacking the wrapped operand row-wise — deliberately not a true
/// column operation, odd as that asymmetry is; callers that want a
/// column-wise join must pass two grids.
#[verifier::loop_isolation(false)]
pub fn horizontal_union<F: Transform>(N: ZetaObject<F>, A: ZetaObject<F>) -> (r: ZetaObject<F>)
    requires
        N@ is Grid ==> is_rect(N@.grid()),
        A@ is Grid ==> is_rect(A@.grid()),
        N@ is Grid && A@ is Grid && N@.grid().len() != A@.grid().len() ==> N@.grid().len() >= 1
            && A@.grid().len() >= 1,
        N@ is Grid && !(A@ is Grid) ==> N@.grid().len() >= 1,
        !(N@ is Grid) && A@ is Grid ==> A@.grid().len() >= 1,
    ensures
        N@ is Grid && A@ is Grid ==> r@ == hu_grids(N@.grid(), A@.grid()),
        !(N@ is Grid && A@ is Grid) ==> r@ == vu_val(N@, A@),
{
    if !N.is_matrix() {
        let w = wrap_cell(N);
        proof {
            assert(gridify(w@) =~~= gridify(N@));
            assert(vu_val(w@, A@) =~~= vu_val(N@, A@));
        }
        return vertical_union(w, A);
    }
    if !A.is_matrix() {
        let w = wrap_cell(A);
        proof {
            assert(gridify(w@) =~~= gridify(A@));
            assert(vu_val(N@, w@) =~~= vu_val(N@, A@));
        }
        return vertical_union(N, w);
    }
    match (N, A) {
        (ZetaObject::Matrix(mn), ZetaObject::Matrix(ma)) => {
            proof {
                assert(N == ZetaObject::Matrix(mn));
                assert(A == ZetaObject::Matrix(ma));
                lemma_matrix_view(ZetaObject::Matrix(mn));
                lemma_matrix_view(ZetaObject::Matrix(ma));
            }
            let ghost gn = N@.grid();
            let ghost ga = A@.grid();
            let wn = if mn.len() > 0 {
                mn[0].len()
            } else {
                0
            };
            let wa = if ma.len() > 0 {
                ma[0].len()
            } else {
                0
            };
            let rows_n = mn.len();
            let rows_a = ma.len();
            let n = if rows_n < rows_a {
                rows_a
            } else {
                rows_n
            };
            let mut out: Vec<Vec<Box<ZetaObject<F>>>> = Vec::new();
            let mut i: usize = 0;
            while i < n
                invariant
                    0 <= i <= n,
                    out@.len() == i,
                    forall|k: int|
                        0 <= k < i ==> ZetaObject::row_val(#[trigger] out@[k]) == hu_grids(
                            gn,
                            ga,
                        ).grid()[k],
                decreases n - i,
            {
                let mut row: Vec<Box<ZetaObject<F>>> = Vec::new();
                if i < rows_n {
                    append_copies(&mut row, &mn[i]);
                } else {
                    append_fails(&mut row, wn);
                }
                if i < rows_a {
                    append_copies(&mut row, &ma[i]);
                } else {
                    append_fails(&mut row, wa);
                }
                proof {
                    assert(ZetaObject::row_val(row) =~= hu_grids(gn, ga).grid()[i as int]);
                }
                out.push(row);
                i += 1;
            }
            let r = ZetaObject::Matrix(out);
            proof {
                lemma_matrix_view(r);
                assert(r@.grid() =~~= hu_grids(gn, ga).grid());
                assert(r@ =~~= hu_grids(gn, ga));
            }
            r
        },
        _ => {
            proof {
                assert(false);
            }
            ZetaObject::Null
        },
    }
}

} // verus!
