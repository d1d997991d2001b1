//! The recursive value type: grids, the terminal failure atom, and transforms.
use vstd::prelude::*;

verus! {

/// An active cell: a unary operation from value to value, supplied by the
/// caller. It may read and mutate the operand in place; nothing is promised
/// of its result, so everything proved about evaluation holds for every
/// implementation. Implementations are plain marker-like values (`Copy`),
/// mirroring captureless native functions.
pub trait Transform: Sized + Copy {
    fn apply(&self, operand: &mut ZetaObject<Self>) -> ZetaObject<Self>;
}

/// The one value type. A `Matrix` is a two-dimensional ordered sequence of
/// rows of exclusively owned cells; `Null` is the terminal failure atom;
/// `Function` is a transform paired with a display label.
#[derive(Debug, PartialEq)]
pub enum ZetaObject<F> {
    Matrix(Vec<Vec<Box<ZetaObject<F>>>>),
    Null,
    Function(F, String),
}

/// The mathematical model of a `ZetaObject`: rows become sequences and the
/// label becomes a sequence of characters.
#[verifier::ext_equal]
pub enum ZetaVal<F> {
    Grid(Seq<Seq<ZetaVal<F>>>),
    Fail,
    Func(F, Seq<char>),
}

impl<F> ZetaObject<F> {
    /// The model of this value.
    pub open spec fn zval(self) -> ZetaVal<F>
        decreases self,
    {
        match self {
            ZetaObject::Matrix(m) => ZetaVal::Grid(Self::rows_val(m)),
            ZetaObject::Null => ZetaVal::Fail,
            ZetaObject::Function(f, s) => ZetaVal::Func(f, s@),
        }
    }

    /// The model of a vector of rows.
    pub open spec fn rows_val(m: Vec<Vec<Box<ZetaObject<F>>>>) -> Seq<Seq<ZetaVal<F>>>
        decreases m,
    {
        Self::rows_val_seq(m@)
    }

    /// The model of a sequence of rows.
    pub open spec fn rows_val_seq(s: Seq<Vec<Box<ZetaObject<F>>>>) -> Seq<Seq<ZetaVal<F>>>
        decreases s,
    {
        Seq::new(
            s.len(),
            |i: int|
                if 0 <= i < s.len() {
                    Self::row_val(s[i])
                } else {
                    Seq::empty()
                },
        )
    }

    /// The model of one row.
    pub open spec fn row_val(r: Vec<Box<ZetaObject<F>>>) -> Seq<ZetaVal<F>>
        decreases r,
    {
        Self::row_val_seq(r@)
    }

    /// The model of one row as a sequence of cells.
    pub open spec fn row_val_seq(s: Seq<Box<ZetaObject<F>>>) -> Seq<ZetaVal<F>>
        decreases s,
    {
        Seq::new(
            s.len(),
            |j: int|
                if 0 <= j < s.len() {
                    (*s[j]).zval()
                } else {
                    ZetaVal::Fail
                },
        )
    }
}

impl<F> View for ZetaObject<F> {
    type V = ZetaVal<F>;

    open spec fn view(&self) -> ZetaVal<F> {
        (*self).zval()
    }
}

/// How the model of a matrix reads off its vector of rows: lengths agree and
/// each cell's model sits at the same position.
pub proof fn lemma_matrix_view<F>(v: ZetaObject<F>)
    requires
        v is Matrix,
    ensures
        v@ is Grid,
        v@.grid().len() == v->Matrix_0@.len(),
        forall|i: int|
            0 <= i < v->Matrix_0@.len() ==> (#[trigger] v@.grid()[i]).len()
                == v->Matrix_0@[i]@.len(),
        forall|i: int, j: int|
            0 <= i < v->Matrix_0@.len() && 0 <= j < v->Matrix_0@[i]@.len() ==> #[trigger] v@.grid(
            )[i][j] == (*v->Matrix_0@[i]@[j])@,
        forall|i: int|
            0 <= i < v->Matrix_0@.len() ==> (#[trigger] v@.grid()[i]) == ZetaObject::row_val(
                v->Matrix_0@[i],
            ),
{
}

impl<F> ZetaVal<F> {
    /// The rows of a grid value.
    pub open spec fn grid(self) -> Seq<Seq<ZetaVal<F>>>
        recommends
            self is Grid,
    {
        self->Grid_0
    }

    /// The canonical truthy terminator: one row with zero cells.
    pub open spec fn success() -> ZetaVal<F> {
        ZetaVal::Grid(seq![Seq::empty()])
    }

    /// True iff the value is a grid every row of which has zero cells.
    /// A grid with zero rows satisfies this; a grid with a nonempty row,
    /// or any non-grid value, does not.
    pub open spec fn is_empty_grid(self) -> bool {
        &&& self is Grid
        &&& forall|i: int| 0 <= i < self.grid().len() ==> (#[trigger] self.grid()[i]).len() == 0
    }
}

/// The column bound of a grid: the width of row 0, or zero if there are
/// no rows.
pub open spec fn grid_width<F>(g: Seq<Seq<ZetaVal<F>>>) -> int {
    if g.len() == 0 {
        0
    } else {
        g[0].len() as int
    }
}

/// Every row has the width of row 0.
pub open spec fn is_rect<F>(g: Seq<Seq<ZetaVal<F>>>) -> bool {
    forall|i: int| 0 <= i < g.len() ==> (#[trigger] g[i]).len() == grid_width(g)
}

/// Every row reaches at least the column bound that row 0 fixes, so the
/// staircase scan never indexes past a row's end. Rectangular grids satisfy
/// this; so do grids whose later rows are wider than row 0.
pub open spec fn rows_cover_width<F>(g: Seq<Seq<ZetaVal<F>>>) -> bool {
    forall|i: int| 0 <= i < g.len() ==> (#[trigger] g[i]).len() >= grid_width(g)
}

/// No cell of the grid is a transform, so every step of evaluation is inert.
pub open spec fn transform_free<F>(g: Seq<Seq<ZetaVal<F>>>) -> bool {
    forall|i: int, j: int|
        0 <= i < g.len() && 0 <= j < g[i].len() ==> !(#[trigger] g[i][j] is Func)
}

impl<F: Transform> ZetaObject<F> {
    /// Variant test: the terminal failure atom.
    pub fn is_null(&self) -> (r: bool)
        ensures
            r == (self@ is Fail),
    {
        match self {
            ZetaObject::Null => true,
            _ => false,
        }
    }

    /// Variant test: a grid.
    pub fn is_matrix(&self) -> (r: bool)
        ensures
            r == (self@ is Grid),
    {
        match self {
            ZetaObject::Matrix(_) => true,
            _ => false,
        }
    }

    /// Variant test: a transform.
    pub fn is_function(&self) -> (r: bool)
        ensures
            r == (self@ is Func),
    {
        match self {
            ZetaObject::Function(_, _) => true,
            _ => false,
        }
    }

    /// True iff this is a grid every row of which has zero cells.
    #[verifier::loop_isolation(false)]
    pub fn is_empty(&self) -> (r: bool)
        ensures
            r == self@.is_empty_grid(),
    {
        match self {
            ZetaObject::Matrix(m) => {
                proof {
                    lemma_matrix_view(*self);
                }
                let mut i: usize = 0;
                while i < m.len()
                    invariant
                        0 <= i <= m.len(),
                        forall|k: int| 0 <= k < i ==> m@[k]@.len() == 0,
                    decreases m.len() - i,
                {
                    if m[i].len() != 0 {
                        proof {
                            assert(self@.grid()[i as int].len() != 0);
                        }
                        return false;
                    }
                    i += 1;
                }
                true
            },
            _ => false,
        }
    }

    /// A fully independent copy, equal to the original in the model.
    #[verifier::loop_isolation(false)]
    pub fn deep_copy(&self) -> (r: Self)
        ensures
            r@ == self@,
            !(*self is Matrix) ==> r == *self,
        decreases self,
    {
        match self {
            ZetaObject::Null => ZetaObject::Null,
            ZetaObject::Function(f, s) => ZetaObject::Function(*f, s.clone()),
            ZetaObject::Matrix(m) => {
                let mut rows: Vec<Vec<Box<ZetaObject<F>>>> = Vec::new();
                let mut i: usize = 0;
                while i < m.len()
                    invariant
                        0 <= i <= m.len(),
                        rows@.len() == i,
                        forall|k: int| 0 <= k < i ==> (#[trigger] rows@[k])@.len() == m@[k]@.len(),
                        forall|k: int, l: int|
                            0 <= k < i && 0 <= l < rows@[k]@.len() ==> (#[trigger] rows@[k]@[l])@
                                == (*m@[k]@[l])@,
                    decreases m.len() - i,
                {
                    let src = &m[i];
                    let mut row: Vec<Box<ZetaObject<F>>> = Vec::new();
                    let mut j: usize = 0;
                    while j < src.len()
                        invariant
                            0 <= j <= src.len(),
                            row@.len() == j,
                            forall|l: int| 0 <= l < j ==> (#[trigger] row@[l])@ == (*src@[l])@,
                        decreases src.len() - j,
                    {
                        let cell: &ZetaObject<F> = &src[j];
                        proof {
                            assert(*m == (*self)->Matrix_0);
                            assert(decreases_to!(*self => (*self)->Matrix_0));
                            assert(decreases_to!(*m => m@[i as int]));
                            assert(decreases_to!(m@[i as int] => m@[i as int]@[j as int]));
                        }
                        row.push(Box::new(cell.deep_copy()));
                        j += 1;
                    }
                    rows.push(row);
                    i += 1;
                }
                let r = ZetaObject::Matrix(rows);
                proof {
                    lemma_matrix_view(r);
                    lemma_matrix_view(*self);
                    assert(r@.grid() =~~= self@.grid());
                    assert(r@ =~~= self@);
                }
                r
            },
        }
    }

    /// Single-step application of a cell to the operand: a transform runs its
    /// native operation (the only place the operand may change); any other
    /// value is inert and acts as a literal, returned as a copy.
    pub fn evaluate_object(&self, object: &mut ZetaObject<F>) -> (r: ZetaObject<F>)
        ensures
            !(self@ is Func) ==> r@ == self@ && *final(object) == *old(object),
    {
        match self {
            ZetaObject::Function(f, _) => f.apply(object),
            _ => self.deep_copy(),
        }
    }
}

/// The canonical truthy terminator: a grid of exactly one row with zero
/// cells, distinct from a grid with zero rows.
pub fn Success<F: Transform>() -> (r: ZetaObject<F>)
    ensures
        r@ == ZetaVal::<F>::success(),
{
    let empty_row: Vec<Box<ZetaObject<F>>> = Vec::new();
    let mut rows: Vec<Vec<Box<ZetaObject<F>>>> = Vec::new();
    rows.push(empty_row);
    let r = ZetaObject::Matrix(rows);
    proof {
        lemma_matrix_view(r);
        assert(r@.grid() =~~= ZetaVal::<F>::success().grid());
        assert(r@ =~~= ZetaVal::<F>::success());
    }
    r
}

/// The bare terminal failure atom.
pub fn Failure<F: Transform>() -> (r: ZetaObject<F>)
    ensures
        r@ == ZetaVal::<F>::Fail,
{
    ZetaObject::Null
}

} // verus!
