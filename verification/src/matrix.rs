use crate::error::Error;
use crate::fat::Fat;
use crate::half::{half_limit, Halfsize};
use crate::pair::Pair;
use vstd::prelude::*;

verus! {

/// Where the entry of row `i` and column `j` stands in a run that holds the
/// rows of a matrix one after another, each of `cols` entries.
pub open spec fn offset(cols: nat, i: nat, j: nat) -> nat {
    i * cols + j
}

/// An entry inside the matrix stands inside the run.
pub proof fn lemma_offset_in_run(rows: nat, cols: nat, i: nat, j: nat)
    requires
        i < rows,
        j < cols,
    ensures
        offset(cols, i, j) < rows * cols,
{
    assert(i * cols + cols <= rows * cols) by (nonlinear_arith)
        requires
            i + 1 <= rows,
    ;
}

/// Two entries of a matrix stand at the same place of the run only if they
/// are the same entry.
pub proof fn lemma_offset_injective(cols: nat, i: nat, j: nat, k: nat, l: nat)
    requires
        j < cols,
        l < cols,
        offset(cols, i, j) == offset(cols, k, l),
    ensures
        i == k,
        j == l,
{
    if i < k {
        assert(i * cols + cols <= k * cols) by (nonlinear_arith)
            requires
                i + 1 <= k,
        ;
    } else if k < i {
        assert(k * cols + cols <= i * cols) by (nonlinear_arith)
            requires
                k + 1 <= i,
        ;
    }
}

/// Writing the entry of row `i` and column `j` leaves every other entry of
/// the matrix as it was.
pub proof fn lemma_write_keeps_others<T>(
    run: Seq<T>,
    rows: nat,
    cols: nat,
    i: nat,
    j: nat,
    k: nat,
    l: nat,
    value: T,
)
    requires
        run.len() == rows * cols,
        i < rows,
        j < cols,
        k < rows,
        l < cols,
        i != k || j != l,
    ensures
        run.update(offset(cols, i, j) as int, value)[offset(cols, k, l) as int] == run[offset(
            cols,
            k,
            l,
        ) as int],
{
    lemma_offset_in_run(rows, cols, i, j);
    lemma_offset_in_run(rows, cols, k, l);
    if offset(cols, i, j) == offset(cols, k, l) {
        lemma_offset_injective(cols, i, j, k, l);
    }
}

/// A matrix that owns its entries.
///
/// The entries stand row after row in one run, which `@` gives.
pub struct Matrix<T> {
    items: Vec<T>,
    rows: Halfsize,
    cols: Halfsize,
}

impl<T> View for Matrix<T> {
    type V = Seq<T>;

    closed spec fn view(&self) -> Seq<T> {
        self.items@
    }
}

/// A shared view of a matrix: a wide reference to its entries that carries
/// the two dimensions in its spare word.
pub struct Mat<'a, T>(Fat<&'a [T], Pair<Halfsize>>);

impl<'a, T> View for Mat<'a, T> {
    type V = Seq<T>;

    closed spec fn view(&self) -> Seq<T> {
        self.0.data()@
    }
}

/// An exclusive view of a matrix, through which entries can be replaced.
pub struct MatMut<'a, T>(Fat<&'a mut [T], Pair<Halfsize>>);

impl<'a, T> View for MatMut<'a, T> {
    type V = Seq<T>;

    closed spec fn view(&self) -> Seq<T> {
        self.0.data()@
    }
}

impl<T> Matrix<T> {
    /// Both dimensions fit in half a word, and the run holds exactly the
    /// entries of the rows.
    pub open spec fn wf(self) -> bool {
        &&& self.spec_rows() < half_limit()
        &&& self.spec_cols() < half_limit()
        &&& self@.len() == self.spec_rows() * self.spec_cols()
    }

    /// The number of rows.
    pub closed spec fn spec_rows(self) -> nat {
        self.rows@
    }

    /// The number of columns.
    pub closed spec fn spec_cols(self) -> nat {
        self.cols@
    }

    /// A matrix of `rows` rows and `cols` columns in which every entry is a
    /// default value, or `Error::Range` where a dimension does not fit in
    /// half a word. Nothing is allocated before both dimensions are known to
    /// fit.
    pub fn new(rows: usize, cols: usize) -> (r: Result<Matrix<T>, Error>) where T: Default
        ensures
            r is Ok <==> rows < half_limit() && cols < half_limit(),
            r is Ok ==> {
                let m = r->Ok_0;
                &&& m.wf()
                &&& m.spec_rows() == rows
                &&& m.spec_cols() == cols
                &&& forall|k: int| 0 <= k < m@.len() ==> call_ensures(T::default, (), #[trigger] m@[k])
            },
            r is Err ==> r->Err_0 == Error::Range,
    {
        let rows = match Halfsize::try_from(rows) {
            Ok(rows) => rows,
            Err(e) => {
                return Err(e);
            },
        };
        let cols = match Halfsize::try_from(cols) {
            Ok(cols) => cols,
            Err(e) => {
                return Err(e);
            },
        };
        let len: usize = rows * cols;
        let mut items: Vec<T> = Vec::with_capacity(len);
        while items.len() < len
            invariant
                items@.len() <= len,
                forall|k: int| 0 <= k < items@.len() ==> call_ensures(T::default, (), #[trigger] items@[k]),
            decreases len - items@.len(),
        {
            items.push(T::default());
        }
        Ok(Matrix { items, rows, cols })
    }

    /// The number of rows.
    pub fn rows(&self) -> (rows: usize)
        ensures
            rows == self.spec_rows(),
    {
        usize::from(self.rows)
    }

    /// The number of columns.
    pub fn cols(&self) -> (cols: usize)
        ensures
            cols == self.spec_cols(),
    {
        usize::from(self.cols)
    }

    /// Lends the matrix as a shared view of the same entries and
    /// dimensions.
    pub fn as_mat(&self) -> (mat: Mat<'_, T>)
        requires
            self.wf(),
        ensures
            mat.wf(),
            mat@ == self@,
            mat.spec_rows() == self.spec_rows(),
            mat.spec_cols() == self.spec_cols(),
    {
        Mat(Fat::from_slice(self.items.as_slice(), Pair(self.rows, self.cols)))
    }

    /// Lends the matrix as an exclusive view of the same entries and
    /// dimensions. When the view is gone, the matrix holds what the view
    /// held last, and its dimensions are what they were.
    pub fn as_mat_mut(&mut self) -> (mat: MatMut<'_, T>)
        requires
            old(self).wf(),
        ensures
            mat.wf(),
            mat@ == old(self)@,
            mat.spec_rows() == old(self).spec_rows(),
            mat.spec_cols() == old(self).spec_cols(),
            final(self)@ == final(mat.cells())@,
            final(self).spec_rows() == old(self).spec_rows(),
            final(self).spec_cols() == old(self).spec_cols(),
    {
        let meta = Pair(self.rows, self.cols);
        MatMut(Fat::from_slice_mut(self.items.as_mut_slice(), meta))
    }

    /// The entry of row `ij[0]` and column `ij[1]`, or `Error::Bounds` where
    /// the matrix has no such entry.
    pub fn index(&self, ij: [usize; 2]) -> (r: Result<&T, Error>)
        requires
            self.wf(),
        ensures
            r is Ok <==> ij[0] < self.spec_rows() && ij[1] < self.spec_cols(),
            r is Ok ==> *r->Ok_0 == self@[offset(self.spec_cols(), ij[0] as nat, ij[1] as nat) as int],
            r is Err ==> r->Err_0 == Error::Bounds,
    {
        self.as_mat().index(ij)
    }

    /// The entry of row `ij[0]` and column `ij[1]` as a place to write to,
    /// or `Error::Bounds` where the matrix has no such entry. Only that one
    /// entry can change.
    pub fn index_mut(&mut self, ij: [usize; 2]) -> (r: Result<&mut T, Error>)
        requires
            old(self).wf(),
        ensures
            final(self).wf(),
            r is Ok <==> ij[0] < old(self).spec_rows() && ij[1] < old(self).spec_cols(),
            r is Ok ==> {
                let at = offset(old(self).spec_cols(), ij[0] as nat, ij[1] as nat) as int;
                &&& *r->Ok_0 == old(self)@[at]
                &&& final(self)@ == old(self)@.update(at, *final(r->Ok_0))
            },
            r is Err ==> r->Err_0 == Error::Bounds && final(self)@ == old(self)@,
            final(self).spec_rows() == old(self).spec_rows(),
            final(self).spec_cols() == old(self).spec_cols(),
    {
        proof {
            Halfsize::lemma_product_fits(self.rows, self.cols);
        }
        match locate(Pair(usize::from(self.rows), usize::from(self.cols)), ij) {
            Ok(at) => Ok(&mut self.items[at]),
            Err(e) => Err(e),
        }
    }
}

impl<'a, T> Mat<'a, T> {
    /// The run under the view holds exactly the entries of its rows. Every
    /// view that a well-formed matrix lends is well formed.
    pub open spec fn wf(self) -> bool {
        self@.len() == self.spec_rows() * self.spec_cols()
    }

    /// The number of rows.
    pub closed spec fn spec_rows(self) -> nat {
        self.0.spec_meta().0@
    }

    /// The number of columns.
    pub closed spec fn spec_cols(self) -> nat {
        self.0.spec_meta().1@
    }

    /// The number of rows.
    pub fn rows(&self) -> (rows: usize)
        ensures
            rows == self.spec_rows(),
    {
        let Pair(rows, _) = self.0.meta();
        usize::from(rows)
    }

    /// The number of columns.
    pub fn cols(&self) -> (cols: usize)
        ensures
            cols == self.spec_cols(),
    {
        let Pair(_, cols) = self.0.meta();
        usize::from(cols)
    }

    fn dim(&self) -> (dim: Pair<usize>)
        ensures
            dim.0 == self.spec_rows(),
            dim.1 == self.spec_cols(),
            dim.0 * dim.1 <= usize::MAX,
    {
        let Pair(rows, cols) = self.0.meta();
        proof {
            use_type_invariant(&rows);
            use_type_invariant(&cols);
            Halfsize::lemma_product_fits(rows, cols);
        }
        Pair(usize::from(rows), usize::from(cols))
    }

    /// The entry of row `ij[0]` and column `ij[1]`, or `Error::Bounds` where
    /// the matrix has no such entry.
    pub fn index(&self, ij: [usize; 2]) -> (r: Result<&'a T, Error>)
        requires
            self.wf(),
        ensures
            r is Ok <==> ij[0] < self.spec_rows() && ij[1] < self.spec_cols(),
            r is Ok ==> *r->Ok_0 == self@[offset(self.spec_cols(), ij[0] as nat, ij[1] as nat) as int],
            r is Err ==> r->Err_0 == Error::Bounds,
    {
        match locate(self.dim(), ij) {
            Ok(at) => {
                let run: &'a [T] = self.0.ptr();
                Ok(&run[at])
            },
            Err(e) => Err(e),
        }
    }

    /// A matrix of its own with the same dimensions, each entry a clone of
    /// the entry at the same place of the view.
    pub fn to_owned_matrix(&self) -> (m: Matrix<T>) where T: Clone
        requires
            self.wf(),
        ensures
            m.wf(),
            m.spec_rows() == self.spec_rows(),
            m.spec_cols() == self.spec_cols(),
            m@.len() == self@.len(),
            forall|k: int| 0 <= k < self@.len() ==> cloned(#[trigger] self@[k], m@[k]),
    {
        let run: &'a [T] = self.0.ptr();
        let Pair(rows, cols) = self.0.meta();
        proof {
            use_type_invariant(&rows);
            use_type_invariant(&cols);
        }
        let mut items: Vec<T> = Vec::with_capacity(run.len());
        while items.len() < run.len()
            invariant
                items@.len() <= run@.len(),
                forall|k: int| 0 <= k < items@.len() ==> cloned(#[trigger] run@[k], items@[k]),
            decreases run@.len() - items@.len(),
        {
            items.push(run[items.len()].clone());
        }
        Matrix { items, rows, cols }
    }
}

impl<'a, T> MatMut<'a, T> {
    /// The run under the view holds exactly the entries of its rows. Every
    /// view that a well-formed matrix lends is well formed.
    pub open spec fn wf(self) -> bool {
        self@.len() == self.spec_rows() * self.spec_cols()
    }

    /// The number of rows.
    pub closed spec fn spec_rows(self) -> nat {
        self.0.spec_meta().0@
    }

    /// The number of columns.
    pub closed spec fn spec_cols(self) -> nat {
        self.0.spec_meta().1@
    }

    /// The exclusive borrow that the view writes through. Its final value
    /// is what the lender sees when the view is gone.
    pub closed spec fn cells(self) -> &'a mut [T] {
        self.0.data()
    }

    /// Once nothing more is written through the view, the entries that it
    /// shows are the final ones.
    pub proof fn lemma_resolved(self)
        requires
            has_resolved(self),
        ensures
            final(self.cells())@ == self@,
    {
        self.0.lemma_resolved();
    }

    /// The number of rows.
    pub fn rows(&self) -> (rows: usize)
        ensures
            rows == self.spec_rows(),
    {
        let Pair(rows, _) = self.0.meta();
        usize::from(rows)
    }

    /// The number of columns.
    pub fn cols(&self) -> (cols: usize)
        ensures
            cols == self.spec_cols(),
    {
        let Pair(_, cols) = self.0.meta();
        usize::from(cols)
    }

    fn dim(&self) -> (dim: Pair<usize>)
        ensures
            dim.0 == self.spec_rows(),
            dim.1 == self.spec_cols(),
            dim.0 * dim.1 <= usize::MAX,
    {
        let Pair(rows, cols) = self.0.meta();
        proof {
            use_type_invariant(&rows);
            use_type_invariant(&cols);
            Halfsize::lemma_product_fits(rows, cols);
        }
        Pair(usize::from(rows), usize::from(cols))
    }

    /// Lends the view on as a shared view of the same entries and
    /// dimensions.
    pub fn as_mat(&self) -> (mat: Mat<'_, T>)
        requires
            self.wf(),
        ensures
            mat.wf(),
            mat@ == self@,
            mat.spec_rows() == self.spec_rows(),
            mat.spec_cols() == self.spec_cols(),
    {
        Mat(Fat::from_slice(self.0.ptr(), self.0.meta()))
    }

    /// The entry of row `ij[0]` and column `ij[1]` as a place to write to,
    /// or `Error::Bounds` where the matrix has no such entry. Only that one
    /// entry can change.
    pub fn index_mut(&mut self, ij: [usize; 2]) -> (r: Result<&mut T, Error>)
        requires
            old(self).wf(),
        ensures
            final(self).wf(),
            r is Ok <==> ij[0] < old(self).spec_rows() && ij[1] < old(self).spec_cols(),
            r is Ok ==> {
                let at = offset(old(self).spec_cols(), ij[0] as nat, ij[1] as nat) as int;
                &&& *r->Ok_0 == old(self)@[at]
                &&& final(self)@ == old(self)@.update(at, *final(r->Ok_0))
            },
            r is Err ==> r->Err_0 == Error::Bounds && final(self)@ == old(self)@,
            final(self).spec_rows() == old(self).spec_rows(),
            final(self).spec_cols() == old(self).spec_cols(),
            final(final(self).cells())@ == final(old(self).cells())@,
    {
        match locate(self.dim(), ij) {
            Ok(at) => {
                let run = self.0.mut_ptr();
                Ok(&mut run[at])
            },
            Err(e) => Err(e),
        }
    }
}

/// Holds an index against the dimensions and finds its place in the run.
fn locate(dim: Pair<usize>, ij: [usize; 2]) -> (r: Result<usize, Error>)
    requires
        dim.0 * dim.1 <= usize::MAX,
    ensures
        r is Ok <==> ij[0] < dim.0 && ij[1] < dim.1,
        r is Ok ==> r->Ok_0 == offset(dim.1 as nat, ij[0] as nat, ij[1] as nat),
        r is Ok ==> r->Ok_0 < dim.0 * dim.1,
        r is Err ==> r->Err_0 == Error::Bounds,
{
    let i: usize = ij[0];
    let j: usize = ij[1];
    let Pair(rows, cols) = dim;
    if i < rows && j < cols {
        proof {
            lemma_offset_in_run(rows as nat, cols as nat, i as nat, j as nat);
        }
        Ok(i * cols + j)
    } else {
        Err(Error::Bounds)
    }
}

} // verus!
