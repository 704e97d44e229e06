//! A dense matrix stored in row-major order, its construction, element access
//! and element-wise arithmetic; the multiplication algorithms live in the
//! submodules.
use vstd::prelude::*;

pub mod naive;

verus! {

/// The size of a matrix.
#[derive(Debug, Clone, Copy, PartialEq, Eq, Structural)]
pub struct MatrixDimensions {
    pub width: usize,
    pub height: usize,
}

/// Index type into a matrix: `x` picks the column, `y` the row.
#[derive(Debug, Clone, Copy, PartialEq, Eq, Structural)]
pub struct MatrixIndex {
    pub x: usize,
    pub y: usize,
}

/// Why an operation on matrices failed.
#[derive(Debug, Clone, Copy, PartialEq, Eq, Structural)]
pub enum MatrixError {
    /// The operands' shapes do not fit the operation.
    DimensionMismatch,
    /// Fewer elements were supplied than the matrix has cells.
    InsufficientData,
    /// A coordinate lies outside the matrix.
    IndexOutOfRange,
}

/// Number of cells of a matrix of the given dimensions.
pub open spec fn cell_count(d: MatrixDimensions) -> int {
    d.width * d.height
}

/// The coordinate lies inside a matrix of the given dimensions.
pub open spec fn in_bounds(d: MatrixDimensions, i: MatrixIndex) -> bool {
    i.x < d.width && i.y < d.height
}

/// Position of the cell `(x, y)` in row-major storage.
pub open spec fn flat_index(d: MatrixDimensions, x: int, y: int) -> int {
    x + y * d.width
}

/// Row-major positions of in-bound coordinates lie within the storage.
pub proof fn lemma_flat_index_bounds(d: MatrixDimensions, x: int, y: int)
    requires
        0 <= x < d.width,
        0 <= y < d.height,
    ensures
        0 <= y * d.width <= flat_index(d, x, y) < cell_count(d),
        flat_index(d, x, y) + d.width - x <= cell_count(d),
{
    let w = d.width as int;
    let h = d.height as int;
    assert(0 <= y * w) by (nonlinear_arith)
        requires
            0 <= y,
            0 <= w,
    ;
    assert((y + 1) * w <= w * h) by (nonlinear_arith)
        requires
            0 <= y < h,
            0 <= w,
    ;
    assert((y + 1) * w == y * w + w) by (nonlinear_arith);
}

/// A matrix of `dimensions.width * dimensions.height` elements of type `T`,
/// stored row by row.
#[derive(Debug, Clone, PartialEq, Eq)]
pub struct Matrix<T> {
    dimensions: MatrixDimensions,
    data: Vec<T>,
}

impl<T> Matrix<T> {
    /// The dimensions of the matrix.
    pub closed spec fn dims(&self) -> MatrixDimensions {
        self.dimensions
    }

    /// The cells of the matrix, row by row.
    pub closed spec fn cells(&self) -> Seq<T> {
        self.data@
    }

    /// The storage holds exactly one element per cell, and the cells can be
    /// counted in a `usize`.
    pub open spec fn wf(&self) -> bool {
        &&& self.cells().len() == cell_count(self.dims())
        &&& cell_count(self.dims()) <= usize::MAX
    }

    /// The element at column `x` and row `y`.
    pub open spec fn at(&self, x: int, y: int) -> T {
        self.cells()[flat_index(self.dims(), x, y)]
    }

    /// The element at `index`, or `None` where it lies outside the matrix.
    pub open spec fn cell(&self, index: MatrixIndex) -> Option<T> {
        if in_bounds(self.dims(), index) {
            Some(self.at(index.x as int, index.y as int))
        } else {
            None
        }
    }

    /// Assembles a matrix from its dimensions and its row-major storage.
    pub(crate) fn from_parts(dimensions: MatrixDimensions, data: Vec<T>) -> (r: Matrix<T>)
        requires
            data@.len() == cell_count(dimensions),
            cell_count(dimensions) <= usize::MAX,
        ensures
            r.wf(),
            r.dims() == dimensions,
            r.cells() == data@,
    {
        Matrix { dimensions, data }
    }

    /// Get the dimensions of a matrix.
    pub fn dimensions(&self) -> (r: MatrixDimensions)
        ensures
            r == self.dims(),
    {
        self.dimensions
    }

    /// Get the underlying storage of the matrix, row by row.
    pub fn data(&self) -> (r: &[T])
        ensures
            r@ == self.cells(),
    {
        self.data.as_slice()
    }
}

impl<T: Clone> Matrix<T> {
    /// Construct a new matrix of given dimensions filled with copies of `value`.
    pub fn from_value(dimensions: MatrixDimensions, value: T) -> (r: Matrix<T>)
        requires
            cell_count(dimensions) <= usize::MAX,
        ensures
            r.wf(),
            r.dims() == dimensions,
            forall|k: int| 0 <= k < r.cells().len() ==> cloned(value, #[trigger] r.cells()[k]),
    {
        let size = dimensions.width * dimensions.height;
        Matrix { dimensions, data: vec![value; size] }
    }
}

impl<T: Default + Clone> Matrix<T> {
    /// Construct a new matrix of given dimensions filled with default elements.
    pub fn new(dimensions: MatrixDimensions) -> (r: Matrix<T>)
        requires
            cell_count(dimensions) <= usize::MAX,
        ensures
            r.wf(),
            r.dims() == dimensions,
            exists|d: T|
                call_ensures(T::default, (), d) && forall|k: int|
                    0 <= k < r.cells().len() ==> cloned(d, #[trigger] r.cells()[k]),
    {
        Matrix::from_value(dimensions, T::default())
    }
}

impl<T> Matrix<T> {
    /// Construct a new matrix of given dimensions from the first
    /// `width * height` elements of `items`, in row-major order; surplus
    /// elements are dropped.
    pub fn from_iterator(dimensions: MatrixDimensions, items: Vec<T>) -> (r: Result<
        Matrix<T>,
        MatrixError,
    >)
        ensures
            items@.len() < cell_count(dimensions) <==> r == Err::<Matrix<T>, MatrixError>(
                MatrixError::InsufficientData,
            ),
            items@.len() >= cell_count(dimensions) ==> r is Ok,
            r matches Ok(m) ==> m.wf() && m.dims() == dimensions && m.cells() == items@.take(
                cell_count(dimensions),
            ),
    {
        let available = items.len();
        // A cell count beyond `usize` exceeds any vector's length.
        let size = match dimensions.width.checked_mul(dimensions.height) {
            Some(size) => size,
            None => return Err(MatrixError::InsufficientData),
        };
        if available < size {
            return Err(MatrixError::InsufficientData);
        }
        let mut data = items;
        data.truncate(size);
        assert(data@ == items@.take(size as int));
        Ok(Matrix { dimensions, data })
    }

    /// Constructs a new matrix of given dimensions from successive calls to
    /// `f`, one per cell.
    pub fn from_fn<F: Fn() -> T>(dimensions: MatrixDimensions, f: F) -> (r: Matrix<T>)
        requires
            cell_count(dimensions) <= usize::MAX,
            f.requires(()),
        ensures
            r.wf(),
            r.dims() == dimensions,
            forall|k: int| 0 <= k < r.cells().len() ==> f.ensures((), #[trigger] r.cells()[k]),
    {
        let size = dimensions.width * dimensions.height;
        let mut data: Vec<T> = Vec::with_capacity(size);
        let mut k: usize = 0;
        while k < size
            invariant
                k <= size,
                data@.len() == k,
                f.requires(()),
                forall|j: int| 0 <= j < k ==> f.ensures((), #[trigger] data@[j]),
            decreases size - k,
        {
            let element = f();
            data.push(element);
            k = k + 1;
        }
        Matrix { dimensions, data }
    }

    /// Constructs a new matrix of given dimensions from a function mapping each
    /// coordinate in the matrix to a value; `g` is called once per cell, in
    /// row-major order.
    pub fn from_generator<G: Fn(MatrixIndex) -> T>(dimensions: MatrixDimensions, g: G) -> (r:
        Matrix<T>)
        requires
            cell_count(dimensions) <= usize::MAX,
            forall|i: MatrixIndex| in_bounds(dimensions, i) ==> #[trigger] g.requires((i,)),
        ensures
            r.wf(),
            r.dims() == dimensions,
            generated_by(r, g),
    {
        let width = dimensions.width;
        let height = dimensions.height;
        let mut data: Vec<T> = Vec::with_capacity(width * height);
        let mut y: usize = 0;
        while y < height
            invariant
                y <= height,
                width == dimensions.width,
                height == dimensions.height,
                cell_count(dimensions) <= usize::MAX,
                forall|i: MatrixIndex| in_bounds(dimensions, i) ==> #[trigger] g.requires((i,)),
                data@.len() == y * width,
                forall|xx: int, yy: int|
                    0 <= xx < width && 0 <= yy < y ==> g.ensures(
                        (MatrixIndex { x: xx as usize, y: yy as usize },),
                        #[trigger] data@[flat_index(dimensions, xx, yy)],
                    ),
            decreases height - y,
        {
            let mut x: usize = 0;
            while x < width
                invariant
                    x <= width,
                    y < height,
                    width == dimensions.width,
                    height == dimensions.height,
                    cell_count(dimensions) <= usize::MAX,
                    forall|i: MatrixIndex| in_bounds(dimensions, i) ==> #[trigger] g.requires((i,)),
                    data@.len() == y * width + x,
                    forall|xx: int, yy: int|
                        0 <= xx < width && 0 <= yy < y ==> g.ensures(
                            (MatrixIndex { x: xx as usize, y: yy as usize },),
                            #[trigger] data@[flat_index(dimensions, xx, yy)],
                        ),
                    forall|xx: int|
                        0 <= xx < x ==> g.ensures(
                            (MatrixIndex { x: xx as usize, y },),
                            #[trigger] data@[flat_index(dimensions, xx, y as int)],
                        ),
                decreases width - x,
            {
                let index = MatrixIndex { x, y };
                assert(in_bounds(dimensions, index));
                let element = g(index);
                proof {
                    assert forall|xx: int, yy: int| 0 <= xx < width && 0 <= yy < y implies
                        flat_index(dimensions, xx, yy) < y * width by {
                        lemma_flat_index_bounds(MatrixDimensions { width, height: y }, xx, yy);
                        assert(width * y == y * width) by (nonlinear_arith);
                    }
                }
                data.push(element);
                x = x + 1;
            }
            assert((y + 1) * width == y * width + width) by (nonlinear_arith);
            y = y + 1;
        }
        assert(height * width == width * height) by (nonlinear_arith);
        Matrix { dimensions, data }
    }
}

/// Every cell of `m` holds a value that `g` returns for the cell's coordinate.
pub open spec fn generated_by<T, G: Fn(MatrixIndex) -> T>(m: Matrix<T>, g: G) -> bool {
    forall|i: MatrixIndex|
        in_bounds(m.dims(), i) ==> g.ensures((i,), #[trigger] m.at(i.x as int, i.y as int))
}

impl<T> Matrix<T> {
    /// The element at `index`; fails with `IndexOutOfRange` outside the matrix.
    pub fn get(&self, index: MatrixIndex) -> (r: Result<&T, MatrixError>)
        requires
            self.wf(),
        ensures
            match self.cell(index) {
                Some(v) => r == Ok::<&T, MatrixError>(&v),
                None => r == Err::<&T, MatrixError>(MatrixError::IndexOutOfRange),
            },
    {
        if index.x >= self.dimensions.width || index.y >= self.dimensions.height {
            return Err(MatrixError::IndexOutOfRange);
        }
        proof {
            lemma_flat_index_bounds(self.dimensions, index.x as int, index.y as int);
        }
        Ok(&self.data[index.x + index.y * self.dimensions.width])
    }

    /// Replaces the element at `index` by `value`; fails with
    /// `IndexOutOfRange`, and changes nothing, outside the matrix.
    pub fn set(&mut self, index: MatrixIndex, value: T) -> (r: Result<(), MatrixError>)
        requires
            old(self).wf(),
        ensures
            final(self).wf(),
            final(self).dims() == old(self).dims(),
            in_bounds(old(self).dims(), index) ==> r is Ok && final(self).cells() == old(
                self,
            ).cells().update(flat_index(old(self).dims(), index.x as int, index.y as int), value),
            !in_bounds(old(self).dims(), index) ==> r == Err::<(), MatrixError>(
                MatrixError::IndexOutOfRange,
            ) && final(self).cells() == old(self).cells(),
    {
        if index.x >= self.dimensions.width || index.y >= self.dimensions.height {
            return Err(MatrixError::IndexOutOfRange);
        }
        proof {
            lemma_flat_index_bounds(self.dimensions, index.x as int, index.y as int);
        }
        let k = index.x + index.y * self.dimensions.width;
        self.data.set(k, value);
        Ok(())
    }
}

/// Every element-wise sum of `a` and `b` fits an `i64`.
pub open spec fn sums_fit(a: Matrix<i64>, b: Matrix<i64>) -> bool {
    forall|k: int|
        0 <= k < a.cells().len() ==> i64::MIN <= #[trigger] a.cells()[k] + b.cells()[k]
            <= i64::MAX
}

/// Every element-wise difference of `a` and `b` fits an `i64`.
pub open spec fn differences_fit(a: Matrix<i64>, b: Matrix<i64>) -> bool {
    forall|k: int|
        0 <= k < a.cells().len() ==> i64::MIN <= #[trigger] a.cells()[k] - b.cells()[k]
            <= i64::MAX
}

/// `c` is the element-wise sum of `a` and `b`.
pub open spec fn is_sum(a: Matrix<i64>, b: Matrix<i64>, c: Matrix<i64>) -> bool {
    &&& c.wf()
    &&& c.dims() == a.dims()
    &&& forall|k: int|
        0 <= k < c.cells().len() ==> #[trigger] c.cells()[k] == a.cells()[k] + b.cells()[k]
}

/// `c` is the element-wise difference of `a` and `b`.
pub open spec fn is_difference(a: Matrix<i64>, b: Matrix<i64>, c: Matrix<i64>) -> bool {
    &&& c.wf()
    &&& c.dims() == a.dims()
    &&& forall|k: int|
        0 <= k < c.cells().len() ==> #[trigger] c.cells()[k] == a.cells()[k] - b.cells()[k]
}

impl Matrix<i64> {
    /// The element-wise sum of two matrices of the same dimensions; fails with
    /// `DimensionMismatch` where the dimensions differ.
    pub fn add(&self, other: &Matrix<i64>) -> (r: Result<Matrix<i64>, MatrixError>)
        requires
            self.wf(),
            other.wf(),
            self.dims() == other.dims() ==> sums_fit(*self, *other),
        ensures
            self.dims() != other.dims() <==> r == Err::<Matrix<i64>, MatrixError>(
                MatrixError::DimensionMismatch,
            ),
            self.dims() == other.dims() ==> r is Ok,
            r matches Ok(c) ==> is_sum(*self, *other, c),
    {
        if self.dimensions != other.dimensions {
            return Err(MatrixError::DimensionMismatch);
        }
        let n = self.data.len();
        let mut data: Vec<i64> = Vec::with_capacity(n);
        let mut k: usize = 0;
        while k < n
            invariant
                n == self.cells().len(),
                n == other.cells().len(),
                sums_fit(*self, *other),
                k <= n,
                data@.len() == k,
                forall|j: int| 0 <= j < k ==> #[trigger] data@[j] == self.cells()[j] + other.cells()[j],
            decreases n - k,
        {
            assert(i64::MIN <= self.cells()[k as int] + other.cells()[k as int] <= i64::MAX);
            data.push(self.data[k] + other.data[k]);
            k = k + 1;
        }
        Ok(Matrix { dimensions: self.dimensions, data })
    }

    /// The element-wise difference of two matrices of the same dimensions;
    /// fails with `DimensionMismatch` where the dimensions differ.
    pub fn sub(&self, other: &Matrix<i64>) -> (r: Result<Matrix<i64>, MatrixError>)
        requires
            self.wf(),
            other.wf(),
            self.dims() == other.dims() ==> differences_fit(*self, *other),
        ensures
            self.dims() != other.dims() <==> r == Err::<Matrix<i64>, MatrixError>(
                MatrixError::DimensionMismatch,
            ),
            self.dims() == other.dims() ==> r is Ok,
            r matches Ok(c) ==> is_difference(*self, *other, c),
    {
        if self.dimensions != other.dimensions {
            return Err(MatrixError::DimensionMismatch);
        }
        let n = self.data.len();
        let mut data: Vec<i64> = Vec::with_capacity(n);
        let mut k: usize = 0;
        while k < n
            invariant
                n == self.cells().len(),
                n == other.cells().len(),
                differences_fit(*self, *other),
                k <= n,
                data@.len() == k,
                forall|j: int| 0 <= j < k ==> #[trigger] data@[j] == self.cells()[j] - other.cells()[j],
            decreases n - k,
        {
            assert(i64::MIN <= self.cells()[k as int] - other.cells()[k as int] <= i64::MAX);
            data.push(self.data[k] - other.data[k]);
            k = k + 1;
        }
        Ok(Matrix { dimensions: self.dimensions, data })
    }

    /// Adds `other` to this matrix element by element; fails with
    /// `DimensionMismatch`, and changes nothing, where the dimensions differ.
    pub fn add_assign(&mut self, other: &Matrix<i64>) -> (r: Result<(), MatrixError>)
        requires
            old(self).wf(),
            other.wf(),
            old(self).dims() == other.dims() ==> sums_fit(*old(self), *other),
        ensures
            old(self).dims() != other.dims() <==> r == Err::<(), MatrixError>(
                MatrixError::DimensionMismatch,
            ),
            r is Err ==> *final(self) == *old(self),
            old(self).dims() == other.dims() ==> r is Ok,
            r is Ok ==> is_sum(*old(self), *other, *final(self)),
    {
        if self.dimensions != other.dimensions {
            return Err(MatrixError::DimensionMismatch);
        }
        let ghost original = *self;
        let n = self.data.len();
        let mut k: usize = 0;
        while k < n
            invariant
                n == self.cells().len(),
                n == other.cells().len(),
                n == original.cells().len(),
                self.dims() == original.dims(),
                sums_fit(original, *other),
                k <= n,
                forall|j: int| 0 <= j < k ==> #[trigger] self.cells()[j] == original.cells()[j] + other.cells()[j],
                forall|j: int| k <= j < n ==> #[trigger] self.cells()[j] == original.cells()[j],
            decreases n - k,
        {
            assert(i64::MIN <= original.cells()[k as int] + other.cells()[k as int] <= i64::MAX);
            let v = self.data[k] + other.data[k];
            self.data.set(k, v);
            k = k + 1;
        }
        Ok(())
    }

    /// Subtracts `other` from this matrix element by element; fails with
    /// `DimensionMismatch`, and changes nothing, where the dimensions differ.
    pub fn sub_assign(&mut self, other: &Matrix<i64>) -> (r: Result<(), MatrixError>)
        requires
            old(self).wf(),
            other.wf(),
            old(self).dims() == other.dims() ==> differences_fit(*old(self), *other),
        ensures
            old(self).dims() != other.dims() <==> r == Err::<(), MatrixError>(
                MatrixError::DimensionMismatch,
            ),
            r is Err ==> *final(self) == *old(self),
            old(self).dims() == other.dims() ==> r is Ok,
            r is Ok ==> is_difference(*old(self), *other, *final(self)),
    {
        if self.dimensions != other.dimensions {
            return Err(MatrixError::DimensionMismatch);
        }
        let ghost original = *self;
        let n = self.data.len();
        let mut k: usize = 0;
        while k < n
            invariant
                n == self.cells().len(),
                n == other.cells().len(),
                n == original.cells().len(),
                self.dims() == original.dims(),
                differences_fit(original, *other),
                k <= n,
                forall|j: int| 0 <= j < k ==> #[trigger] self.cells()[j] == original.cells()[j] - other.cells()[j],
                forall|j: int| k <= j < n ==> #[trigger] self.cells()[j] == original.cells()[j],
            decreases n - k,
        {
            assert(i64::MIN <= original.cells()[k as int] - other.cells()[k as int] <= i64::MAX);
            let v = self.data[k] - other.data[k];
            self.data.set(k, v);
            k = k + 1;
        }
        Ok(())
    }
}

/// Reading a coordinate inside a matrix built by `from_generator` gives a value
/// that the generator returns for that very coordinate.
pub proof fn lemma_generator_round_trip<T, G: Fn(MatrixIndex) -> T>(
    m: Matrix<T>,
    g: G,
    index: MatrixIndex,
)
    requires
        generated_by(m, g),
        in_bounds(m.dims(), index),
    ensures
        m.cell(index) is Some,
        g.ensures((index,), m.cell(index)->Some_0),
{
    assert(g.ensures((index,), m.at(index.x as int, index.y as int)));
}

/// Addition of matrices is commutative: `a + b` and `b + a` hold the same cells.
pub proof fn lemma_add_commutative(
    a: Matrix<i64>,
    b: Matrix<i64>,
    a_plus_b: Matrix<i64>,
    b_plus_a: Matrix<i64>,
)
    requires
        a.wf(),
        b.wf(),
        a.dims() == b.dims(),
        is_sum(a, b, a_plus_b),
        is_sum(b, a, b_plus_a),
    ensures
        a_plus_b.dims() == b_plus_a.dims(),
        a_plus_b.cells() == b_plus_a.cells(),
{
    assert(a_plus_b.cells() =~= b_plus_a.cells());
}

/// Addition of matrices is associative: `(a + b) + c` and `a + (b + c)` hold
/// the same cells.
pub proof fn lemma_add_associative(
    a: Matrix<i64>,
    b: Matrix<i64>,
    c: Matrix<i64>,
    ab: Matrix<i64>,
    ab_c: Matrix<i64>,
    bc: Matrix<i64>,
    a_bc: Matrix<i64>,
)
    requires
        a.wf(),
        b.wf(),
        c.wf(),
        a.dims() == b.dims(),
        b.dims() == c.dims(),
        is_sum(a, b, ab),
        is_sum(ab, c, ab_c),
        is_sum(b, c, bc),
        is_sum(a, bc, a_bc),
    ensures
        ab_c.dims() == a_bc.dims(),
        ab_c.cells() == a_bc.cells(),
{
    assert(ab_c.cells() =~= a_bc.cells());
}

/// Subtraction undoes addition: `(a + b) - b` holds the cells of `a`.
pub proof fn lemma_sub_undoes_add(
    a: Matrix<i64>,
    b: Matrix<i64>,
    a_plus_b: Matrix<i64>,
    difference: Matrix<i64>,
)
    requires
        a.wf(),
        b.wf(),
        a.dims() == b.dims(),
        is_sum(a, b, a_plus_b),
        is_difference(a_plus_b, b, difference),
    ensures
        difference.dims() == a.dims(),
        difference.cells() == a.cells(),
{
    assert(difference.cells() =~= a.cells());
}

} // verus!
