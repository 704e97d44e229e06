//! The textbook matrix product in `O(mnp)` time, for an `m * n` matrix and an
//! `n * p` matrix: each cell of the result is a dot product of a row of the
//! first matrix with a column of the second.
use vstd::arithmetic::div_mod::lemma_fundamental_div_mod;
use vstd::arithmetic::div_mod::lemma_mod_bound;
use vstd::prelude::*;

use crate::matrix_multiplication::{
    flat_index, lemma_flat_index_bounds, Matrix, MatrixDimensions, MatrixError,
};

verus! {

/// `sum(i in 0..k) a[i, y] * b[x, i]`: the first `k` terms of the dot product
/// of row `y` of `a` with column `x` of `b`.
pub open spec fn dot(a: Matrix<i64>, b: Matrix<i64>, x: int, y: int, k: int) -> int
    decreases k,
{
    if k <= 0 {
        0
    } else {
        dot(a, b, x, y, k - 1) + a.at(k - 1, y) * b.at(x, k - 1)
    }
}

/// Every product of two factors and every partial dot product that the
/// product of `a` and `b` computes fits an `i64`.
pub open spec fn product_fits(a: Matrix<i64>, b: Matrix<i64>) -> bool {
    forall|x: int, y: int, k: int|
        0 <= x < b.dims().width && 0 <= y < a.dims().height && 0 <= k < a.dims().width ==> {
            &&& i64::MIN <= #[trigger] dot(a, b, x, y, k + 1) <= i64::MAX
            &&& i64::MIN <= a.at(k, y) * b.at(x, k) <= i64::MAX
        }
}

/// The dimensions of the product of `a` and `b`.
pub open spec fn product_dims(a: Matrix<i64>, b: Matrix<i64>) -> MatrixDimensions {
    MatrixDimensions { width: b.dims().width, height: a.dims().height }
}

/// `c` is the matrix product `a * b`.
pub open spec fn is_product(a: Matrix<i64>, b: Matrix<i64>, c: Matrix<i64>) -> bool {
    &&& c.wf()
    &&& c.dims() == product_dims(a, b)
    &&& forall|x: int, y: int|
        0 <= x < c.dims().width && 0 <= y < c.dims().height ==> #[trigger] c.at(x, y) == dot(
            a,
            b,
            x,
            y,
            a.dims().width as int,
        )
}

/// Multiplies the `m * n` matrix `m_1` by the `n * p` matrix `m_2`, giving an
/// `m * p` matrix; fails with `DimensionMismatch` where the column count of
/// `m_1` differs from the row count of `m_2`.
pub fn naive_matrix_multiply(m_1: &Matrix<i64>, m_2: &Matrix<i64>) -> (r: Result<
    Matrix<i64>,
    MatrixError,
>)
    requires
        m_1.wf(),
        m_2.wf(),
        m_1.dims().width == m_2.dims().height ==> product_fits(*m_1, *m_2) && m_1.dims().height
            * m_2.dims().width <= usize::MAX,
    ensures
        m_1.dims().width != m_2.dims().height <==> r == Err::<Matrix<i64>, MatrixError>(
            MatrixError::DimensionMismatch,
        ),
        m_1.dims().width == m_2.dims().height ==> r is Ok,
        r matches Ok(c) ==> is_product(*m_1, *m_2, c),
{
    let d_1 = m_1.dimensions();
    let d_2 = m_2.dimensions();
    if d_1.width != d_2.height {
        return Err(MatrixError::DimensionMismatch);
    }
    let a = m_1.data();
    let b = m_2.data();
    let n = d_1.width;
    let width = d_2.width;
    let height = d_1.height;
    let dimensions = MatrixDimensions { width, height };
    let mut data: Vec<i64> = Vec::with_capacity(height * width);

    let mut y: usize = 0;
    while y < height
        invariant
            y <= height,
            a@ == m_1.cells(),
            b@ == m_2.cells(),
            d_1 == m_1.dims(),
            d_2 == m_2.dims(),
            n == d_1.width,
            n == d_2.height,
            width == d_2.width,
            height == d_1.height,
            dimensions == product_dims(*m_1, *m_2),
            m_1.wf(),
            m_2.wf(),
            product_fits(*m_1, *m_2),
            data@.len() == y * width,
            forall|xx: int, yy: int|
                0 <= xx < width && 0 <= yy < y ==> #[trigger] data@[flat_index(dimensions, xx, yy)]
                    == dot(*m_1, *m_2, xx, yy, n as int),
        decreases height - y,
    {
        let mut x: usize = 0;
        while x < width
            invariant
                x <= width,
                y < height,
                a@ == m_1.cells(),
                b@ == m_2.cells(),
                d_1 == m_1.dims(),
                d_2 == m_2.dims(),
                n == d_1.width,
                n == d_2.height,
                width == d_2.width,
                height == d_1.height,
                dimensions == product_dims(*m_1, *m_2),
                m_1.wf(),
                m_2.wf(),
                product_fits(*m_1, *m_2),
                data@.len() == y * width + x,
                forall|xx: int, yy: int|
                    0 <= xx < width && 0 <= yy < y ==> #[trigger] data@[flat_index(
                        dimensions,
                        xx,
                        yy,
                    )] == dot(*m_1, *m_2, xx, yy, n as int),
                forall|xx: int|
                    0 <= xx < x ==> #[trigger] data@[flat_index(dimensions, xx, y as int)] == dot(
                        *m_1,
                        *m_2,
                        xx,
                        y as int,
                        n as int,
                    ),
            decreases width - x,
        {
            let mut sum: i64 = 0;
            let mut i: usize = 0;
            while i < n
                invariant
                    i <= n,
                    x < width,
                    y < height,
                    a@ == m_1.cells(),
                    b@ == m_2.cells(),
                    d_1 == m_1.dims(),
                    d_2 == m_2.dims(),
                    n == d_1.width,
                    n == d_2.height,
                    width == d_2.width,
                    height == d_1.height,
                    m_1.wf(),
                    m_2.wf(),
                    product_fits(*m_1, *m_2),
                    sum == dot(*m_1, *m_2, x as int, y as int, i as int),
                decreases n - i,
            {
                proof {
                    lemma_flat_index_bounds(d_1, i as int, y as int);
                    lemma_flat_index_bounds(d_2, x as int, i as int);
                    assert(i64::MIN <= dot(*m_1, *m_2, x as int, y as int, i + 1) <= i64::MAX);
                }
                let product = a[i + y * n] * b[x + i * width];
                sum = sum + product;
                i = i + 1;
            }
            proof {
                assert forall|xx: int, yy: int| 0 <= xx < width && 0 <= yy < y implies flat_index(
                    dimensions,
                    xx,
                    yy,
                ) < y * width by {
                    lemma_flat_index_bounds(MatrixDimensions { width, height: y }, xx, yy);
                    assert(width * y == y * width) by (nonlinear_arith);
                }
            }
            data.push(sum);
            x = x + 1;
        }
        assert((y + 1) * width == y * width + width) by (nonlinear_arith);
        y = y + 1;
    }
    assert(height * width == width * height) by (nonlinear_arith);
    Ok(Matrix::from_parts(dimensions, data))
}

/// `m` is the `n * n` identity matrix.
pub open spec fn is_identity(m: Matrix<i64>, n: int) -> bool {
    &&& m.wf()
    &&& m.dims().width == n
    &&& m.dims().height == n
    &&& forall|x: int, y: int|
        0 <= x < n && 0 <= y < n ==> #[trigger] m.at(x, y) == if x == y {
            1i64
        } else {
            0i64
        }
}

/// The first `k` terms of a row of `a` times a column of the identity pick
/// out the element of the row in that column, if it lies among them.
proof fn lemma_dot_identity(a: Matrix<i64>, id: Matrix<i64>, x: int, y: int, k: int)
    requires
        is_identity(id, a.dims().width as int),
        0 <= x < a.dims().width,
        0 <= k <= a.dims().width,
    ensures
        dot(a, id, x, y, k) == if x < k {
            a.at(x, y) as int
        } else {
            0
        },
    decreases k,
{
    if k > 0 {
        lemma_dot_identity(a, id, x, y, k - 1);
        assert(id.at(x, k - 1) == if x == k - 1 {
            1i64
        } else {
            0i64
        });
    }
}

/// Multiplying by the identity matrix of matching size gives back the first
/// factor: same dimensions, same cells.
pub proof fn lemma_multiply_by_identity(a: Matrix<i64>, id: Matrix<i64>, c: Matrix<i64>)
    requires
        a.wf(),
        is_identity(id, a.dims().width as int),
        is_product(a, id, c),
    ensures
        c.dims() == a.dims(),
        c.cells() == a.cells(),
{
    let d = a.dims();
    let w = d.width as int;
    let h = d.height as int;
    assert forall|k: int| 0 <= k < c.cells().len() implies #[trigger] c.cells()[k]
        == a.cells()[k] by {
        let x = k % w;
        let y = k / w;
        assert(w > 0) by (nonlinear_arith)
            requires
                0 <= k < w * h,
                h >= 0,
        ;
        lemma_fundamental_div_mod(k, w);
        lemma_mod_bound(k, w);
        assert(0 <= y < h) by (nonlinear_arith)
            requires
                k == w * y + x,
                0 <= x < w,
                0 <= k < w * h,
                w > 0,
        ;
        assert(k == flat_index(d, x, y)) by (nonlinear_arith)
            requires
                k == w * y + x,
                d.width == w,
        ;
        lemma_dot_identity(a, id, x, y, w);
        assert(c.at(x, y) == a.at(x, y));
    }
    assert(c.cells() =~= a.cells());
}

} // verus!
