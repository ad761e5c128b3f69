use vstd::prelude::*;

use crate::error::TracerError;
use crate::fx::{fx_add, fx_div, fx_eq, fx_mul, fx_neg, fx_sub, Fx, SCALE};
use crate::vec3::{v3_cross, v3_mag, v3_normalize, v3_sub, w_of, Vec3, Vec3Type};

verus! {

/// A dense matrix of fixed-point scalars, row major.
#[derive(Clone, Debug)]
pub struct Matrix {
    pub cells: Vec<Vec<Fx>>,
    pub n_rows: usize,
    pub n_cols: usize,
}

/// The raw-value grid of a matrix.
pub open spec fn grid_of(cells: Seq<Vec<Fx>>) -> Seq<Seq<int>> {
    cells.map(|i: int, row: Vec<Fx>| row@.map(|j: int, c: Fx| c.raw as int))
}

/// The grid with row `row` and column `col` struck out.
pub open spec fn sub_grid(m: Seq<Seq<int>>, row: int, col: int) -> Seq<Seq<int>> {
    m.remove(row).map(|i: int, r: Seq<int>| r.remove(col))
}

/// Partial sums of the cofactor expansion of the first row: the first k
/// terms of sum cell[0][i] * cofactor(0, i), accumulated left to right.
pub open spec fn det_row_sum(m: Seq<Seq<int>>, k: int) -> int
    decreases m.len(), 2int, k,
    when k <= m.len()
{
    if k <= 0 {
        0
    } else {
        fx_add(det_row_sum(m, k - 1), fx_mul(m[0][k - 1], cofactor(m, 0, k - 1)))
    }
}

/// Determinant by cofactor expansion: a 2x2 base case, and for every other
/// size the expansion along the first row.
pub open spec fn det(m: Seq<Seq<int>>) -> int
    decreases m.len(), 3int, 0int,
{
    if m.len() == 2 {
        fx_sub(fx_mul(m[0][0], m[1][1]), fx_mul(m[0][1], m[1][0]))
    } else {
        det_row_sum(m, m.len() as int)
    }
}

/// Determinant of the grid with row i and column j struck out.
pub open spec fn minor(m: Seq<Seq<int>>, i: int, j: int) -> int
    decreases m.len(), 0int, 0int,
    when 0 <= i < m.len()
{
    det(sub_grid(m, i, j))
}

/// The signed minor: negative where the row and column indices have odd sum.
pub open spec fn cofactor(m: Seq<Seq<int>>, i: int, j: int) -> int
    decreases m.len(), 1int, 0int,
    when 0 <= i < m.len()
{
    if (i + j) % 2 == 1 {
        fx_neg(minor(m, i, j))
    } else {
        minor(m, i, j)
    }
}

/// Grids with fewer than two rows have a zero determinant: the expansion
/// bottoms out in the empty sum.
pub proof fn lemma_small_det_zero(m: Seq<Seq<int>>)
    requires
        m.len() <= 1,
    ensures
        det(m) == 0,
{
    if m.len() == 0 {
        assert(det(m) == det_row_sum(m, 0));
    } else {
        assert(sub_grid(m, 0, 0).len() == 0);
        assert(det(sub_grid(m, 0, 0)) == det_row_sum(sub_grid(m, 0, 0), 0));
        assert(cofactor(m, 0, 0) == 0);
        assert(m[0][0] * 0 == 0);
        assert(fx_mul(m[0][0], 0) == 0);
        assert(det_row_sum(m, 1) == fx_add(det_row_sum(m, 0), fx_mul(m[0][0], cofactor(m, 0, 0))));
    }
}

/// The rounded dot product of row i of a and column j of b over the first k
/// indices, accumulated left to right.
pub open spec fn dot_k(a: Seq<Seq<int>>, b: Seq<Seq<int>>, i: int, j: int, k: int) -> int
    decreases k,
{
    if k <= 0 {
        0
    } else {
        fx_add(dot_k(a, b, i, j, k - 1), fx_mul(a[i][k - 1], b[k - 1][j]))
    }
}

/// The matrix product grid: a is n x m, b is m x p.
pub open spec fn m_mul(a: Seq<Seq<int>>, b: Seq<Seq<int>>, n: int, m: int, p: int) -> Seq<
    Seq<int>,
> {
    Seq::new(n as nat, |i: int| Seq::new(p as nat, |j: int| dot_k(a, b, i, j, m)))
}

pub open spec fn identity_grid(n: int) -> Seq<Seq<int>> {
    Seq::new(
        n as nat,
        |i: int|
            Seq::new(
                n as nat,
                |j: int|
                    if i == j {
                        SCALE as int
                    } else {
                        0
                    },
            ),
    )
}

/// The grid with rows and columns exchanged.
pub open spec fn transpose_grid(m: Seq<Seq<int>>, rows: int, cols: int) -> Seq<Seq<int>> {
    Seq::new(cols as nat, |i: int| Seq::new(rows as nat, |j: int| m[j][i]))
}

/// The inverse grid: the transposed cofactor grid, each entry divided by
/// the determinant.
pub open spec fn inv_grid(m: Seq<Seq<int>>) -> Seq<Seq<int>> {
    Seq::new(
        m.len(),
        |r: int| Seq::new(m.len(), |c: int| fx_div(cofactor(m, c, r), det(m))),
    )
}

/// A 4x4 grid from its sixteen entries, row major.
pub open spec fn grid4(
    m00: int,
    m01: int,
    m02: int,
    m03: int,
    m10: int,
    m11: int,
    m12: int,
    m13: int,
    m20: int,
    m21: int,
    m22: int,
    m23: int,
    m30: int,
    m31: int,
    m32: int,
    m33: int,
) -> Seq<Seq<int>> {
    seq![
        seq![m00, m01, m02, m03],
        seq![m10, m11, m12, m13],
        seq![m20, m21, m22, m23],
        seq![m30, m31, m32, m33],
    ]
}

/// Two 4x4 grids with equal entries are equal.
pub proof fn lemma_grid4_eq(a: Seq<Seq<int>>, b: Seq<Seq<int>>)
    requires
        a.len() == 4,
        b.len() == 4,
        forall|i: int| 0 <= i < 4 ==> (#[trigger] a[i]).len() == 4,
        forall|i: int| 0 <= i < 4 ==> (#[trigger] b[i]).len() == 4,
        forall|i: int, j: int| 0 <= i < 4 && 0 <= j < 4 ==> #[trigger] a[i][j] == b[i][j],
    ensures
        a == b,
{
    assert forall|i: int| 0 <= i < 4 implies a[i] =~= b[i] by {}
    assert(a =~= b);
}

pub open spec fn translation_grid(x: int, y: int, z: int) -> Seq<Seq<int>> {
    seq![
        seq![SCALE as int, 0, 0, x],
        seq![0, SCALE as int, 0, y],
        seq![0, 0, SCALE as int, z],
        seq![0, 0, 0, SCALE as int],
    ]
}

pub open spec fn scaling_grid(x: int, y: int, z: int) -> Seq<Seq<int>> {
    seq![
        seq![x, 0, 0, 0],
        seq![0, y, 0, 0],
        seq![0, 0, z, 0],
        seq![0, 0, 0, SCALE as int],
    ]
}

/// Rotation about the x axis, given the sine and cosine of the angle.
pub open spec fn rotation_x_grid(s: int, c: int) -> Seq<Seq<int>> {
    seq![
        seq![SCALE as int, 0, 0, 0],
        seq![0, c, fx_neg(s), 0],
        seq![0, s, c, 0],
        seq![0, 0, 0, SCALE as int],
    ]
}

/// Rotation about the y axis, given the sine and cosine of the angle.
pub open spec fn rotation_y_grid(s: int, c: int) -> Seq<Seq<int>> {
    seq![
        seq![c, 0, s, 0],
        seq![0, SCALE as int, 0, 0],
        seq![fx_neg(s), 0, c, 0],
        seq![0, 0, 0, SCALE as int],
    ]
}

/// Rotation about the z axis, given the sine and cosine of the angle.
pub open spec fn rotation_z_grid(s: int, c: int) -> Seq<Seq<int>> {
    seq![
        seq![c, fx_neg(s), 0, 0],
        seq![s, c, 0, 0],
        seq![0, 0, SCALE as int, 0],
        seq![0, 0, 0, SCALE as int],
    ]
}

pub open spec fn shearing_grid(xy: int, xz: int, yx: int, yz: int, zx: int, zy: int) -> Seq<
    Seq<int>,
> {
    seq![
        seq![SCALE as int, xy, xz, 0],
        seq![yx, SCALE as int, yz, 0],
        seq![zx, zy, SCALE as int, 0],
        seq![0, 0, 0, SCALE as int],
    ]
}

/// Forward direction of a look-at transform: from minus to, normalized.
pub open spec fn vt_forward(from: Vec3, to: Vec3) -> Vec3 {
    v3_normalize(v3_sub(from, to))
}

pub open spec fn vt_right(from: Vec3, to: Vec3, up: Vec3) -> Vec3 {
    v3_normalize(v3_cross(up, vt_forward(from, to)))
}

pub open spec fn vt_true_up(from: Vec3, to: Vec3, up: Vec3) -> Vec3 {
    v3_cross(vt_forward(from, to), vt_right(from, to, up))
}

/// The look-at parameters admit a basis: neither normalization divides by a
/// zero length.
pub open spec fn vt_ok(from: Vec3, to: Vec3, up: Vec3) -> bool {
    &&& v3_mag(v3_sub(from, to)) != 0
    &&& v3_mag(v3_cross(up, vt_forward(from, to))) != 0
}

/// The orientation part of a look-at transform: the camera basis as rows.
pub open spec fn orientation_grid(right: Vec3, true_up: Vec3, forward: Vec3) -> Seq<Seq<int>> {
    seq![
        seq![right.x.raw as int, right.y.raw as int, right.z.raw as int, 0],
        seq![true_up.x.raw as int, true_up.y.raw as int, true_up.z.raw as int, 0],
        seq![forward.x.raw as int, forward.y.raw as int, forward.z.raw as int, 0],
        seq![0, 0, 0, SCALE as int],
    ]
}

/// The full look-at grid: orientation composed with translation by -from.
pub open spec fn view_grid(from: Vec3, to: Vec3, up: Vec3) -> Seq<Seq<int>> {
    m_mul(
        orientation_grid(
            vt_right(from, to, up),
            vt_true_up(from, to, up),
            vt_forward(from, to),
        ),
        translation_grid(
            fx_neg(from.x.raw as int),
            fx_neg(from.y.raw as int),
            fx_neg(from.z.raw as int),
        ),
        4,
        4,
        4,
    )
}

/// Application of a 4x4 grid to a tuple in homogeneous coordinates; the
/// resulting w decides the kind as Vec3::new does.
pub open spec fn xform_component(m: Seq<Seq<int>>, i: int, v: Vec3) -> int {
    fx_add(
        fx_add(
            fx_add(
                fx_add(0, fx_mul(m[i][0], v.x.raw as int)),
                fx_mul(m[i][1], v.y.raw as int),
            ),
            fx_mul(m[i][2], v.z.raw as int),
        ),
        fx_mul(m[i][3], w_of(v.t)),
    )
}

pub open spec fn xform(m: Seq<Seq<int>>, v: Vec3) -> Vec3 {
    Vec3 {
        x: Fx { raw: xform_component(m, 0, v) as i64 },
        y: Fx { raw: xform_component(m, 1, v) as i64 },
        z: Fx { raw: xform_component(m, 2, v) as i64 },
        t: if fx_eq(xform_component(m, 3, v), 0) {
            Vec3Type::Vector
        } else {
            Vec3Type::Point
        },
    }
}

impl Matrix {
    /// Rectangular, with the stored dimensions matching the grid.
    pub open spec fn wf(self) -> bool {
        &&& self.cells@.len() == self.n_rows
        &&& forall|i: int| 0 <= i < self.n_rows ==> (#[trigger] self.cells@[i])@.len()
            == self.n_cols
    }

    pub open spec fn grid(self) -> Seq<Seq<int>> {
        grid_of(self.cells@)
    }

    /// The raw value of the cell at row i, column j.
    pub open spec fn at(self, i: int, j: int) -> int {
        self.cells@[i]@[j].raw as int
    }

    pub open spec fn is_square(self) -> bool {
        self.n_rows == self.n_cols
    }

    pub proof fn lemma_grid(self)
        requires
            self.wf(),
        ensures
            self.grid().len() == self.n_rows,
            forall|i: int|
                0 <= i < self.n_rows ==> (#[trigger] self.grid()[i]).len() == self.n_cols,
            forall|i: int, j: int|
                0 <= i < self.n_rows && 0 <= j < self.n_cols ==> #[trigger] self.grid()[i][j]
                    == self.at(i, j),
    {
    }

    /// Wraps a rectangular, non-empty grid of scalars; anything else is
    /// rejected.
    pub fn new(matrix: Vec<Vec<Fx>>) -> (r: Result<Matrix, TracerError>)
        ensures
            match r {
                Ok(m) => {
                    &&& matrix@.len() >= 1
                    &&& m.cells@ == matrix@
                    &&& m.n_rows == matrix@.len()
                    &&& m.n_cols == matrix@[0]@.len()
                    &&& m.wf()
                },
                Err(e) => {
                    &&& e == TracerError::InvalidArgument
                    &&& (matrix@.len() == 0 || exists|i: int|
                        0 <= i < matrix@.len() && (#[trigger] matrix@[i])@.len()
                            != matrix@[0]@.len())
                },
            },
    {
        if matrix.len() == 0 {
            return Err(TracerError::InvalidArgument);
        }
        let n: usize = matrix[0].len();
        let m: usize = matrix.len();
        let mut i: usize = 1;
        while i < m
            invariant
                1 <= i <= m,
                m == matrix@.len(),
                n == matrix@[0]@.len(),
                forall|k: int| 0 <= k < i ==> (#[trigger] matrix@[k])@.len() == n,
            decreases m - i,
        {
            if matrix[i].len() != n {
                return Err(TracerError::InvalidArgument);
            }
            i = i + 1;
        }
        Ok(Matrix { cells: matrix, n_rows: m, n_cols: n })
    }

    /// A 1 x n matrix holding the given values as its only row.
    pub fn row_matrix(vector: Vec<Fx>) -> (r: Matrix)
        ensures
            r.wf(),
            r.n_rows == 1,
            r.n_cols == vector@.len(),
            r.cells@[0]@ == vector@,
    {
        let n: usize = vector.len();
        let mut matrix: Vec<Vec<Fx>> = Vec::new();
        matrix.push(vector);
        Matrix { cells: matrix, n_rows: 1, n_cols: n }
    }

    /// An n x 1 matrix holding the given values as its only column.
    pub fn column_matrix(vector: Vec<Fx>) -> (r: Matrix)
        ensures
            r.wf(),
            r.n_rows == vector@.len(),
            r.n_cols == 1,
            forall|i: int| 0 <= i < vector@.len() ==> r.at(i, 0) == vector@[i].raw as int,
    {
        let m: usize = vector.len();
        let mut matrix: Vec<Vec<Fx>> = Vec::new();
        let mut i: usize = 0;
        while i < m
            invariant
                i <= m,
                m == vector@.len(),
                matrix@.len() == i,
                forall|k: int| 0 <= k < i ==> (#[trigger] matrix@[k])@.len() == 1,
                forall|k: int| 0 <= k < i ==> (#[trigger] matrix@[k])@[0] == vector@[k],
            decreases m - i,
        {
            let mut row: Vec<Fx> = Vec::new();
            row.push(vector[i]);
            matrix.push(row);
            i = i + 1;
        }
        Matrix { cells: matrix, n_rows: m, n_cols: 1 }
    }

    /// The values of a single-column matrix, top to bottom.
    pub fn get_tuple(self) -> (r: Vec<Fx>)
        requires
            self.wf(),
            self.n_cols == 1,
        ensures
            r@.len() == self.n_rows,
            forall|i: int| 0 <= i < self.n_rows ==> r@[i].raw as int == self.at(i, 0),
    {
        let mut vector: Vec<Fx> = Vec::new();
        let mut i: usize = 0;
        while i < self.n_rows
            invariant
                i <= self.n_rows,
                self.wf(),
                self.n_cols == 1,
                vector@.len() == i,
                forall|k: int| 0 <= k < i ==> vector@[k].raw as int == self.at(k, 0),
            decreases self.n_rows - i,
        {
            vector.push(self.cells[i][0]);
            i = i + 1;
        }
        vector
    }

    /// The columns of the matrix, each as a vector of its entries.
    pub fn columns(&self) -> (r: Vec<Vec<Fx>>)
        requires
            self.wf(),
        ensures
            r@.len() == self.n_cols,
            forall|j: int| 0 <= j < self.n_cols ==> (#[trigger] r@[j])@.len() == self.n_rows,
            forall|j: int, i: int|
                0 <= j < self.n_cols && 0 <= i < self.n_rows ==> (#[trigger] r@[j]@[i]).raw as int
                    == self.at(i, j),
    {
        let mut columns: Vec<Vec<Fx>> = Vec::new();
        let mut j: usize = 0;
        while j < self.n_cols
            invariant
                j <= self.n_cols,
                self.wf(),
                columns@.len() == j,
                forall|c: int| 0 <= c < j ==> (#[trigger] columns@[c])@.len() == self.n_rows,
                forall|c: int, i: int|
                    0 <= c < j && 0 <= i < self.n_rows ==> (#[trigger] columns@[c]@[i]).raw as int
                        == self.at(i, c),
            decreases self.n_cols - j,
        {
            let mut column_vector: Vec<Fx> = Vec::new();
            let mut i: usize = 0;
            while i < self.n_rows
                invariant
                    i <= self.n_rows,
                    j < self.n_cols,
                    self.wf(),
                    column_vector@.len() == i,
                    forall|k: int|
                        0 <= k < i ==> column_vector@[k].raw as int == self.at(k, j as int),
                decreases self.n_rows - i,
            {
                column_vector.push(self.cells[i][j]);
                i = i + 1;
            }
            columns.push(column_vector);
            j = j + 1;
        }
        columns
    }

    /// The rows x cols matrix of zeros.
    pub fn zero_matrix(rows: usize, cols: usize) -> (r: Matrix)
        ensures
            r.wf(),
            r.n_rows == rows,
            r.n_cols == cols,
            forall|i: int, j: int| 0 <= i < rows && 0 <= j < cols ==> r.at(i, j) == 0,
    {
        let mut row_vector: Vec<Fx> = Vec::new();
        let mut j: usize = 0;
        while j < cols
            invariant
                j <= cols,
                row_vector@.len() == j,
                forall|k: int| 0 <= k < j ==> row_vector@[k].raw as int == 0,
            decreases cols - j,
        {
            row_vector.push(Fx::zero());
            j = j + 1;
        }
        let mut matrix: Vec<Vec<Fx>> = Vec::new();
        let mut i: usize = 0;
        while i < rows
            invariant
                i <= rows,
                row_vector@.len() == cols,
                forall|k: int| 0 <= k < cols ==> row_vector@[k].raw as int == 0,
                matrix@.len() == i,
                forall|k: int| 0 <= k < i ==> (#[trigger] matrix@[k])@.len() == cols,
                forall|k: int, c: int|
                    0 <= k < i && 0 <= c < cols ==> (#[trigger] matrix@[k]@[c]).raw as int == 0,
            decreases rows - i,
        {
            matrix.push(row_vector.clone());
            i = i + 1;
        }
        Matrix { cells: matrix, n_rows: rows, n_cols: cols }
    }

    /// The dim x dim identity.
    pub fn identity_matrix(dim: usize) -> (r: Matrix)
        ensures
            r.wf(),
            r.n_rows == dim,
            r.n_cols == dim,
            forall|i: int, j: int|
                0 <= i < dim && 0 <= j < dim ==> r.at(i, j) == identity_grid(dim as int)[i][j],
    {
        let mut matrix: Vec<Vec<Fx>> = Vec::new();
        let mut i: usize = 0;
        while i < dim
            invariant
                i <= dim,
                matrix@.len() == i,
                forall|k: int| 0 <= k < i ==> (#[trigger] matrix@[k])@.len() == dim,
                forall|k: int, c: int|
                    0 <= k < i && 0 <= c < dim ==> (#[trigger] matrix@[k]@[c]).raw as int == (
                    if k == c {
                        SCALE as int
                    } else {
                        0
                    }),
            decreases dim - i,
        {
            let mut row: Vec<Fx> = Vec::new();
            let mut j: usize = 0;
            while j < dim
                invariant
                    j <= dim,
                    i < dim,
                    row@.len() == j,
                    forall|c: int|
                        0 <= c < j ==> row@[c].raw as int == (if i == c {
                            SCALE as int
                        } else {
                            0
                        }),
                decreases dim - j,
            {
                if i == j {
                    row.push(Fx::one());
                } else {
                    row.push(Fx::zero());
                }
                j = j + 1;
            }
            matrix.push(row);
            i = i + 1;
        }
        Matrix { cells: matrix, n_rows: dim, n_cols: dim }
    }

    /// The matrix with rows and columns exchanged.
    pub fn transpose(&self) -> (r: Matrix)
        requires
            self.wf(),
        ensures
            r.wf(),
            r.n_rows == self.n_cols,
            r.n_cols == self.n_rows,
            forall|i: int, j: int|
                0 <= i < self.n_cols && 0 <= j < self.n_rows ==> r.at(i, j) == self.at(j, i),
            r.grid() == transpose_grid(self.grid(), self.n_rows as int, self.n_cols as int),
    {
        let cols: Vec<Vec<Fx>> = self.columns();
        let r = Matrix { cells: cols, n_rows: self.n_cols, n_cols: self.n_rows };
        proof {
            r.lemma_grid();
            self.lemma_grid();
            let g = transpose_grid(self.grid(), self.n_rows as int, self.n_cols as int);
            assert forall|i: int| 0 <= i < r.n_rows implies r.grid()[i] =~= g[i] by {
                assert forall|j: int| 0 <= j < r.n_cols implies r.grid()[i][j] == g[i][j] by {
                    assert(r.grid()[i][j] == r.at(i, j));
                }
            }
            assert(r.grid() =~= g);
        }
        r
    }

    /// The grid with row `row` and column `col` struck out.
    pub fn sub_matrix(&self, row: usize, col: usize) -> (r: Matrix)
        requires
            self.wf(),
            row < self.n_rows,
            col < self.n_cols,
        ensures
            r.wf(),
            r.n_rows == self.n_rows - 1,
            r.n_cols == self.n_cols - 1,
            r.grid() == sub_grid(self.grid(), row as int, col as int),
    {
        let mut matrix: Vec<Vec<Fx>> = Vec::new();
        let mut i: usize = 0;
        while i < self.n_rows
            invariant
                i <= self.n_rows,
                self.wf(),
                row < self.n_rows,
                col < self.n_cols,
                matrix@.len() == (if i <= row {
                    i as int
                } else {
                    i - 1
                }),
                forall|k: int|
                    0 <= k < matrix@.len() ==> (#[trigger] matrix@[k])@.len() == self.n_cols - 1,
                forall|k: int, c: int|
                    0 <= k < matrix@.len() && 0 <= c < self.n_cols - 1 ==> (
                    #[trigger] matrix@[k]@[c]).raw as int == self.at(
                        if k < row {
                            k
                        } else {
                            k + 1
                        },
                        if c < col {
                            c
                        } else {
                            c + 1
                        },
                    ),
            decreases self.n_rows - i,
        {
            if i != row {
                let mut row_vector: Vec<Fx> = Vec::new();
                let mut j: usize = 0;
                while j < self.n_cols
                    invariant
                        j <= self.n_cols,
                        i < self.n_rows,
                        i != row,
                        self.wf(),
                        row < self.n_rows,
                        col < self.n_cols,
                        row_vector@.len() == (if j <= col {
                            j as int
                        } else {
                            j - 1
                        }),
                        forall|c: int|
                            0 <= c < row_vector@.len() ==> row_vector@[c].raw as int == self.at(
                                i as int,
                                if c < col {
                                    c
                                } else {
                                    c + 1
                                },
                            ),
                    decreases self.n_cols - j,
                {
                    if j != col {
                        row_vector.push(self.cells[i][j]);
                    }
                    j = j + 1;
                }
                matrix.push(row_vector);
            }
            i = i + 1;
        }
        let r = Matrix { cells: matrix, n_rows: self.n_rows - 1, n_cols: self.n_cols - 1 };
        proof {
            let lhs = r.grid();
            let rhs = sub_grid(self.grid(), row as int, col as int);
            assert(lhs.len() == rhs.len());
            assert forall|k: int| 0 <= k < lhs.len() implies lhs[k] == rhs[k] by {
                assert(lhs[k].len() == self.n_cols - 1);
                assert(rhs[k].len() == self.n_cols - 1);
                assert forall|c: int| 0 <= c < self.n_cols - 1 implies lhs[k][c] == rhs[k][c] by {
                    assert(lhs[k][c] == r.at(k, c));
                }
                assert(lhs[k] =~= rhs[k]);
            }
            assert(lhs =~= rhs);
        }
        r
    }

    /// Determinant by recursive cofactor expansion; only square matrices
    /// have one.
    pub fn determinant(&self) -> (r: Fx)
        requires
            self.wf(),
            self.is_square(),
        ensures
            r.raw as int == det(self.grid()),
        decreases self.n_rows, 2int,
    {
        proof {
            self.lemma_grid();
        }
        if self.n_rows == 2 && self.n_cols == 2 {
            self.cells[0][0].mul(self.cells[1][1]).sub(self.cells[0][1].mul(self.cells[1][0]))
        } else {
            let mut d: Fx = Fx::zero();
            let mut i: usize = 0;
            while i < self.n_cols
                invariant
                    i <= self.n_cols,
                    self.wf(),
                    self.is_square(),
                    self.n_rows != 2,
                    d.raw as int == det_row_sum(self.grid(), i as int),
                decreases self.n_cols - i,
            {
                let c: Fx = self.cofactor(0, i);
                d = d.add(self.cells[0][i].mul(c));
                i = i + 1;
            }
            d
        }
    }

    /// Determinant of the sub-matrix with row i and column j struck out.
    pub fn minor(&self, row: usize, col: usize) -> (r: Fx)
        requires
            self.wf(),
            self.is_square(),
            row < self.n_rows,
            col < self.n_cols,
        ensures
            r.raw as int == minor(self.grid(), row as int, col as int),
        decreases self.n_rows, 0int,
    {
        self.sub_matrix(row, col).determinant()
    }

    /// The signed minor.
    pub fn cofactor(&self, row: usize, col: usize) -> (r: Fx)
        requires
            self.wf(),
            self.is_square(),
            row < self.n_rows,
            col < self.n_cols,
        ensures
            r.raw as int == cofactor(self.grid(), row as int, col as int),
        decreases self.n_rows, 1int,
    {
        let m: Fx = self.minor(row, col);
        let odd: bool = (row % 2) != (col % 2);
        proof {
            vstd::arithmetic::div_mod::lemma_add_mod_noop(row as int, col as int, 2);
        }
        if odd {
            m.neg()
        } else {
            m
        }
    }

    /// A matrix is invertible exactly when its determinant is not zero.
    pub fn is_invertible(&self) -> (r: bool)
        requires
            self.wf(),
            self.is_square(),
        ensures
            r == (det(self.grid()) != 0),
    {
        self.determinant().raw != 0
    }

    /// The inverse: the transposed cofactor matrix, each entry divided by
    /// the determinant. A zero determinant is rejected.
    pub fn inverse_matrix(&self) -> (r: Result<Matrix, TracerError>)
        requires
            self.wf(),
            self.is_square(),
        ensures
            match r {
                Ok(inv) => {
                    &&& det(self.grid()) != 0
                    &&& inv.wf()
                    &&& inv.n_rows == self.n_rows
                    &&& inv.n_cols == self.n_cols
                    &&& forall|i: int, j: int|
                        0 <= i < self.n_rows && 0 <= j < self.n_cols ==> inv.at(j, i) == fx_div(
                            cofactor(self.grid(), i, j),
                            det(self.grid()),
                        )
                    &&& inv.grid() == inv_grid(self.grid())
                },
                Err(e) => e == TracerError::SingularMatrix && det(self.grid()) == 0,
            },
    {
        let d: Fx = self.determinant();
        if d.raw == 0 {
            return Err(TracerError::SingularMatrix);
        }
        proof {
            self.lemma_grid();
            if self.n_rows <= 1 {
                lemma_small_det_zero(self.grid());
            }
        }
        let n: usize = self.n_rows;
        let mut matrix: Vec<Vec<Fx>> = Vec::new();
        let mut r: usize = 0;
        while r < n
            invariant
                r <= n,
                self.wf(),
                self.is_square(),
                self.n_rows >= 2,
                n == self.n_rows,
                d.raw as int == det(self.grid()),
                d.raw != 0,
                matrix@.len() == r,
                forall|k: int| 0 <= k < r ==> (#[trigger] matrix@[k])@.len() == n,
                forall|k: int, c: int|
                    0 <= k < r && 0 <= c < n ==> (#[trigger] matrix@[k]@[c]).raw as int == fx_div(
                        cofactor(self.grid(), c, k),
                        det(self.grid()),
                    ),
            decreases n - r,
        {
            let mut row_vector: Vec<Fx> = Vec::new();
            let mut c: usize = 0;
            while c < n
                invariant
                    c <= n,
                    r < n,
                    self.wf(),
                    self.is_square(),
                    self.n_rows >= 2,
                    n == self.n_rows,
                    d.raw as int == det(self.grid()),
                    d.raw != 0,
                    row_vector@.len() == c,
                    forall|k: int|
                        0 <= k < c ==> row_vector@[k].raw as int == fx_div(
                            cofactor(self.grid(), k, r as int),
                            det(self.grid()),
                        ),
                decreases n - c,
            {
                let cof: Fx = self.cofactor(c, r);
                row_vector.push(cof.div(d));
                c = c + 1;
            }
            matrix.push(row_vector);
            r = r + 1;
        }
        let out = Matrix { cells: matrix, n_rows: n, n_cols: n };
        proof {
            out.lemma_grid();
            self.lemma_grid();
            let g = inv_grid(self.grid());
            assert forall|k: int| 0 <= k < n implies out.grid()[k] =~= g[k] by {
                assert forall|c: int| 0 <= c < n implies out.grid()[k][c] == g[k][c] by {
                    assert(out.grid()[k][c] == out.at(k, c));
                }
            }
            assert(out.grid() =~= g);
        }
        Ok(out)
    }

    /// Rounded matrix product; the left operand's column count must match
    /// the right operand's row count.
    pub fn mul_matrix(&self, rhs: &Matrix) -> (r: Matrix)
        requires
            self.wf(),
            rhs.wf(),
            self.n_cols == rhs.n_rows,
        ensures
            r.wf(),
            r.n_rows == self.n_rows,
            r.n_cols == rhs.n_cols,
            forall|i: int, j: int|
                0 <= i < self.n_rows && 0 <= j < rhs.n_cols ==> r.at(i, j) == dot_k(
                    self.grid(),
                    rhs.grid(),
                    i,
                    j,
                    self.n_cols as int,
                ),
    {
        proof {
            self.lemma_grid();
            rhs.lemma_grid();
        }
        let mut matrix: Vec<Vec<Fx>> = Vec::new();
        let mut i: usize = 0;
        while i < self.n_rows
            invariant
                i <= self.n_rows,
                self.wf(),
                rhs.wf(),
                self.n_cols == rhs.n_rows,
                matrix@.len() == i,
                forall|k: int| 0 <= k < i ==> (#[trigger] matrix@[k])@.len() == rhs.n_cols,
                forall|k: int, c: int|
                    0 <= k < i && 0 <= c < rhs.n_cols ==> (#[trigger] matrix@[k]@[c]).raw as int
                        == dot_k(self.grid(), rhs.grid(), k, c, self.n_cols as int),
            decreases self.n_rows - i,
        {
            let mut row_vector: Vec<Fx> = Vec::new();
            let mut j: usize = 0;
            while j < rhs.n_cols
                invariant
                    j <= rhs.n_cols,
                    i < self.n_rows,
                    self.wf(),
                    rhs.wf(),
                    self.n_cols == rhs.n_rows,
                    row_vector@.len() == j,
                    forall|c: int|
                        0 <= c < j ==> row_vector@[c].raw as int == dot_k(
                            self.grid(),
                            rhs.grid(),
                            i as int,
                            c,
                            self.n_cols as int,
                        ),
                decreases rhs.n_cols - j,
            {
                let mut dot_product: Fx = Fx::zero();
                let mut k: usize = 0;
                while k < self.n_cols
                    invariant
                        k <= self.n_cols,
                        i < self.n_rows,
                        j < rhs.n_cols,
                        self.wf(),
                        rhs.wf(),
                        self.n_cols == rhs.n_rows,
                        dot_product.raw as int == dot_k(
                            self.grid(),
                            rhs.grid(),
                            i as int,
                            j as int,
                            k as int,
                        ),
                    decreases self.n_cols - k,
                {
                    proof {
                        self.lemma_grid();
                        rhs.lemma_grid();
                    }
                    dot_product = dot_product.add(self.cells[i][k].mul(rhs.cells[k][j]));
                    k = k + 1;
                }
                row_vector.push(dot_product);
                j = j + 1;
            }
            matrix.push(row_vector);
            i = i + 1;
        }
        Matrix { cells: matrix, n_rows: self.n_rows, n_cols: rhs.n_cols }
    }

    /// Applies a 4x4 transform to a tuple in homogeneous coordinates.
    pub fn mul_vec3(&self, rhs: Vec3) -> (r: Vec3)
        requires
            self.wf(),
            self.n_rows == 4,
            self.n_cols == 4,
        ensures
            r == xform(self.grid(), rhs),
    {
        proof {
            self.lemma_grid();
        }
        let tuple: Vec<Fx> = rhs.as_vec();
        let column: Matrix = Matrix::column_matrix(tuple);
        let product: Matrix = self.mul_matrix(&column);
        let out: Vec<Fx> = product.get_tuple();
        let result: Vec3 = Vec3::new(&out);
        proof {
            column.lemma_grid();
            product.lemma_grid();
            let m = self.grid();
            let b = column.grid();
            assert(b[0][0] == rhs.x.raw as int);
            assert(b[1][0] == rhs.y.raw as int);
            assert(b[2][0] == rhs.z.raw as int);
            assert(b[3][0] == w_of(rhs.t));
            reveal_with_fuel(dot_k, 5);
            assert(dot_k(m, b, 0, 0, 4) == xform_component(m, 0, rhs));
            assert(dot_k(m, b, 1, 0, 4) == xform_component(m, 1, rhs));
            assert(dot_k(m, b, 2, 0, 4) == xform_component(m, 2, rhs));
            assert(dot_k(m, b, 3, 0, 4) == xform_component(m, 3, rhs));
            assert(out@[0].raw as int == product.at(0, 0));
            assert(out@[1].raw as int == product.at(1, 0));
            assert(out@[2].raw as int == product.at(2, 0));
            assert(out@[3].raw as int == product.at(3, 0));
            assert(product.at(0, 0) == dot_k(m, b, 0, 0, 4));
            assert(product.at(1, 0) == dot_k(m, b, 1, 0, 4));
            assert(product.at(2, 0) == dot_k(m, b, 2, 0, 4));
            assert(product.at(3, 0) == dot_k(m, b, 3, 0, 4));
            assert(result.x.raw as int == xform_component(m, 0, rhs));
            assert(result.y.raw as int == xform_component(m, 1, rhs));
            assert(result.z.raw as int == xform_component(m, 2, rhs));
            assert(result.t == xform(m, rhs).t);
        }
        result
    }

    /// Builds a 4x4 matrix from its sixteen entries, row major.
    pub fn matrix4(
        m00: Fx,
        m01: Fx,
        m02: Fx,
        m03: Fx,
        m10: Fx,
        m11: Fx,
        m12: Fx,
        m13: Fx,
        m20: Fx,
        m21: Fx,
        m22: Fx,
        m23: Fx,
        m30: Fx,
        m31: Fx,
        m32: Fx,
        m33: Fx,
    ) -> (r: Matrix)
        ensures
            r.wf(),
            r.n_rows == 4,
            r.n_cols == 4,
            r.grid() == grid4(
                m00.raw as int,
                m01.raw as int,
                m02.raw as int,
                m03.raw as int,
                m10.raw as int,
                m11.raw as int,
                m12.raw as int,
                m13.raw as int,
                m20.raw as int,
                m21.raw as int,
                m22.raw as int,
                m23.raw as int,
                m30.raw as int,
                m31.raw as int,
                m32.raw as int,
                m33.raw as int,
            ),
    {
        let r0: Vec<Fx> = vec![m00, m01, m02, m03];
        let r1: Vec<Fx> = vec![m10, m11, m12, m13];
        let r2: Vec<Fx> = vec![m20, m21, m22, m23];
        let r3: Vec<Fx> = vec![m30, m31, m32, m33];
        let cells: Vec<Vec<Fx>> = vec![r0, r1, r2, r3];
        let r = Matrix { cells, n_rows: 4, n_cols: 4 };
        proof {
            let g = grid4(
                m00.raw as int,
                m01.raw as int,
                m02.raw as int,
                m03.raw as int,
                m10.raw as int,
                m11.raw as int,
                m12.raw as int,
                m13.raw as int,
                m20.raw as int,
                m21.raw as int,
                m22.raw as int,
                m23.raw as int,
                m30.raw as int,
                m31.raw as int,
                m32.raw as int,
                m33.raw as int,
            );
            assert(r.grid().len() == 4);
            assert forall|i: int| 0 <= i < 4 implies r.grid()[i] =~= g[i] by {
                assert(r.grid()[i] == r.cells@[i]@.map(|j: int, c: Fx| c.raw as int));
            }
            assert(r.grid() =~= g);
        }
        r
    }

    /// The 4x4 translation transform.
    pub fn translation(x: Fx, y: Fx, z: Fx) -> (r: Matrix)
        ensures
            r.wf(),
            r.n_rows == 4,
            r.n_cols == 4,
            r.grid() == translation_grid(x.raw as int, y.raw as int, z.raw as int),
    {
        let o: Fx = Fx::one();
        let n: Fx = Fx::zero();
        let r = Matrix::matrix4(o, n, n, x, n, o, n, y, n, n, o, z, n, n, n, o);
        proof {
            lemma_grid4_eq(r.grid(), translation_grid(x.raw as int, y.raw as int, z.raw as int));
        }
        r
    }

    /// Composes a translation onto this transform.
    pub fn translate(&self, x: Fx, y: Fx, z: Fx) -> (r: Matrix)
        requires
            self.wf(),
            self.n_rows == 4,
        ensures
            r.wf(),
            r.n_rows == 4,
            r.n_cols == self.n_cols,
            forall|i: int, j: int|
                0 <= i < 4 && 0 <= j < self.n_cols ==> r.at(i, j) == dot_k(
                    translation_grid(x.raw as int, y.raw as int, z.raw as int),
                    self.grid(),
                    i,
                    j,
                    4,
                ),
    {
        Matrix::translation(x, y, z).mul_matrix(self)
    }

    /// The 4x4 scaling transform.
    pub fn scaling(x: Fx, y: Fx, z: Fx) -> (r: Matrix)
        ensures
            r.wf(),
            r.n_rows == 4,
            r.n_cols == 4,
            r.grid() == scaling_grid(x.raw as int, y.raw as int, z.raw as int),
    {
        let o: Fx = Fx::one();
        let n: Fx = Fx::zero();
        let r = Matrix::matrix4(x, n, n, n, n, y, n, n, n, n, z, n, n, n, n, o);
        proof {
            lemma_grid4_eq(r.grid(), scaling_grid(x.raw as int, y.raw as int, z.raw as int));
        }
        r
    }

    /// Composes a scaling onto this transform.
    pub fn scale(&self, x: Fx, y: Fx, z: Fx) -> (r: Matrix)
        requires
            self.wf(),
            self.n_rows == 4,
        ensures
            r.wf(),
            r.n_rows == 4,
            r.n_cols == self.n_cols,
            forall|i: int, j: int|
                0 <= i < 4 && 0 <= j < self.n_cols ==> r.at(i, j) == dot_k(
                    scaling_grid(x.raw as int, y.raw as int, z.raw as int),
                    self.grid(),
                    i,
                    j,
                    4,
                ),
    {
        Matrix::scaling(x, y, z).mul_matrix(self)
    }

    /// Rotation about the x axis, from the sine and cosine of the angle.
    pub fn rotation_x(sin: Fx, cos: Fx) -> (r: Matrix)
        ensures
            r.wf(),
            r.n_rows == 4,
            r.n_cols == 4,
            r.grid() == rotation_x_grid(sin.raw as int, cos.raw as int),
    {
        let o: Fx = Fx::one();
        let n: Fx = Fx::zero();
        let r = Matrix::matrix4(o, n, n, n, n, cos, sin.neg(), n, n, sin, cos, n, n, n, n, o);
        proof {
            lemma_grid4_eq(r.grid(), rotation_x_grid(sin.raw as int, cos.raw as int));
        }
        r
    }

    /// Composes a rotation about x onto this transform.
    pub fn rotate_x(&self, sin: Fx, cos: Fx) -> (r: Matrix)
        requires
            self.wf(),
            self.n_rows == 4,
        ensures
            r.wf(),
            r.n_rows == 4,
            r.n_cols == self.n_cols,
            forall|i: int, j: int|
                0 <= i < 4 && 0 <= j < self.n_cols ==> r.at(i, j) == dot_k(
                    rotation_x_grid(sin.raw as int, cos.raw as int),
                    self.grid(),
                    i,
                    j,
                    4,
                ),
    {
        Matrix::rotation_x(sin, cos).mul_matrix(self)
    }

    /// Rotation about the y axis, from the sine and cosine of the angle.
    pub fn rotation_y(sin: Fx, cos: Fx) -> (r: Matrix)
        ensures
            r.wf(),
            r.n_rows == 4,
            r.n_cols == 4,
            r.grid() == rotation_y_grid(sin.raw as int, cos.raw as int),
    {
        let o: Fx = Fx::one();
        let n: Fx = Fx::zero();
        let r = Matrix::matrix4(cos, n, sin, n, n, o, n, n, sin.neg(), n, cos, n, n, n, n, o);
        proof {
            lemma_grid4_eq(r.grid(), rotation_y_grid(sin.raw as int, cos.raw as int));
        }
        r
    }

    /// Composes a rotation about y onto this transform.
    pub fn rotate_y(&self, sin: Fx, cos: Fx) -> (r: Matrix)
        requires
            self.wf(),
            self.n_rows == 4,
        ensures
            r.wf(),
            r.n_rows == 4,
            r.n_cols == self.n_cols,
            forall|i: int, j: int|
                0 <= i < 4 && 0 <= j < self.n_cols ==> r.at(i, j) == dot_k(
                    rotation_y_grid(sin.raw as int, cos.raw as int),
                    self.grid(),
                    i,
                    j,
                    4,
                ),
    {
        Matrix::rotation_y(sin, cos).mul_matrix(self)
    }

    /// Rotation about the z axis, from the sine and cosine of the angle.
    pub fn rotation_z(sin: Fx, cos: Fx) -> (r: Matrix)
        ensures
            r.wf(),
            r.n_rows == 4,
            r.n_cols == 4,
            r.grid() == rotation_z_grid(sin.raw as int, cos.raw as int),
    {
        let o: Fx = Fx::one();
        let n: Fx = Fx::zero();
        let r = Matrix::matrix4(cos, sin.neg(), n, n, sin, cos, n, n, n, n, o, n, n, n, n, o);
        proof {
            lemma_grid4_eq(r.grid(), rotation_z_grid(sin.raw as int, cos.raw as int));
        }
        r
    }

    /// Composes a rotation about z onto this transform.
    pub fn rotate_z(&self, sin: Fx, cos: Fx) -> (r: Matrix)
        requires
            self.wf(),
            self.n_rows == 4,
        ensures
            r.wf(),
            r.n_rows == 4,
            r.n_cols == self.n_cols,
            forall|i: int, j: int|
                0 <= i < 4 && 0 <= j < self.n_cols ==> r.at(i, j) == dot_k(
                    rotation_z_grid(sin.raw as int, cos.raw as int),
                    self.grid(),
                    i,
                    j,
                    4,
                ),
    {
        Matrix::rotation_z(sin, cos).mul_matrix(self)
    }

    /// The 4x4 shearing transform: each parameter moves one coordinate in
    /// proportion to another.
    pub fn shearing(xy: Fx, xz: Fx, yx: Fx, yz: Fx, zx: Fx, zy: Fx) -> (r: Matrix)
        ensures
            r.wf(),
            r.n_rows == 4,
            r.n_cols == 4,
            r.grid() == shearing_grid(
                xy.raw as int,
                xz.raw as int,
                yx.raw as int,
                yz.raw as int,
                zx.raw as int,
                zy.raw as int,
            ),
    {
        let o: Fx = Fx::one();
        let n: Fx = Fx::zero();
        let r = Matrix::matrix4(o, xy, xz, n, yx, o, yz, n, zx, zy, o, n, n, n, n, o);
        proof {
            lemma_grid4_eq(
                r.grid(),
                shearing_grid(
                    xy.raw as int,
                    xz.raw as int,
                    yx.raw as int,
                    yz.raw as int,
                    zx.raw as int,
                    zy.raw as int,
                ),
            );
        }
        r
    }

    /// Composes a shearing onto this transform.
    pub fn shear(&self, xy: Fx, xz: Fx, yx: Fx, yz: Fx, zx: Fx, zy: Fx) -> (r: Matrix)
        requires
            self.wf(),
            self.n_rows == 4,
        ensures
            r.wf(),
            r.n_rows == 4,
            r.n_cols == self.n_cols,
            forall|i: int, j: int|
                0 <= i < 4 && 0 <= j < self.n_cols ==> r.at(i, j) == dot_k(
                    shearing_grid(
                        xy.raw as int,
                        xz.raw as int,
                        yx.raw as int,
                        yz.raw as int,
                        zx.raw as int,
                        zy.raw as int,
                    ),
                    self.grid(),
                    i,
                    j,
                    4,
                ),
    {
        Matrix::shearing(xy, xz, yx, yz, zx, zy).mul_matrix(self)
    }

    /// Builds the camera-to-world look-at transform from the eye position,
    /// the target and the up hint: the camera basis rows composed with a
    /// translation by the negated eye position. Rejected when the eye
    /// coincides with the target or the up hint is parallel to the view
    /// direction (a basis vector's length rounds to zero).
    pub fn view_transformation(from: Vec3, to: Vec3, up: Vec3) -> (r: Result<Matrix, TracerError>)
        requires
            from.is_point_spec(),
            to.is_point_spec(),
            up.is_vector_spec(),
        ensures
            match r {
                Ok(m) => {
                    &&& vt_ok(from, to, up)
                    &&& m.wf()
                    &&& m.n_rows == 4
                    &&& m.n_cols == 4
                    &&& forall|i: int, j: int|
                        0 <= i < 4 && 0 <= j < 4 ==> m.at(i, j) == view_grid(from, to, up)[i][j]
                },
                Err(e) => !vt_ok(from, to, up) && e == TracerError::DivisionByZero,
            },
    {
        let diff: Vec3 = match from.sub(to) {
            Ok(v) => v,
            Err(_) => {
                proof {
                    assert(false);
                }
                return Err(TracerError::DivisionByZero);
            },
        };
        let forward: Vec3 = match diff.normalize() {
            Ok(v) => v,
            Err(_) => {
                return Err(TracerError::DivisionByZero);
            },
        };
        let crossed: Vec3 = match up.cross(forward) {
            Ok(v) => v,
            Err(_) => {
                proof {
                    assert(false);
                }
                return Err(TracerError::DivisionByZero);
            },
        };
        let right: Vec3 = match crossed.normalize() {
            Ok(v) => v,
            Err(_) => {
                return Err(TracerError::DivisionByZero);
            },
        };
        let true_up: Vec3 = match forward.cross(right) {
            Ok(v) => v,
            Err(_) => {
                proof {
                    assert(false);
                }
                return Err(TracerError::DivisionByZero);
            },
        };
        let n: Fx = Fx::zero();
        let o: Fx = Fx::one();
        let orientation: Matrix = Matrix::matrix4(
            right.x,
            right.y,
            right.z,
            n,
            true_up.x,
            true_up.y,
            true_up.z,
            n,
            forward.x,
            forward.y,
            forward.z,
            n,
            n,
            n,
            n,
            o,
        );
        let translated: Matrix = Matrix::translation(from.x.neg(), from.y.neg(), from.z.neg());
        let result: Matrix = orientation.mul_matrix(&translated);
        proof {
            lemma_grid4_eq(orientation.grid(), orientation_grid(right, true_up, forward));
            assert forall|i: int, j: int| 0 <= i < 4 && 0 <= j < 4 implies result.at(i, j)
                == view_grid(from, to, up)[i][j] by {
                assert(view_grid(from, to, up)[i][j] == dot_k(
                    orientation_grid(
                        vt_right(from, to, up),
                        vt_true_up(from, to, up),
                        vt_forward(from, to),
                    ),
                    translation_grid(
                        fx_neg(from.x.raw as int),
                        fx_neg(from.y.raw as int),
                        fx_neg(from.z.raw as int),
                    ),
                    i,
                    j,
                    4,
                ));
            }
        }
        Ok(result)
    }

    /// Componentwise equality within tolerance; matrices of different shape
    /// are never equal.
    pub fn equals(&self, other: &Matrix) -> (r: bool)
        requires
            self.wf(),
            other.wf(),
        ensures
            r == (self.n_rows == other.n_rows && self.n_cols == other.n_cols && forall|
                i: int,
                j: int,
            |
                0 <= i < self.n_rows && 0 <= j < self.n_cols ==> fx_eq(
                    #[trigger] self.at(i, j),
                    other.at(i, j),
                )),
    {
        if self.n_rows != other.n_rows || self.n_cols != other.n_cols {
            return false;
        }
        let mut i: usize = 0;
        while i < self.n_rows
            invariant
                i <= self.n_rows,
                self.wf(),
                other.wf(),
                self.n_rows == other.n_rows,
                self.n_cols == other.n_cols,
                forall|k: int, c: int|
                    0 <= k < i && 0 <= c < self.n_cols ==> fx_eq(
                        #[trigger] self.at(k, c),
                        other.at(k, c),
                    ),
            decreases self.n_rows - i,
        {
            let mut j: usize = 0;
            while j < self.n_cols
                invariant
                    j <= self.n_cols,
                    i < self.n_rows,
                    self.wf(),
                    other.wf(),
                    self.n_rows == other.n_rows,
                    self.n_cols == other.n_cols,
                    forall|k: int, c: int|
                        0 <= k < i && 0 <= c < self.n_cols ==> fx_eq(
                            #[trigger] self.at(k, c),
                            other.at(k, c),
                        ),
                    forall|c: int|
                        0 <= c < j ==> fx_eq(#[trigger] self.at(i as int, c), other.at(i as int, c)),
                decreases self.n_cols - j,
            {
                if !self.cells[i][j].equals(other.cells[i][j]) {
                    proof {
                        assert(!fx_eq(self.at(i as int, j as int), other.at(i as int, j as int)));
                    }
                    return false;
                }
                j = j + 1;
            }
            i = i + 1;
        }
        true
    }
}

} // verus!
