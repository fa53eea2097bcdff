//! Three-dimensional sample cubes indexed (x, y, time) and the 2-D grids cut
//! out of them. Values are of any copyable type: the engine stores samples,
//! spectra and antiderivatives in them alike.

use vstd::prelude::*;

use crate::geometry::TTAxis;

verus! {

/// Why a cube could not be built.
#[derive(Clone, Copy, Debug, PartialEq, Eq, Structural)]
pub enum ShapeError {
    /// The number of values is not frames × rows × columns.
    CountMismatch,
    /// An extent is below two.
    TooSmall,
}

/// A cube of `width × height` lanes of `frames` values each; lane `(x, y)`
/// holds the time series of pixel `(x, y)`.
#[derive(Clone, Debug)]
pub struct Cube<T> {
    pub width: usize,
    pub height: usize,
    pub frames: usize,
    pub lanes: Vec<Vec<Vec<T>>>,
}

/// A grid of `rows × cols` values, row by row.
#[derive(Clone, Debug)]
pub struct Grid<T> {
    pub nrows: usize,
    pub ncols: usize,
    pub cells: Vec<Vec<T>>,
}

/// The axis of a cube that an axis of the result space runs along: x, y,
/// and the third axis for time (in a sample cube) or frequency (in a
/// spectral cube). Scales have no cube axis.
pub open spec fn cube_axis_spec(a: TTAxis) -> Option<int> {
    match a {
        TTAxis::X => Some(0),
        TTAxis::Y => Some(1),
        TTAxis::T | TTAxis::F => Some(2),
        TTAxis::S => None,
    }
}

/// The cube axis of `a`.
pub fn cube_axis(a: TTAxis) -> (r: Option<usize>)
    ensures
        r matches Some(k) ==> cube_axis_spec(a) == Some(k as int),
        r is None <==> cube_axis_spec(a) is None,
{
    match a {
        TTAxis::X => Some(0),
        TTAxis::Y => Some(1),
        TTAxis::T | TTAxis::F => Some(2),
        TTAxis::S => None,
    }
}

/// The coordinate along cube axis `k` of the plane cell `(i, j)`, when the
/// plane runs along axes `a` and `b` and is held at `at` on the third.
pub open spec fn plane_coord(a: int, b: int, at: int, i: int, j: int, k: int) -> int {
    if k == a {
        i
    } else if k == b {
        j
    } else {
        at
    }
}

impl<T> Cube<T> {
    /// The extent of cube axis `k`.
    pub open spec fn extent(&self, k: int) -> int {
        if k == 0 {
            self.width as int
        } else if k == 1 {
            self.height as int
        } else {
            self.frames as int
        }
    }

    pub open spec fn wf(&self) -> bool {
        &&& self.lanes@.len() == self.width
        &&& forall|x: int| 0 <= x < self.width ==> #[trigger] self.lanes@[x]@.len() == self.height
        &&& forall|x: int, y: int|
            0 <= x < self.width && 0 <= y < self.height ==> #[trigger] self.lanes@[x]@[y]@.len()
                == self.frames
    }

    /// The value at `(x, y, t)`.
    pub open spec fn at(&self, x: int, y: int, t: int) -> T {
        self.lanes@[x]@[y]@[t]
    }
}

impl<T> Grid<T> {
    pub open spec fn wf(&self) -> bool {
        &&& self.cells@.len() == self.nrows
        &&& forall|i: int| 0 <= i < self.nrows ==> #[trigger] self.cells@[i]@.len() == self.ncols
    }

    pub open spec fn at(&self, i: int, j: int) -> T {
        self.cells@[i]@[j]
    }
}

impl<T: Copy> Grid<T> {
    /// The value in row `i` and column `j`.
    pub fn get(&self, i: usize, j: usize) -> (r: T)
        requires
            self.wf(),
            i < self.nrows,
            j < self.ncols,
        ensures
            r == self.at(i as int, j as int),
    {
        self.cells[i][j]
    }

    /// The rows `r0..=r1` and columns `c0..=c1`, both ends included.
    pub fn window(&self, r0: usize, r1: usize, c0: usize, c1: usize) -> (r: Grid<T>)
        requires
            self.wf(),
            r0 <= r1 < self.nrows,
            c0 <= c1 < self.ncols,
        ensures
            r.wf(),
            r.nrows == r1 - r0 + 1,
            r.ncols == c1 - c0 + 1,
            forall|i: int, j: int|
                0 <= i < r.nrows && 0 <= j < r.ncols ==> #[trigger] r.at(i, j) == self.at(
                    r0 + i,
                    c0 + j,
                ),
    {
        let mut cells: Vec<Vec<T>> = Vec::new();
        let mut i: usize = r0;
        while i <= r1
            invariant
                self.wf(),
                r0 <= i <= r1 + 1,
                r1 < self.nrows,
                c0 <= c1 < self.ncols,
                cells@.len() == i - r0,
                forall|a: int| 0 <= a < cells@.len() ==> #[trigger] cells@[a]@.len() == c1 - c0 + 1,
                forall|a: int, b: int|
                    0 <= a < cells@.len() && 0 <= b <= c1 - c0 ==> #[trigger] cells@[a]@[b]
                        == self.at(r0 + a, c0 + b),
            decreases r1 + 1 - i,
        {
            let mut row: Vec<T> = Vec::new();
            let mut j: usize = c0;
            while j <= c1
                invariant
                    self.wf(),
                    i < self.nrows,
                    c0 <= j <= c1 + 1,
                    c1 < self.ncols,
                    row@.len() == j - c0,
                    forall|b: int| 0 <= b < row@.len() ==> #[trigger] row@[b] == self.at(
                        i as int,
                        c0 + b,
                    ),
                decreases c1 + 1 - j,
            {
                row.push(self.cells[i][j]);
                j += 1;
            }
            cells.push(row);
            i += 1;
        }
        Grid { nrows: r1 - r0 + 1, ncols: c1 - c0 + 1, cells }
    }

    /// The grid with rows and columns exchanged.
    pub fn transposed(&self) -> (r: Grid<T>)
        requires
            self.wf(),
        ensures
            r.wf(),
            r.nrows == self.ncols,
            r.ncols == self.nrows,
            forall|i: int, j: int|
                0 <= i < r.nrows && 0 <= j < r.ncols ==> #[trigger] r.at(i, j) == self.at(j, i),
    {
        let mut cells: Vec<Vec<T>> = Vec::new();
        let mut j: usize = 0;
        while j < self.ncols
            invariant
                self.wf(),
                j <= self.ncols,
                cells@.len() == j,
                forall|a: int| 0 <= a < cells@.len() ==> #[trigger] cells@[a]@.len() == self.nrows,
                forall|a: int, b: int|
                    0 <= a < cells@.len() && 0 <= b < self.nrows ==> #[trigger] cells@[a]@[b]
                        == self.at(b, a),
            decreases self.ncols - j,
        {
            let mut row: Vec<T> = Vec::new();
            let mut i: usize = 0;
            while i < self.nrows
                invariant
                    self.wf(),
                    j < self.ncols,
                    i <= self.nrows,
                    row@.len() == i,
                    forall|b: int| 0 <= b < row@.len() ==> #[trigger] row@[b] == self.at(b, j as int),
                decreases self.nrows - i,
            {
                row.push(self.cells[i][j]);
                i += 1;
            }
            cells.push(row);
            j += 1;
        }
        Grid { nrows: self.ncols, ncols: self.nrows, cells }
    }
}

/// The index of value `(f, r, c)` among values listed frame by frame, row by
/// row, column by column.
pub open spec fn file_index(f: int, r: int, c: int, rows: int, cols: int) -> int {
    (f * rows + r) * cols + c
}

proof fn lemma_file_index_bound(f: int, r: int, c: int, frames: int, rows: int, cols: int)
    requires
        0 <= f < frames,
        0 <= r < rows,
        0 <= c < cols,
    ensures
        0 <= file_index(f, r, c, rows, cols) < frames * rows * cols,
        0 <= f * rows <= f * rows + r <= file_index(f, r, c, rows, cols),
{
    assert(0 <= f * rows) by (nonlinear_arith)
        requires
            0 <= f,
            0 <= r < rows,
    ;
    assert(f * rows + r < frames * rows) by (nonlinear_arith)
        requires
            0 <= f < frames,
            0 <= r < rows,
    ;
    assert((f * rows + r) * cols + c < frames * rows * cols) by (nonlinear_arith)
        requires
            0 <= f * rows + r < frames * rows,
            0 <= c < cols,
    ;
    assert(f * rows + r <= (f * rows + r) * cols) by (nonlinear_arith)
        requires
            0 <= f * rows + r,
            1 <= cols,
    ;
}

impl<T: Copy> Cube<T> {
    /// The value at `(x, y, t)`.
    pub fn get(&self, x: usize, y: usize, t: usize) -> (r: T)
        requires
            self.wf(),
            x < self.width,
            y < self.height,
            t < self.frames,
        ensures
            r == self.at(x as int, y as int, t as int),
    {
        self.lanes[x][y][t]
    }

    /// The time series of pixel `(x, y)`.
    pub fn lane(&self, x: usize, y: usize) -> (r: &Vec<T>)
        requires
            self.wf(),
            x < self.width,
            y < self.height,
        ensures
            r@.len() == self.frames,
            forall|t: int| 0 <= t < self.frames ==> #[trigger] r@[t] == self.at(x as int, y as int, t),
    {
        &self.lanes[x][y]
    }

    /// The plane through the cube along axes `a` (rows) and `b` (columns),
    /// held at index `at` of the remaining axis.
    pub fn plane(&self, a: usize, b: usize, at: usize) -> (r: Grid<T>)
        requires
            self.wf(),
            a < 3,
            b < 3,
            a != b,
            at < self.extent(3 - a - b),
        ensures
            r.wf(),
            r.nrows == self.extent(a as int),
            r.ncols == self.extent(b as int),
            forall|i: int, j: int|
                0 <= i < r.nrows && 0 <= j < r.ncols ==> #[trigger] r.at(i, j) == self.at(
                    plane_coord(a as int, b as int, at as int, i, j, 0),
                    plane_coord(a as int, b as int, at as int, i, j, 1),
                    plane_coord(a as int, b as int, at as int, i, j, 2),
                ),
    {
        let ext: [usize; 3] = [self.width, self.height, self.frames];
        let nr = ext[a];
        let nc = ext[b];
        let mut cells: Vec<Vec<T>> = Vec::new();
        let mut i: usize = 0;
        while i < nr
            invariant
                self.wf(),
                a < 3,
                b < 3,
                a != b,
                at < self.extent(3 - a - b),
                ext@ == seq![self.width, self.height, self.frames],
                nr == self.extent(a as int),
                nc == self.extent(b as int),
                i <= nr,
                cells@.len() == i,
                forall|u: int| 0 <= u < i ==> #[trigger] cells@[u]@.len() == nc,
                forall|u: int, v: int|
                    0 <= u < i && 0 <= v < nc ==> #[trigger] cells@[u]@[v] == self.at(
                        plane_coord(a as int, b as int, at as int, u, v, 0),
                        plane_coord(a as int, b as int, at as int, u, v, 1),
                        plane_coord(a as int, b as int, at as int, u, v, 2),
                    ),
            decreases nr - i,
        {
            let mut row: Vec<T> = Vec::new();
            let mut j: usize = 0;
            while j < nc
                invariant
                    self.wf(),
                    a < 3,
                    b < 3,
                    a != b,
                    at < self.extent(3 - a - b),
                    ext@ == seq![self.width, self.height, self.frames],
                    nr == self.extent(a as int),
                    nc == self.extent(b as int),
                    i < nr,
                    j <= nc,
                    row@.len() == j,
                    forall|v: int|
                        0 <= v < j ==> #[trigger] row@[v] == self.at(
                            plane_coord(a as int, b as int, at as int, i as int, v, 0),
                            plane_coord(a as int, b as int, at as int, i as int, v, 1),
                            plane_coord(a as int, b as int, at as int, i as int, v, 2),
                        ),
                decreases nc - j,
            {
                let mut c: [usize; 3] = [at, at, at];
                c[a] = i;
                c[b] = j;
                assert(c[0] == plane_coord(a as int, b as int, at as int, i as int, j as int, 0));
                assert(c[1] == plane_coord(a as int, b as int, at as int, i as int, j as int, 1));
                assert(c[2] == plane_coord(a as int, b as int, at as int, i as int, j as int, 2));
                row.push(self.lanes[c[0]][c[1]][c[2]]);
                j += 1;
            }
            cells.push(row);
            i += 1;
        }
        Grid { nrows: nr, ncols: nc, cells }
    }

    /// The plane through the cube along the result axes `axes` (rows,
    /// columns), held at `at` on the remaining cube axis; `None` when an
    /// axis has no cube axis, both name the same one, or `at` is outside.
    pub fn plane_along(&self, axes: [TTAxis; 2], at: usize) -> (r: Option<Grid<T>>)
        requires
            self.wf(),
        ensures
            r is Some <==> (cube_axis_spec(axes[0]) is Some && cube_axis_spec(axes[1]) is Some
                && cube_axis_spec(axes[0]) != cube_axis_spec(axes[1]) && at < self.extent(
                3 - cube_axis_spec(axes[0])->0 - cube_axis_spec(axes[1])->0,
            )),
            r matches Some(g) ==> {
                let a = cube_axis_spec(axes[0])->0;
                let b = cube_axis_spec(axes[1])->0;
                &&& g.wf()
                &&& g.nrows == self.extent(a)
                &&& g.ncols == self.extent(b)
                &&& forall|i: int, j: int|
                    0 <= i < g.nrows && 0 <= j < g.ncols ==> #[trigger] g.at(i, j) == self.at(
                        plane_coord(a, b, at as int, i, j, 0),
                        plane_coord(a, b, at as int, i, j, 1),
                        plane_coord(a, b, at as int, i, j, 2),
                    )
            },
    {
        match (cube_axis(axes[0]), cube_axis(axes[1])) {
            (Some(a), Some(b)) => {
                if a == b {
                    return None;
                }
                let ext: [usize; 3] = [self.width, self.height, self.frames];
                if at >= ext[3 - a - b] {
                    return None;
                }
                Some(self.plane(a, b, at))
            },
            _ => None,
        }
    }

    /// The values in storage order: lane by lane, `x` slowest, time fastest.
    pub fn to_storage(&self) -> (r: Vec<T>)
        requires
            self.wf(),
            self.width * self.height * self.frames <= usize::MAX,
        ensures
            r@.len() == self.width * self.height * self.frames,
            forall|x: int, y: int, t: int|
                0 <= x < self.width && 0 <= y < self.height && 0 <= t < self.frames ==> r@[file_index(
                    x,
                    y,
                    t,
                    self.height as int,
                    self.frames as int,
                )] == #[trigger] self.at(x, y, t),
    {
        let ghost h = self.height as int;
        let ghost f = self.frames as int;
        let mut out: Vec<T> = Vec::new();
        let mut x: usize = 0;
        assert(0 * h * f == 0) by (nonlinear_arith);
        while x < self.width
            invariant
                self.wf(),
                h == self.height,
                f == self.frames,
                x <= self.width,
                out@.len() == x * h * f,
                forall|a: int, b: int, t: int|
                    0 <= a < x && 0 <= b < h && 0 <= t < f ==> out@[file_index(a, b, t, h, f)]
                        == #[trigger] self.at(a, b, t),
            decreases self.width - x,
        {
            let mut y: usize = 0;
            while y < self.height
                invariant
                    self.wf(),
                    h == self.height,
                    f == self.frames,
                    x < self.width,
                    y <= self.height,
                    out@.len() == (x * h + y) * f,
                    forall|a: int, b: int, t: int|
                        0 <= a < x && 0 <= b < h && 0 <= t < f ==> out@[file_index(a, b, t, h, f)]
                            == #[trigger] self.at(a, b, t),
                    forall|b: int, t: int|
                        0 <= b < y && 0 <= t < f ==> out@[file_index(x as int, b, t, h, f)]
                            == #[trigger] self.at(x as int, b, t),
                decreases self.height - y,
            {
                let mut t: usize = 0;
                while t < self.frames
                    invariant
                        self.wf(),
                        h == self.height,
                        f == self.frames,
                        x < self.width,
                        y < self.height,
                        t <= self.frames,
                        out@.len() == (x * h + y) * f + t,
                        forall|a: int, b: int, u: int|
                            0 <= a < x && 0 <= b < h && 0 <= u < f ==> out@[file_index(a, b, u, h, f)]
                                == #[trigger] self.at(a, b, u),
                        forall|b: int, u: int|
                            0 <= b < y && 0 <= u < f ==> out@[file_index(x as int, b, u, h, f)]
                                == #[trigger] self.at(x as int, b, u),
                        forall|u: int|
                            0 <= u < t ==> out@[file_index(x as int, y as int, u, h, f)]
                                == #[trigger] self.at(x as int, y as int, u),
                    decreases self.frames - t,
                {
                    proof {
                        assert forall|a: int, b: int, u: int|
                            0 <= a < x && 0 <= b < h && 0 <= u < f implies file_index(a, b, u, h, f)
                            < out@.len() by {
                            lemma_file_index_bound(a, b, u, x as int, h, f);
                            assert(x * h * f <= (x * h + y) * f) by (nonlinear_arith)
                                requires
                                    0 <= y,
                                    0 <= f,
                                    0 <= x * h,
                            ;
                        }
                        assert forall|b: int, u: int|
                            0 <= b < y && 0 <= u < f implies file_index(x as int, b, u, h, f)
                            < out@.len() by {
                            assert(file_index(x as int, b, u, h, f) < (x * h + y) * f) by (
                            nonlinear_arith)
                                requires
                                    0 <= b < y,
                                    0 <= u < f,
                            ;
                        }
                    }
                    out.push(self.lanes[x][y][t]);
                    t += 1;
                }
                proof {
                    assert((x * h + y) * f + f == (x * h + y + 1) * f) by (nonlinear_arith);
                }
                y += 1;
            }
            proof {
                assert((x * h + h) * f == (x + 1) * h * f) by (nonlinear_arith);
                assert forall|a: int, b: int, t: int|
                    0 <= a < x + 1 && 0 <= b < h && 0 <= t < f implies out@[file_index(a, b, t, h, f)]
                    == #[trigger] self.at(a, b, t) by {
                    if a == x {
                        assert(self.at(x as int, b, t) == out@[file_index(x as int, b, t, h, f)]);
                    }
                }
            }
            x += 1;
        }
        out
    }

    /// A cube of extents `dims` (width, height, frames) from values in
    /// storage order. Every extent must be at least two.
    pub fn from_storage(values: &Vec<T>, dims: [usize; 3]) -> (r: Result<Cube<T>, ShapeError>)
        ensures
            dims[0] * dims[1] * dims[2] != values@.len() ==> r == Err::<Cube<T>, ShapeError>(
                ShapeError::CountMismatch,
            ),
            r is Ok <==> (dims[0] * dims[1] * dims[2] == values@.len() && dims[0] >= 2 && dims[1]
                >= 2 && dims[2] >= 2),
            r matches Ok(c) ==> {
                &&& c.wf()
                &&& c.width == dims[0] && c.height == dims[1] && c.frames == dims[2]
                &&& forall|x: int, y: int, t: int|
                    0 <= x < dims[0] && 0 <= y < dims[1] && 0 <= t < dims[2] ==> #[trigger] c.at(
                        x,
                        y,
                        t,
                    ) == values@[file_index(x, y, t, dims[1] as int, dims[2] as int)]
            },
    {
        let (w, h, f) = (dims[0], dims[1], dims[2]);
        let nvals = values.len();
        if h == 0 || f == 0 {
            proof {
                assert(w * h * f == 0) by (nonlinear_arith)
                    requires
                        h == 0 || f == 0,
                ;
            }
            if nvals != 0 {
                return Err(ShapeError::CountMismatch);
            }
            return Err(ShapeError::TooSmall);
        }
        let per: usize = match h.checked_mul(f) {
            Some(p) => p,
            None => {
                proof {
                    assert(w * h * f != nvals || w == 0) by (nonlinear_arith)
                        requires
                            h * f > usize::MAX,
                            nvals <= usize::MAX,
                    ;
                    if w == 0 {
                        assert(w * h * f == 0) by (nonlinear_arith)
                            requires
                                w == 0,
                        ;
                    }
                }
                if w == 0 && nvals == 0 {
                    return Err(ShapeError::TooSmall);
                }
                return Err(ShapeError::CountMismatch);
            },
        };
        proof {
            assert(h * f > 0) by (nonlinear_arith)
                requires
                    h >= 1,
                    f >= 1,
            ;
        }
        if nvals / per != w || nvals % per != 0 {
            proof {
                let p = per as int;
                assert(w * h * f == w * p) by (nonlinear_arith)
                    requires
                        p == h * f,
                ;
                if w * p == nvals {
                    assert((w * p) / p == w as int && (w * p) % p == 0) by (nonlinear_arith)
                        requires
                            p > 0,
                    ;
                }
            }
            return Err(ShapeError::CountMismatch);
        }
        proof {
            let n = nvals as int;
            let p = per as int;
            assert(n == w * p) by (nonlinear_arith)
                requires
                    p > 0,
                    n / p == w,
                    n % p == 0,
            ;
            assert(w * h * f == w * p) by (nonlinear_arith)
                requires
                    p == h * f,
            ;
        }
        if w < 2 || h < 2 || f < 2 {
            return Err(ShapeError::TooSmall);
        }
        let mut lanes: Vec<Vec<Vec<T>>> = Vec::new();
        let mut x: usize = 0;
        while x < w
            invariant
                x <= w,
                nvals == values@.len(),
                w * h * f == values@.len(),
                lanes@.len() == x,
                forall|a: int| 0 <= a < x ==> #[trigger] lanes@[a]@.len() == h,
                forall|a: int, b: int|
                    0 <= a < x && 0 <= b < h ==> #[trigger] lanes@[a]@[b]@.len() == f,
                forall|a: int, b: int, t: int|
                    0 <= a < x && 0 <= b < h && 0 <= t < f ==> #[trigger] lanes@[a]@[b]@[t]
                        == values@[file_index(a, b, t, h as int, f as int)],
            decreases w - x,
        {
            let mut column: Vec<Vec<T>> = Vec::new();
            let mut y: usize = 0;
            while y < h
                invariant
                    x < w,
                    y <= h,
                    nvals == values@.len(),
                    w * h * f == values@.len(),
                    column@.len() == y,
                    forall|b: int| 0 <= b < y ==> #[trigger] column@[b]@.len() == f,
                    forall|b: int, t: int|
                        0 <= b < y && 0 <= t < f ==> #[trigger] column@[b]@[t] == values@[file_index(
                            x as int,
                            b,
                            t,
                            h as int,
                            f as int,
                        )],
                decreases h - y,
            {
                let mut series: Vec<T> = Vec::new();
                let mut t: usize = 0;
                while t < f
                    invariant
                        x < w,
                        y < h,
                        t <= f,
                        nvals == values@.len(),
                        w * h * f == values@.len(),
                        series@.len() == t,
                        forall|u: int|
                            0 <= u < t ==> #[trigger] series@[u] == values@[file_index(
                                x as int,
                                y as int,
                                u,
                                h as int,
                                f as int,
                            )],
                    decreases f - t,
                {
                    proof {
                        lemma_file_index_bound(x as int, y as int, t as int, w as int, h as int, f as int);
                    }
                    let k: usize = (x * h + y) * f + t;
                    series.push(values[k]);
                    t += 1;
                }
                column.push(series);
                y += 1;
            }
            lanes.push(column);
            x += 1;
        }
        Ok(Cube { width: w, height: h, frames: f, lanes })
    }

    /// Builds a cube from values listed frame by frame, each frame row by row
    /// (`rows` = image height), each row column by column (`cols` = image
    /// width). The time axis is padded with `fill` up to `padded` frames when
    /// that is more than `frames`. Every extent must be at least two.
    pub fn from_frames(
        values: &Vec<T>,
        frames: usize,
        rows: usize,
        cols: usize,
        padded: usize,
        fill: T,
    ) -> (r: Result<Cube<T>, ShapeError>)
        ensures
            frames * rows * cols != values@.len() ==> r == Err::<Cube<T>, ShapeError>(
                ShapeError::CountMismatch,
            ),
            frames * rows * cols == values@.len() && (frames < 2 || rows < 2 || cols < 2) ==> r
                == Err::<Cube<T>, ShapeError>(ShapeError::TooSmall),
            r is Ok <==> (frames * rows * cols == values@.len() && frames >= 2 && rows >= 2 && cols
                >= 2),
            r matches Ok(c) ==> {
                &&& c.wf()
                &&& c.width == cols
                &&& c.height == rows
                &&& c.frames == if padded > frames {
                    padded
                } else {
                    frames
                }
                &&& forall|x: int, y: int, t: int|
                    0 <= x < cols && 0 <= y < rows && 0 <= t < c.frames ==> #[trigger] c.at(x, y, t)
                        == if t < frames {
                        values@[file_index(t, y, x, rows as int, cols as int)]
                    } else {
                        fill
                    }
            },
    {
        let nvals = values.len();
        if rows == 0 || cols == 0 {
            if nvals != 0 {
                proof {
                    assert(frames * rows * cols == 0) by (nonlinear_arith)
                        requires
                            rows == 0 || cols == 0,
                    ;
                }
                return Err(ShapeError::CountMismatch);
            }
            proof {
                assert(frames * rows * cols == 0) by (nonlinear_arith)
                    requires
                        rows == 0 || cols == 0,
                ;
            }
            return Err(ShapeError::TooSmall);
        }
        let per_frame: usize = match rows.checked_mul(cols) {
            Some(p) => p,
            None => {
                proof {
                    assert(frames * rows * cols != nvals || frames == 0) by (nonlinear_arith)
                        requires
                            rows * cols > usize::MAX,
                            nvals <= usize::MAX,
                    ;
                    if frames == 0 {
                        assert(frames * rows * cols == 0) by (nonlinear_arith)
                            requires
                                frames == 0,
                        ;
                        if values.len() == 0 {
                        }
                    }
                }
                if frames == 0 && values.len() == 0 {
                    return Err(ShapeError::TooSmall);
                }
                return Err(ShapeError::CountMismatch);
            },
        };
        proof {
            assert(rows * cols > 0) by (nonlinear_arith)
                requires
                    rows >= 1,
                    cols >= 1,
            ;
        }
        if nvals / per_frame != frames || nvals % per_frame != 0 {
            proof {
                let n = values@.len() as int;
                let p = per_frame as int;
                assert(frames * rows * cols == frames * p) by (nonlinear_arith)
                    requires
                        p == rows * cols,
                ;
                if frames * p == n {
                    assert((frames * p) / p == frames as int && (frames * p) % p == 0) by (
                    nonlinear_arith)
                        requires
                            p > 0,
                    ;
                }
            }
            return Err(ShapeError::CountMismatch);
        }
        proof {
            let n = values@.len() as int;
            let p = per_frame as int;
            assert(n == frames * p) by (nonlinear_arith)
                requires
                    p > 0,
                    n / p == frames,
                    n % p == 0,
            ;
            assert(frames * rows * cols == frames * p) by (nonlinear_arith)
                requires
                    p == rows * cols,
            ;
        }
        if frames < 2 || rows < 2 || cols < 2 {
            return Err(ShapeError::TooSmall);
        }
        let len = if padded > frames {
            padded
        } else {
            frames
        };
        let mut lanes: Vec<Vec<Vec<T>>> = Vec::new();
        let mut x: usize = 0;
        while x < cols
            invariant
                x <= cols,
                rows >= 2,
                nvals == values@.len(),
                frames * rows * cols == values@.len(),
                len == if padded > frames {
                    padded
                } else {
                    frames
                },
                lanes@.len() == x,
                forall|a: int| 0 <= a < x ==> #[trigger] lanes@[a]@.len() == rows,
                forall|a: int, b: int|
                    0 <= a < x && 0 <= b < rows ==> #[trigger] lanes@[a]@[b]@.len() == len,
                forall|a: int, b: int, t: int|
                    0 <= a < x && 0 <= b < rows && 0 <= t < len ==> #[trigger] lanes@[a]@[b]@[t]
                        == if t < frames {
                        values@[file_index(t, b, a, rows as int, cols as int)]
                    } else {
                        fill
                    },
            decreases cols - x,
        {
            let mut column: Vec<Vec<T>> = Vec::new();
            let mut y: usize = 0;
            while y < rows
                invariant
                    x < cols,
                    y <= rows,
                    nvals == values@.len(),
                    frames * rows * cols == values@.len(),
                    len == if padded > frames {
                        padded
                    } else {
                        frames
                    },
                    column@.len() == y,
                    forall|b: int| 0 <= b < y ==> #[trigger] column@[b]@.len() == len,
                    forall|b: int, t: int|
                        0 <= b < y && 0 <= t < len ==> #[trigger] column@[b]@[t] == if t < frames {
                            values@[file_index(t, b, x as int, rows as int, cols as int)]
                        } else {
                            fill
                        },
                decreases rows - y,
            {
                let mut series: Vec<T> = Vec::new();
                let mut t: usize = 0;
                while t < len
                    invariant
                        x < cols,
                        y < rows,
                        t <= len,
                        nvals == values@.len(),
                        frames * rows * cols == values@.len(),
                        len == if padded > frames {
                            padded
                        } else {
                            frames
                        },
                        series@.len() == t,
                        forall|u: int|
                            0 <= u < t ==> #[trigger] series@[u] == if u < frames {
                                values@[file_index(u, y as int, x as int, rows as int, cols as int)]
                            } else {
                                fill
                            },
                    decreases len - t,
                {
                    if t < frames {
                        proof {
                            lemma_file_index_bound(
                                t as int,
                                y as int,
                                x as int,
                                frames as int,
                                rows as int,
                                cols as int,
                            );
                        }
                        let k: usize = (t * rows + y) * cols + x;
                        series.push(values[k]);
                    } else {
                        series.push(fill);
                    }
                    t += 1;
                }
                column.push(series);
                y += 1;
            }
            lanes.push(column);
            x += 1;
        }
        Ok(Cube { width: cols, height: rows, frames: len, lanes })
    }
}

} // verus!
