//! Which samples a 2-D slice through the (x, y, time, scale) space is made
//! of: one range per axis, two of them free, and the coordinates of every
//! cell of the slice.

use vstd::prelude::*;

use crate::geometry::{axis_index, TTAxis};
use crate::view::GlobalSettings;

verus! {

/// A slice through (x, y, time, scale): per axis, in that order, a start and
/// a length; the two shown axes run over their range, the others have length
/// one. `extents` bounds each axis.
#[derive(Clone, Copy, Debug)]
pub struct SlicePlan {
    pub axes: [TTAxis; 2],
    pub starts: [usize; 4],
    pub lens: [usize; 4],
    pub extents: [usize; 4],
}

/// Whether the axis at position `k` of (x, y, time, scale) is shown.
pub open spec fn shown(axes: [TTAxis; 2], k: int) -> bool {
    axis_index(axes[0]) == k || axis_index(axes[1]) == k
}

/// A pair of shown axes that a slice of (x, y, time, scale) can have.
pub open spec fn valid_axes(axes: [TTAxis; 2]) -> bool {
    axes[0] != axes[1] && axes[0] != TTAxis::F && axes[1] != TTAxis::F
}

/// The range that axis `k` of a slice asks for: the region of interest or
/// the whole extent along a shown axis, the single position along a held one.
pub open spec fn wanted_range(
    axes: [TTAxis; 2],
    k: int,
    position: [usize; 5],
    settings: GlobalSettings,
    extent: int,
) -> (int, int) {
    if shown(axes, k) {
        if settings.roi_zoom {
            (settings.roi_min[k] as int, settings.roi_max[k] as int)
        } else {
            (0, extent)
        }
    } else {
        (position[k] as int, position[k] + 1)
    }
}

/// The extents of (x, y, time, scale) for a cube of `shape` and `scales`
/// wavelet scales.
pub open spec fn extents_of(shape: [usize; 3], scales: usize) -> Seq<int> {
    seq![shape[0] as int, shape[1] as int, shape[2] as int, scales as int]
}

/// A slice can be taken: the shown axes are a valid pair and every wanted
/// range is non-empty and inside its extent.
pub open spec fn slice_possible(
    axes: [TTAxis; 2],
    position: [usize; 5],
    settings: GlobalSettings,
    shape: [usize; 3],
    scales: usize,
) -> bool {
    &&& valid_axes(axes)
    &&& forall|k: int|
        0 <= k < 4 ==> #[trigger] axis_fits(axes, k, position, settings, shape, scales)
}

/// The wanted range of axis `k` is non-empty and inside its extent.
pub open spec fn axis_fits(
    axes: [TTAxis; 2],
    k: int,
    position: [usize; 5],
    settings: GlobalSettings,
    shape: [usize; 3],
    scales: usize,
) -> bool {
    let e = extents_of(shape, scales)[k];
    let r = wanted_range(axes, k, position, settings, e);
    0 <= r.0 < r.1 <= e
}

/// Axis `k` of plan `p` is the wanted range, inside the extent of the cube.
pub open spec fn axis_planned(
    p: SlicePlan,
    k: int,
    position: [usize; 5],
    settings: GlobalSettings,
    shape: [usize; 3],
    scales: usize,
) -> bool {
    let e = extents_of(shape, scales)[k];
    let w = wanted_range(p.axes, k, position, settings, e);
    &&& p.starts[k] == w.0
    &&& p.starts[k] + p.lens[k] == w.1
    &&& p.extents[k] == e
}

impl SlicePlan {
    pub open spec fn wf(&self) -> bool {
        &&& valid_axes(self.axes)
        &&& forall|k: int| 0 <= k < 4 ==> #[trigger] self.axis_wf(k)
    }

    /// Axis `k` has a non-empty range inside its extent, of length one when
    /// the axis is held.
    pub open spec fn axis_wf(&self, k: int) -> bool {
        &&& self.lens[k] >= 1
        &&& self.starts[k] + self.lens[k] <= self.extents[k]
        &&& !shown(self.axes, k) ==> self.lens[k] == 1
    }

    /// The position of the axis shown along the rows.
    pub open spec fn row_axis(&self) -> int {
        axis_index(self.axes[0]) as int
    }

    /// The position of the axis shown along the columns.
    pub open spec fn col_axis(&self) -> int {
        axis_index(self.axes[1]) as int
    }

    /// The coordinate along axis `k` of the cell in row `i` and column `j`.
    pub open spec fn cell_spec(&self, i: int, j: int, k: int) -> int {
        self.starts[k] + if k == self.row_axis() {
            i
        } else if k == self.col_axis() {
            j
        } else {
            0
        }
    }

    /// The number of rows: the length along the first shown axis.
    pub fn rows(&self) -> (r: usize)
        requires
            self.wf(),
        ensures
            r == self.lens[self.row_axis()],
    {
        self.lens[self.axes[0].index()]
    }

    /// The number of columns: the length along the second shown axis.
    pub fn cols(&self) -> (r: usize)
        requires
            self.wf(),
        ensures
            r == self.lens[self.col_axis()],
    {
        self.lens[self.axes[1].index()]
    }

    /// The (x, y, time, scale) coordinates of the cell in row `i` and
    /// column `j`; each lies inside its extent.
    pub fn cell(&self, i: usize, j: usize) -> (r: [usize; 4])
        requires
            self.wf(),
            i < self.lens[self.row_axis()],
            j < self.lens[self.col_axis()],
        ensures
            forall|k: int|
                0 <= k < 4 ==> r[k] == self.cell_spec(i as int, j as int, k) && r[k]
                    < self.extents[k],
    {
        let a = self.axes[0].index();
        let b = self.axes[1].index();
        proof {
            assert(self.axis_wf(a as int));
            assert(self.axis_wf(b as int));
        }
        let mut r: [usize; 4] = self.starts;
        r[a] = self.starts[a] + i;
        r[b] = self.starts[b] + j;
        assert forall|k: int| 0 <= k < 4 implies r[k] == self.cell_spec(i as int, j as int, k)
            && r[k] < self.extents[k] by {
            assert(self.axis_wf(k));
        }
        r
    }

    /// The scales that the slice reads, as a half-open range: the wavelet
    /// models of these scales must be at hand before the slice is computed.
    pub fn scale_range(&self) -> (r: (usize, usize))
        requires
            self.wf(),
        ensures
            r.0 == self.starts[3],
            r.1 == self.starts[3] + self.lens[3],
            r.1 <= self.extents[3],
    {
        assert(self.axis_wf(3));
        (self.starts[3], self.starts[3] + self.lens[3])
    }
}

/// The range of one axis, as a start and a length, when it is non-empty and
/// inside `extent`.
fn axis_range(
    axes: [TTAxis; 2],
    k: usize,
    position: [usize; 5],
    settings: &GlobalSettings,
    extent: usize,
) -> (r: Option<(usize, usize)>)
    requires
        k < 4,
    ensures
        ({
            let w = wanted_range(axes, k as int, position, *settings, extent as int);
            &&& r is Some <==> (0 <= w.0 < w.1 <= extent)
            &&& r is Some ==> (r->0).0 == w.0 && (r->0).0 + (r->0).1 == w.1
        }),
{
    let shown_k = axes[0].index() == k || axes[1].index() == k;
    if shown_k {
        if settings.roi_zoom {
            let lo = settings.roi_min[k];
            let hi = settings.roi_max[k];
            if lo < hi && hi <= extent {
                Some((lo, hi - lo))
            } else {
                None
            }
        } else if 0 < extent {
            Some((0, extent))
        } else {
            None
        }
    } else {
        let p = position[k];
        if p < extent {
            Some((p, 1))
        } else {
            None
        }
    }
}

/// Plans the slice with shown `axes` through a cube of `shape` (width,
/// height, frames) and `scales` wavelet scales, at `position` along the held
/// axes and over the region of interest when the settings zoom to it.
/// `None` when no such slice can be taken.
pub fn plan_slice(
    axes: [TTAxis; 2],
    position: [usize; 5],
    settings: &GlobalSettings,
    shape: [usize; 3],
    scales: usize,
) -> (r: Option<SlicePlan>)
    ensures
        r is Some <==> slice_possible(axes, position, *settings, shape, scales),
        r is Some ==> ({
            let p = r->0;
            &&& p.wf()
            &&& p.axes == axes
            &&& forall|k: int|
                0 <= k < 4 ==> #[trigger] axis_planned(p, k, position, *settings, shape, scales)
        }),
{
    let ext: [usize; 4] = [shape[0], shape[1], shape[2], scales];
    if axes[0] == axes[1] || axes[0] == TTAxis::F || axes[1] == TTAxis::F {
        return None;
    }
    let rx = axis_range(axes, 0, position, settings, ext[0]);
    let ry = axis_range(axes, 1, position, settings, ext[1]);
    let rt = axis_range(axes, 2, position, settings, ext[2]);
    let rs = axis_range(axes, 3, position, settings, ext[3]);
    match (rx, ry, rt, rs) {
        (Some(x), Some(y), Some(t), Some(s)) => {
            let p = SlicePlan {
                axes,
                starts: [x.0, y.0, t.0, s.0],
                lens: [x.1, y.1, t.1, s.1],
                extents: ext,
            };
            assert forall|k: int| 0 <= k < 4 implies #[trigger] axis_planned(
                p,
                k,
                position,
                *settings,
                shape,
                scales,
            ) && axis_fits(axes, k, position, *settings, shape, scales) by {
                if k == 0 {
                } else if k == 1 {
                } else if k == 2 {
                } else {
                }
            }
            Some(p)
        },
        _ => {
            proof {
                if rx is None {
                    assert(!axis_fits(axes, 0, position, *settings, shape, scales));
                } else if ry is None {
                    assert(!axis_fits(axes, 1, position, *settings, shape, scales));
                } else if rt is None {
                    assert(!axis_fits(axes, 2, position, *settings, shape, scales));
                } else {
                    assert(!axis_fits(axes, 3, position, *settings, shape, scales));
                }
            }
            None
        },
    }
}

} // verus!
