//! The parameters of one view and the settings that all views share.

use vstd::prelude::*;

use crate::geometry::{
    axis_index,
    mode_count,
    settings_axes_spec,
    view_axes_spec,
    ComplexResultMode,
    TTAxis,
    ViewModeDomain,
};
use crate::wavelet::WaveletType;

verus! {

/// What a click in a view selects.
#[derive(Clone, Copy, Debug, PartialEq, Eq, Structural)]
pub enum SelectMode {
    RoiMin,
    RoiMax,
    Crossection,
}

/// The parameters of one view: its domain and axis pair, the position of the
/// held axes, and how values are shown.
#[derive(Clone, Copy, Debug)]
pub struct ViewMode {
    pub domain: ViewModeDomain,
    pub position: [usize; 5],
    pub bind_position: bool,
    pub mode_counter: usize,
    pub wavelet: WaveletType,
    pub display_mode: ComplexResultMode,
    pub denoise: bool,
}

impl ViewMode {
    /// The axis-pair counter names a mode of the domain.
    pub open spec fn wf(&self) -> bool {
        self.mode_counter < mode_count(self.domain)
    }

    pub fn new(domain: ViewModeDomain, wavelet: WaveletType, display_mode: ComplexResultMode) -> (r:
        Self)
        ensures
            r.wf(),
            r.domain == domain,
            r.wavelet == wavelet,
            r.display_mode == display_mode,
            r.mode_counter == 0,
            r.position@ == seq![0usize, 0, 0, 0, 0],
            !r.bind_position,
            !r.denoise,
    {
        let r = ViewMode {
            domain,
            position: [0, 0, 0, 0, 0],
            bind_position: false,
            mode_counter: 0,
            wavelet,
            display_mode,
            denoise: false,
        };
        assert(r.position@ =~= seq![0usize, 0, 0, 0, 0]);
        r
    }

    /// The two axes the view shows.
    pub fn get_view_axes(&self) -> (r: [TTAxis; 2])
        requires
            self.wf(),
        ensures
            r[0] == view_axes_spec(self.domain, self.mode_counter as nat).0,
            r[1] == view_axes_spec(self.domain, self.mode_counter as nat).1,
    {
        self.domain.view_axes(self.mode_counter)
    }

    /// The axes the view holds at its position.
    pub fn get_settings_axes(&self) -> (r: Vec<TTAxis>)
        requires
            self.wf(),
        ensures
            r@ == settings_axes_spec(self.domain, self.mode_counter as nat),
    {
        self.domain.settings_axes(self.mode_counter)
    }

    /// Moves on to the next axis pair of the domain, wrapping around.
    pub fn next_mode(&mut self)
        requires
            old(self).wf(),
        ensures
            final(self).wf(),
            final(self).mode_counter == (old(self).mode_counter + 1) % (mode_count(
                old(self).domain,
            ) as int),
            final(self).domain == old(self).domain,
            final(self).position == old(self).position,
    {
        let n = self.domain.mode_count();
        self.mode_counter = (self.mode_counter + 1) % n;
    }

    /// Switches the domain, keeping the axis-pair counter where the new
    /// domain has it and wrapping it otherwise.
    pub fn set_domain(&mut self, domain: ViewModeDomain)
        ensures
            final(self).wf(),
            final(self).domain == domain,
            final(self).mode_counter == (old(self).mode_counter as int) % (mode_count(domain) as int),
            final(self).position == old(self).position,
    {
        self.domain = domain;
        self.mode_counter = self.mode_counter % domain.mode_count();
    }
}

/// Position `pos` differs from `cross` along axis `a`.
pub open spec fn moved_along(pos: [usize; 5], cross: [usize; 5], a: TTAxis) -> bool {
    pos[axis_index(a) as int] != cross[axis_index(a) as int]
}

impl ViewMode {
    /// The setting shown for the position along `axis`: scales count from
    /// one for display, other axes from zero; the range ends at the extent
    /// given by `full_size`.
    pub fn position_control(&self, axis: TTAxis, full_size: [usize; 5]) -> (r: RangedVal)
        requires
            self.position[axis_index(axis) as int] < usize::MAX,
            full_size[axis_index(axis) as int] < usize::MAX,
        ensures
            ({
                let k = axis_index(axis) as int;
                if axis == TTAxis::S {
                    r == (RangedVal {
                        val: (self.position[k] + 1) as usize,
                        min: 1,
                        max: (full_size[k] + 1) as usize,
                    })
                } else {
                    r == (RangedVal { val: self.position[k], min: 0, max: full_size[k] })
                }
            }),
    {
        let k = axis.index();
        if axis == TTAxis::S {
            RangedVal { val: self.position[k] + 1, min: 1, max: full_size[k] + 1 }
        } else {
            RangedVal { val: self.position[k], min: 0, max: full_size[k] }
        }
    }

    /// Takes the value of a position setting back (scales counted from one).
    pub fn set_position(&mut self, axis: TTAxis, val: usize)
        requires
            axis == TTAxis::S ==> val >= 1,
        ensures
            final(self).position@ == old(self).position@.update(
                axis_index(axis) as int,
                if axis == TTAxis::S {
                    (val - 1) as usize
                } else {
                    val
                },
            ),
            final(self).domain == old(self).domain,
            final(self).mode_counter == old(self).mode_counter,
    {
        let k = axis.index();
        self.position[k] = if axis == TTAxis::S {
            val - 1
        } else {
            val
        };
        assert(self.position@ =~= old(self).position@.update(
            k as int,
            if axis == TTAxis::S {
                (val - 1) as usize
            } else {
                val
            },
        ));
    }

    /// Moves a view bound to the shared cross section there; `true` when
    /// that changes the position along one of its held axes.
    pub fn follow_crossection(&mut self, cross: [usize; 5]) -> (r: bool)
        requires
            old(self).wf(),
        ensures
            final(self).position == cross,
            final(self).domain == old(self).domain,
            final(self).mode_counter == old(self).mode_counter,
            r == exists|j: int|
                0 <= j < settings_axes_spec(old(self).domain, old(self).mode_counter as nat).len()
                    && moved_along(
                    old(self).position,
                    cross,
                    #[trigger] settings_axes_spec(old(self).domain, old(self).mode_counter as nat)[j],
                ),
    {
        let held = self.get_settings_axes();
        let mut moved = false;
        let mut j: usize = 0;
        while j < held.len()
            invariant
                j <= held@.len(),
                held@ == settings_axes_spec(self.domain, self.mode_counter as nat),
                self == old(self),
                moved == exists|i: int|
                    0 <= i < j && moved_along(self.position, cross, #[trigger] held@[i]),
            decreases held@.len() - j,
        {
            let k = held[j].index();
            if self.position[k] != cross[k] {
                moved = true;
            }
            proof {
                if moved_along(self.position, cross, held@[j as int]) {
                    assert(0 <= j < j + 1 && moved_along(self.position, cross, held@[j as int]));
                }
            }
            j += 1;
        }
        assert(forall|i: int|
            0 <= i < held@.len() ==> #[trigger] held@[i] == settings_axes_spec(
                self.domain,
                self.mode_counter as nat,
            )[i]);
        self.position = cross;
        moved
    }
}

/// Settings shared by all views: the region of interest, the shared cross
/// section and the extents of the loaded data.
#[derive(Clone, Copy, Debug)]
pub struct GlobalSettings {
    pub roi_min: [usize; 5],
    pub roi_max: [usize; 5],
    pub crossection: [usize; 5],
    pub full_size: [usize; 5],
    pub roi_zoom: bool,
    pub select_mode: SelectMode,
    pub roi_changed: bool,
}

/// `v` held below `extent` (at zero when the extent is zero).
pub open spec fn held_below(v: int, extent: int) -> int {
    if extent == 0 {
        0
    } else if v > extent - 1 {
        extent - 1
    } else {
        v
    }
}

pub open spec fn min(a: int, b: int) -> int {
    if a < b {
        a
    } else {
        b
    }
}

pub open spec fn max(a: int, b: int) -> int {
    if a > b {
        a
    } else {
        b
    }
}

/// `⌊7·s/8⌋`, the upper end of the default region of interest.
pub open spec fn seven_eighths(s: int) -> int {
    (7 * s) / 8
}

fn seven_eighths_of(s: usize) -> (r: usize)
    ensures
        r == seven_eighths(s as int),
{
    let q = s / 8;
    let m = s % 8;
    assert(7 * (s as int) == 8 * (7 * q as int) + 7 * m as int);
    assert((7 * (s as int)) / 8 == 7 * q as int + (7 * m as int) / 8) by {
        assert(0 <= 7 * m < 56);
        let a = 7 * (s as int);
        let b = 7 * q as int;
        let c = 7 * m as int;
        assert(a == 8 * b + c);
        assert((8 * b + c) / 8 == b + c / 8) by (nonlinear_arith)
            requires
                0 <= c,
        ;
    }
    assert(7 * q <= s) by {
        assert(8 * q <= s);
    }
    7 * q + (7 * m) / 8
}

impl GlobalSettings {
    pub fn new() -> (r: Self)
        ensures
            r.roi_min@ == seq![0usize, 0, 0, 0, 0],
            r.roi_max@ == seq![0usize, 0, 0, 0, 0],
            r.crossection@ == seq![0usize, 0, 0, 0, 0],
            r.full_size@ == seq![0usize, 0, 0, 0, 0],
            !r.roi_zoom,
            r.select_mode == SelectMode::Crossection,
            !r.roi_changed,
    {
        let r = GlobalSettings {
            roi_min: [0, 0, 0, 0, 0],
            roi_max: [0, 0, 0, 0, 0],
            crossection: [0, 0, 0, 0, 0],
            full_size: [0, 0, 0, 0, 0],
            roi_zoom: false,
            select_mode: SelectMode::Crossection,
            roi_changed: false,
        };
        assert(r.roi_min@ =~= seq![0usize, 0, 0, 0, 0]);
        assert(r.roi_max@ =~= seq![0usize, 0, 0, 0, 0]);
        assert(r.crossection@ =~= seq![0usize, 0, 0, 0, 0]);
        assert(r.full_size@ =~= seq![0usize, 0, 0, 0, 0]);
        r
    }

    /// Sets the pending-change flag to `set` and returns what it was.
    pub fn changed(&mut self, set: bool) -> (r: bool)
        ensures
            r == old(self).roi_changed,
            final(self).roi_changed == set,
            final(self).roi_min == old(self).roi_min,
            final(self).roi_max == old(self).roi_max,
            final(self).crossection == old(self).crossection,
            final(self).full_size == old(self).full_size,
            final(self).roi_zoom == old(self).roi_zoom,
            final(self).select_mode == old(self).select_mode,
    {
        let r = self.roi_changed;
        self.roi_changed = set;
        r
    }

    /// The region of interest along `axis`, as a half-open range.
    pub fn get_roi(&self, axis: TTAxis) -> (r: (usize, usize))
        ensures
            r.0 == self.roi_min[axis_index(axis) as int],
            r.1 == self.roi_max[axis_index(axis) as int],
    {
        let k = axis.index();
        (self.roi_min[k], self.roi_max[k])
    }

    /// Applies a selection at data coordinates `(x, y)` of a view showing
    /// `axes`: each coordinate is held below the extent along its axis; in
    /// cross-section mode the cross section moves there, otherwise the
    /// point becomes the chosen corner of the region of interest, the other
    /// corner staying, and the region is put back in order. The pending-change
    /// flag is raised.
    pub fn select(&mut self, axes: [TTAxis; 2], x: usize, y: usize)
        requires
            axes[0] != axes[1],
        ensures
            ({
                let a = axis_index(axes[0]) as int;
                let b = axis_index(axes[1]) as int;
                let nx = held_below(x as int, old(self).full_size[a] as int);
                let ny = held_below(y as int, old(self).full_size[b] as int);
                &&& final(self).roi_changed
                &&& final(self).full_size == old(self).full_size
                &&& final(self).roi_zoom == old(self).roi_zoom
                &&& final(self).select_mode == old(self).select_mode
                &&& old(self).select_mode == SelectMode::Crossection ==> {
                    &&& final(self).crossection@ == old(self).crossection@.update(a, nx as usize).update(
                        b,
                        ny as usize,
                    )
                    &&& final(self).roi_min == old(self).roi_min
                    &&& final(self).roi_max == old(self).roi_max
                }
                &&& old(self).select_mode != SelectMode::Crossection ==> {
                    let ox = if old(self).select_mode == SelectMode::RoiMax {
                        old(self).roi_min[a] as int
                    } else {
                        old(self).roi_max[a] as int
                    };
                    let oy = if old(self).select_mode == SelectMode::RoiMax {
                        old(self).roi_min[b] as int
                    } else {
                        old(self).roi_max[b] as int
                    };
                    &&& final(self).crossection == old(self).crossection
                    &&& final(self).roi_min@ == old(self).roi_min@.update(a, min(nx, ox) as usize).update(
                        b,
                        min(ny, oy) as usize,
                    )
                    &&& final(self).roi_max@ == old(self).roi_max@.update(a, max(nx, ox) as usize).update(
                        b,
                        max(ny, oy) as usize,
                    )
                }
            }),
    {
        let a = axes[0].index();
        let b = axes[1].index();
        let fx = self.full_size[a];
        let fy = self.full_size[b];
        let nx = if fx == 0 {
            0
        } else if x > fx - 1 {
            fx - 1
        } else {
            x
        };
        let ny = if fy == 0 {
            0
        } else if y > fy - 1 {
            fy - 1
        } else {
            y
        };
        if self.select_mode == SelectMode::Crossection {
            self.crossection[a] = nx;
            self.crossection[b] = ny;
        } else {
            let (ox, oy) = if self.select_mode == SelectMode::RoiMax {
                (self.roi_min[a], self.roi_min[b])
            } else {
                (self.roi_max[a], self.roi_max[b])
            };
            self.roi_min[a] = if nx < ox {
                nx
            } else {
                ox
            };
            self.roi_min[b] = if ny < oy {
                ny
            } else {
                oy
            };
            self.roi_max[a] = if nx > ox {
                nx
            } else {
                ox
            };
            self.roi_max[b] = if ny > oy {
                ny
            } else {
                oy
            };
        }
        self.roi_changed = true;
        assert(self.crossection@ =~= old(self).crossection@.update(a as int, nx).update(b as int, ny)
            || old(self).select_mode != SelectMode::Crossection);
        assert(self.roi_min@ =~= old(self).roi_min@ || old(self).select_mode
            != SelectMode::Crossection);
    }

    /// Adapts the settings to newly loaded data of the given extents: the
    /// last index along each axis (scales run over the frames, frequencies
    /// over the one-sided spectrum), a region of interest from one eighth to
    /// seven eighths of it, and the cross section at the origin.
    pub fn fit_to_input(&mut self, width: usize, height: usize, frames: usize)
        requires
            width >= 1,
            height >= 1,
            frames >= 1,
        ensures
            final(self).full_size@ == seq![
                (width - 1) as usize,
                (height - 1) as usize,
                (frames - 1) as usize,
                (frames - 1) as usize,
                frames / 2,
            ],
            forall|k: int|
                0 <= k < 5 ==> final(self).roi_min[k] == final(self).full_size[k] / 8
                    && final(self).roi_max[k] == seven_eighths(final(self).full_size[k] as int),
            final(self).crossection@ == seq![0usize, 0, 0, 0, 0],
            final(self).roi_zoom == old(self).roi_zoom,
            final(self).select_mode == old(self).select_mode,
            final(self).roi_changed == old(self).roi_changed,
    {
        let size: [usize; 5] = [width - 1, height - 1, frames - 1, frames - 1, frames / 2];
        let lo: [usize; 5] = [size[0] / 8, size[1] / 8, size[2] / 8, size[3] / 8, size[4] / 8];
        let hi: [usize; 5] = [
            seven_eighths_of(size[0]),
            seven_eighths_of(size[1]),
            seven_eighths_of(size[2]),
            seven_eighths_of(size[3]),
            seven_eighths_of(size[4]),
        ];
        self.full_size = size;
        self.roi_min = lo;
        self.roi_max = hi;
        self.crossection = [0, 0, 0, 0, 0];
        assert(self.full_size@ =~= seq![
            (width - 1) as usize,
            (height - 1) as usize,
            (frames - 1) as usize,
            (frames - 1) as usize,
            frames / 2,
        ]);
        assert(self.crossection@ =~= seq![0usize, 0, 0, 0, 0]);
    }
}

/// How a wavelet-transform value is shown.
#[derive(Clone, Copy, Debug, PartialEq, Eq, Structural)]
pub enum WtResultMode {
    Phase,
    Magnitude,
    Real,
    Imaginary,
}

/// An integer setting with the range it may take.
#[derive(Clone, Copy, Debug, PartialEq, Eq, Structural)]
pub struct RangedVal {
    pub val: usize,
    pub min: usize,
    pub max: usize,
}

impl RangedVal {
    pub open spec fn wf(&self) -> bool {
        self.min <= self.val <= self.max
    }

    /// Sets the value, held inside the range.
    pub fn set(&mut self, v: usize)
        requires
            old(self).min <= old(self).max,
        ensures
            final(self).min == old(self).min,
            final(self).max == old(self).max,
            final(self).val == if v < old(self).min {
                old(self).min
            } else if v > old(self).max {
                old(self).max
            } else {
                v
            },
            final(self).wf(),
    {
        self.val = if v < self.min {
            self.min
        } else if v > self.max {
            self.max
        } else {
            v
        };
    }
}

impl Default for RangedVal {
    fn default() -> (r: Self)
        ensures
            r == (RangedVal { val: 0, min: 0, max: 100 }),
    {
        RangedVal { val: 0, min: 0, max: 100 }
    }
}

/// Which kind of view a view parameter set describes.
#[derive(Clone, Copy, Debug, PartialEq, Eq, Structural)]
pub enum ViewKind {
    TransformView,
    TimeView,
}

/// The parameters of a view: a transform view at a scale and time, or a time
/// view at a time.
#[derive(Clone, Copy, Debug, PartialEq, Eq, Structural)]
pub enum TTViewParams {
    TransformView { scale: RangedVal, time: RangedVal, wavelet: WaveletType, mode: WtResultMode },
    TimeView { time: RangedVal },
}

impl TTViewParams {
    /// The ranges hold their values; scales count from one; the frame count
    /// that the ranges imply is a machine integer.
    pub open spec fn wf(&self) -> bool {
        match *self {
            TTViewParams::TransformView { scale, time, .. } => scale.wf() && time.wf() && scale.min
                >= 1,
            TTViewParams::TimeView { time } => time.wf() && time.max < usize::MAX,
        }
    }

    /// The number of frames the parameters were made for.
    pub open spec fn frames(&self) -> int {
        match *self {
            TTViewParams::TransformView { scale, .. } => scale.max as int,
            TTViewParams::TimeView { time } => time.max + 1,
        }
    }

    /// The kind of view.
    pub fn kind(&self) -> (r: ViewKind)
        ensures
            r == ViewKind::TimeView <==> self is TimeView,
    {
        match self {
            TTViewParams::TransformView { .. } => ViewKind::TransformView,
            TTViewParams::TimeView { .. } => ViewKind::TimeView,
        }
    }

    /// Switches to a view of `kind` for the same number of frames, with every
    /// setting at the start of its range: time from frame zero, scales from
    /// one up to the frame count, the first wavelet, phase shown.
    pub fn update(&mut self, kind: ViewKind)
        requires
            old(self).wf(),
        ensures
            final(self).wf(),
            final(self).frames() == old(self).frames(),
            kind == ViewKind::TimeView ==> *final(self) == (TTViewParams::TimeView {
                time: (RangedVal { val: 0, min: 0, max: (old(self).frames() - 1) as usize }),
            }),
            kind == ViewKind::TransformView ==> *final(self) == (TTViewParams::TransformView {
                time: (RangedVal { val: 0, min: 0, max: (old(self).frames() - 1) as usize }),
                scale: (RangedVal { val: 1, min: 1, max: old(self).frames() as usize }),
                wavelet: WaveletType::Morlet,
                mode: WtResultMode::Phase,
            }),
    {
        let frames: usize = match *self {
            TTViewParams::TransformView { scale, .. } => scale.max,
            TTViewParams::TimeView { time } => time.max + 1,
        };
        match kind {
            ViewKind::TimeView => {
                *self = TTViewParams::TimeView { time: RangedVal { val: 0, min: 0, max: frames - 1 } };
            },
            ViewKind::TransformView => {
                *self = TTViewParams::TransformView {
                    time: RangedVal { val: 0, min: 0, max: frames - 1 },
                    scale: RangedVal { val: 1, min: 1, max: frames },
                    wavelet: WaveletType::Morlet,
                    mode: WtResultMode::Phase,
                };
            },
        }
    }
}

/// The state of a view's published image, shared by the consumer (who asks
/// for a new image) and the worker (who makes it).
#[derive(Clone, Copy, Debug, PartialEq, Eq, Structural)]
pub enum TTViewState {
    /// The published image matches the view parameters.
    Valid,
    /// The worker is making a new image.
    Processing,
    /// The parameters changed; a new image is wanted.
    Changed,
    /// No image can be made (no data).
    Invalid,
}

impl TTViewState {
    /// The worker takes a wanted image on (compare-and-swap from `Changed`
    /// to `Processing`); `true` when it did.
    pub fn try_claim(&mut self) -> (r: bool)
        ensures
            r == (*old(self) == TTViewState::Changed),
            r ==> *final(self) == TTViewState::Processing,
            !r ==> *final(self) == *old(self),
    {
        if *self == TTViewState::Changed {
            *self = TTViewState::Processing;
            true
        } else {
            false
        }
    }

    /// The worker published the image it made (compare-and-swap from
    /// `Processing` to `Valid`). When the parameters changed meanwhile, the
    /// state stays as the consumer left it and a new image will be made.
    pub fn publish(&mut self)
        ensures
            *old(self) == TTViewState::Processing ==> *final(self) == TTViewState::Valid,
            *old(self) != TTViewState::Processing ==> *final(self) == *old(self),
    {
        if *self == TTViewState::Processing {
            *self = TTViewState::Valid;
        }
    }
}

/// Whether the values of a view along each row are shown relative to the
/// row's own mean and spread: for views that mix an image axis with a time
/// or scale axis.
pub open spec fn normalizes_rows_spec(axes: [TTAxis; 2]) -> bool {
    (axes[0] == TTAxis::X) != (axes[1] == TTAxis::Y)
}

pub fn normalizes_rows(axes: [TTAxis; 2]) -> (r: bool)
    ensures
        r == normalizes_rows_spec(axes),
{
    (axes[0] == TTAxis::X) != (axes[1] == TTAxis::Y)
}

/// The index of quantile `q` of 32 among `len` sorted values: the nearest
/// index to `q · (len − 1) / 32`, halves rounded up.
pub open spec fn quantile_index_spec(len: int, q: int) -> int {
    ((len - 1) * q + 16) / 32
}

/// The index of quantile `q` (0 to 32) among `len` sorted values; it is a
/// valid index.
pub fn quantile_index(len: usize, q: usize) -> (r: usize)
    requires
        len >= 1,
        q <= 32,
    ensures
        r == quantile_index_spec(len as int, q as int),
        r < len,
{
    let n = len - 1;
    let hi = n / 32;
    let lo = n % 32;
    proof {
        let a = hi as int;
        let b = lo as int;
        let qq = q as int;
        assert(n as int == 32 * a + b);
        assert((n as int) * qq + 16 == 32 * (a * qq) + (b * qq + 16)) by (nonlinear_arith)
            requires
                n as int == 32 * a + b,
        ;
        assert((32 * (a * qq) + (b * qq + 16)) / 32 == a * qq + (b * qq + 16) / 32) by (
        nonlinear_arith)
            requires
                0 <= b * qq + 16,
        ;
        assert(a * qq <= a * 32) by (nonlinear_arith)
            requires
                0 <= a,
                qq <= 32,
        ;
        assert(b * qq <= b * 32) by (nonlinear_arith)
            requires
                0 <= b,
                qq <= 32,
        ;
        assert(((n as int) * qq + 16) / 32 <= n as int) by (nonlinear_arith)
            requires
                0 <= qq <= 32,
                n >= 0,
        ;
    }
    hi * q + (lo * q + 16) / 32
}

/// The rows `r0..=r1` and columns `c0..=c1` of the region of interest in a
/// `nrows × ncols` image of a view showing `axes`: each end held inside the
/// image, the lower end not past the upper one.
pub fn roi_bounds(settings: &GlobalSettings, axes: [TTAxis; 2], nrows: usize, ncols: usize) -> (r: (
    usize,
    usize,
    usize,
    usize,
))
    requires
        nrows >= 1,
        ncols >= 1,
    ensures
        ({
            let a = axis_index(axes[0]) as int;
            let b = axis_index(axes[1]) as int;
            &&& r.1 == min(settings.roi_max[a] as int, nrows - 1)
            &&& r.0 == min(settings.roi_min[a] as int, r.1 as int)
            &&& r.3 == min(settings.roi_max[b] as int, ncols - 1)
            &&& r.2 == min(settings.roi_min[b] as int, r.3 as int)
            &&& r.0 <= r.1 < nrows
            &&& r.2 <= r.3 < ncols
        }),
{
    let a = axes[0].index();
    let b = axes[1].index();
    let r1 = if settings.roi_max[a] < nrows - 1 {
        settings.roi_max[a]
    } else {
        nrows - 1
    };
    let r0 = if settings.roi_min[a] < r1 {
        settings.roi_min[a]
    } else {
        r1
    };
    let c1 = if settings.roi_max[b] < ncols - 1 {
        settings.roi_max[b]
    } else {
        ncols - 1
    };
    let c0 = if settings.roi_min[b] < c1 {
        settings.roi_min[b]
    } else {
        c1
    };
    (r0, r1, c0, c1)
}

/// How many times each value inside the region of interest is counted when
/// the value scale of a whole image is taken, so that the region weighs as if
/// it covered at least 70 % of the image: `⌈7 · outside / (3 · inside)⌉`.
pub fn roi_weight(inside: usize, outside: usize) -> (r: u128)
    requires
        inside >= 1,
    ensures
        r == (7 * outside + 3 * inside - 1) / (3 * inside),
{
    let num: u128 = 7 * (outside as u128) + 3 * (inside as u128) - 1;
    let den: u128 = 3 * (inside as u128);
    num / den
}

} // verus!
