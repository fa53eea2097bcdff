//! The index side of the wavelet engine: where each sample that the
//! boundary/jump formula (or a direct convolution) reads comes from, with
//! antisymmetric half-point reflection beyond both ends of a lane.

use vstd::prelude::*;

verus! {

/// Where a sample of an extended lane comes from. Inside the lane it is the
/// sample itself; within one lane length beyond an end it is
/// `2·lane[edge] − lane[mirror]`; further out it is zero.
#[derive(Clone, Copy, Debug, PartialEq, Eq, Structural)]
pub enum SampleRef {
    Direct(usize),
    Reflected { edge: usize, mirror: usize },
    Outside,
}

/// The source of position `s` of a lane whose last index is `last`.
pub open spec fn extend_spec(s: int, last: int) -> SampleRef {
    if 0 <= s <= last {
        SampleRef::Direct(s as usize)
    } else if s < 0 && -s <= last {
        SampleRef::Reflected { edge: 0, mirror: (-s) as usize }
    } else if s > last && 2 * last - s >= 0 {
        SampleRef::Reflected { edge: last as usize, mirror: (2 * last - s) as usize }
    } else {
        SampleRef::Outside
    }
}

/// A reference reads inside a lane of length `len`.
pub open spec fn reads_inside(r: SampleRef, len: int) -> bool {
    match r {
        SampleRef::Direct(i) => i < len,
        SampleRef::Reflected { edge, mirror } => edge < len && mirror < len,
        SampleRef::Outside => true,
    }
}

/// The source of position `s` of a lane of `len` samples.
pub fn extend_index(s: i128, len: usize) -> (r: SampleRef)
    requires
        len >= 1,
    ensures
        r == extend_spec(s as int, len - 1),
        reads_inside(r, len as int),
{
    let last: usize = len - 1;
    if s < 0 {
        if s >= -(last as i128) {
            SampleRef::Reflected { edge: 0, mirror: (-s) as usize }
        } else {
            SampleRef::Outside
        }
    } else if s <= last as i128 {
        SampleRef::Direct(s as usize)
    } else {
        let over: i128 = s - last as i128;
        if over <= last as i128 {
            SampleRef::Reflected { edge: last, mirror: (last as i128 - over) as usize }
        } else {
            SampleRef::Outside
        }
    }
}

/// Beyond either end of a lane, the extension mirrors about that end: the
/// sample `k` places before the first is taken against the sample `k` places
/// after it, and likewise at the last sample, for every `k` up to the lane
/// length. One reflected sample on each side is the case `k == 1`.
pub proof fn lemma_reflection_symmetry(last: int, k: int)
    requires
        0 < k <= last,
    ensures
        extend_spec(-k, last) == (SampleRef::Reflected { edge: 0, mirror: k as usize }),
        extend_spec(last + k, last) == (SampleRef::Reflected {
            edge: last as usize,
            mirror: (last - k) as usize,
        }),
{
}

/// The knot positions of a wavelet's spline model, relative to the point of
/// evaluation: strictly increasing, the first and last being the two ends.
#[derive(Clone, Debug)]
pub struct SplineKnots {
    pub positions: Vec<isize>,
}

impl SplineKnots {
    pub open spec fn wf(&self) -> bool {
        &&& self.positions@.len() >= 2
        &&& forall|i: int, j: int|
            0 <= i < j < self.positions@.len() ==> self.positions@[i] < self.positions@[j]
    }

    pub fn first(&self) -> (r: isize)
        requires
            self.wf(),
        ensures
            r == self.positions@[0],
    {
        self.positions[0]
    }

    pub fn last(&self) -> (r: isize)
        requires
            self.wf(),
        ensures
            r == self.positions@[self.positions@.len() - 1],
    {
        self.positions[self.positions.len() - 1]
    }
}

/// The samples that the boundary/jump formula reads at one time: the three
/// lower antiderivatives at both ends of the wavelet, and the fourth at
/// every knot.
#[derive(Clone, Debug)]
pub struct BoundaryTaps {
    pub start: SampleRef,
    pub end: SampleRef,
    pub knots: Vec<SampleRef>,
}

/// The boundary/jump formula's samples for time `t` in a lane of `len`
/// samples: `start` at `t + x0`, `end` at `t + xJ`, and one per knot at
/// `t + x`, each extended by reflection. Their number depends on the knots
/// alone, not on the support of the wavelet.
pub fn boundary_taps(knots: &SplineKnots, t: isize, len: usize) -> (r: BoundaryTaps)
    requires
        knots.wf(),
        len >= 1,
    ensures
        r.start == extend_spec(t + knots.positions@[0], len - 1),
        r.end == extend_spec(t + knots.positions@[knots.positions@.len() - 1], len - 1),
        r.knots@.len() == knots.positions@.len(),
        forall|i: int|
            0 <= i < r.knots@.len() ==> #[trigger] r.knots@[i] == extend_spec(
                t + knots.positions@[i],
                len - 1,
            ) && reads_inside(r.knots@[i], len as int),
        reads_inside(r.start, len as int),
        reads_inside(r.end, len as int),
{
    let start = extend_index(t as i128 + knots.first() as i128, len);
    let end = extend_index(t as i128 + knots.last() as i128, len);
    let mut taps: Vec<SampleRef> = Vec::with_capacity(knots.positions.len());
    let mut i: usize = 0;
    while i < knots.positions.len()
        invariant
            i <= knots.positions@.len(),
            len >= 1,
            taps@.len() == i,
            forall|j: int|
                0 <= j < i ==> #[trigger] taps@[j] == extend_spec(
                    t + knots.positions@[j],
                    len - 1,
                ) && reads_inside(taps@[j], len as int),
        decreases knots.positions@.len() - i,
    {
        let r = extend_index(t as i128 + knots.positions[i] as i128, len);
        taps.push(r);
        i += 1;
    }
    BoundaryTaps { start, end, knots: taps }
}

/// The samples that a direct convolution with `psi_len` wavelet samples,
/// centred on time `t`, reads in a lane of `len` samples: wavelet sample `i`
/// meets lane position `t + i − ⌊psi_len/2⌋`, extended by reflection.
pub fn direct_taps(psi_len: usize, t: usize, len: usize) -> (r: Vec<SampleRef>)
    requires
        len >= 1,
    ensures
        r@.len() == psi_len,
        forall|i: int|
            0 <= i < psi_len ==> #[trigger] r@[i] == extend_spec(
                t + i - psi_len / 2,
                len - 1,
            ) && reads_inside(r@[i], len as int),
{
    let mid: usize = psi_len / 2;
    let mut taps: Vec<SampleRef> = Vec::with_capacity(psi_len);
    let mut i: usize = 0;
    while i < psi_len
        invariant
            i <= psi_len,
            len >= 1,
            mid == psi_len / 2,
            taps@.len() == i,
            forall|j: int|
                0 <= j < i ==> #[trigger] taps@[j] == extend_spec(t + j - psi_len / 2, len - 1)
                    && reads_inside(taps@[j], len as int),
        decreases psi_len - i,
    {
        let r = extend_index(t as i128 + i as i128 - mid as i128, len);
        taps.push(r);
        i += 1;
    }
    taps
}

/// The two engines read the same samples at the ends of the wavelet: when
/// the spline's first and last knots are the first and last of `psi_len`
/// wavelet samples centred on sample `⌊psi_len/2⌋`, the boundary formula's
/// end samples at time `t` are the direct convolution's first and last
/// samples at `t`.
pub proof fn lemma_taps_share_ends(first: int, last: int, psi_len: int, t: int, lane_last: int)
    requires
        psi_len >= 1,
        first == -(psi_len / 2),
        last == psi_len - 1 - psi_len / 2,
    ensures
        extend_spec(t + first, lane_last) == extend_spec(t + 0 - psi_len / 2, lane_last),
        extend_spec(t + last, lane_last) == extend_spec(t + (psi_len - 1) - psi_len / 2, lane_last),
{
}

} // verus!
