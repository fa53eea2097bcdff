//! The choice of spline knots among the samples of a wavelet: local extrema
//! and inflection points found scanning outwards from the centre, closed by
//! the stop rule on small values, with extra knots where extrema thin out.
//! The samples themselves are read once, into three flags per sample.

use vstd::prelude::*;

verus! {

/// The sign of the discrete second difference at a sample.
#[derive(Clone, Copy, Debug, PartialEq, Eq, Structural)]
pub enum Curvature {
    /// The slope decreases.
    Convex,
    /// The slope increases.
    Concave,
    Flat,
}

/// What the scan knows of each sample: whether it is a strict local extremum,
/// its curvature, and whether its magnitude is below the cut-off.
pub struct SampleFlags {
    pub peak: Vec<bool>,
    pub curv: Vec<Curvature>,
    pub small: Vec<bool>,
}

impl SampleFlags {
    pub open spec fn len(&self) -> int {
        self.peak@.len() as int
    }

    pub open spec fn wf(&self) -> bool {
        &&& self.curv@.len() == self.peak@.len()
        &&& self.small@.len() == self.peak@.len()
        &&& self.peak@.len() >= 3
    }
}

/// The state of a one-sided scan: the knots found so far, the last one, the
/// distance between the last two, whether the last knot was small, the
/// curvature of the previous sample, and whether the scan stopped.
pub struct ScanState {
    pub ext: Seq<usize>,
    pub last: int,
    pub dist: int,
    pub below: bool,
    pub prev: Curvature,
    pub stopped: bool,
}

/// The distance from the last knot to sample `i` in the scan direction.
pub open spec fn gap(forward: bool, i: int, last: int) -> int {
    if forward {
        i - last
    } else {
        last - i
    }
}

/// The sample one `dist` beyond `last` in the scan direction.
pub open spec fn beyond(forward: bool, last: int, dist: int) -> int {
    if forward {
        last + dist
    } else {
        last - dist
    }
}

/// The `k`-th sample the scan visits: outwards from the centre `n / 2`.
pub open spec fn visit(n: int, forward: bool, k: int) -> int {
    if forward {
        n / 2 + k
    } else {
        n / 2 - k
    }
}

/// How many samples the scan visits: up to the last-but-one sample going
/// forward, down to the second one going backward.
pub open spec fn visits(n: int, forward: bool) -> int {
    if forward {
        n - 1 - n / 2
    } else {
        n / 2
    }
}

pub open spec fn scan_start(f: &SampleFlags, forward: bool) -> ScanState {
    ScanState {
        ext: Seq::empty(),
        last: if forward {
            0
        } else {
            usize::MAX as int
        },
        dist: (usize::MAX / 2) as int,
        below: false,
        prev: f.curv@[f.len() / 2],
        stopped: false,
    }
}

/// One step of the scan at sample `i`. A sample is a knot when it is a
/// strict extremum or the curvature changes sign there. When the distance
/// from the last knot grows beyond twice the last spacing, a knot is added
/// one spacing beyond the last. When a knot is added, two small knots in a
/// row end the scan once more than five knots are known.
pub open spec fn scan_step(f: &SampleFlags, forward: bool, st: ScanState, i: int) -> ScanState {
    let c = f.curv@[i];
    let hit = f.peak@[i] || (c == Curvature::Concave && st.prev == Curvature::Convex) || (c
        == Curvature::Convex && st.prev == Curvature::Concave);
    let ext1 = if hit {
        st.ext.push(i as usize)
    } else {
        st.ext
    };
    let last1 = if hit {
        i
    } else {
        st.last
    };
    let dist1 = if hit {
        gap(forward, i, st.last)
    } else {
        st.dist
    };
    let extra = gap(forward, i, last1) / 2 > dist1;
    let fk = beyond(forward, last1, dist1);
    let ext2 = if extra {
        ext1.push(fk as usize)
    } else {
        ext1
    };
    let last2 = if extra {
        fk
    } else {
        last1
    };
    let added = hit || extra;
    let small = added && f.small@[ext2.last() as int];
    ScanState {
        ext: ext2,
        last: last2,
        dist: dist1,
        below: if added {
            small
        } else {
            st.below
        },
        prev: c,
        stopped: added && small && st.below && ext2.len() > 5,
    }
}

/// The state after the scan visited `k` samples (or stopped before).
pub open spec fn scan_spec(f: &SampleFlags, forward: bool, k: nat) -> ScanState
    decreases k,
{
    if k == 0 {
        scan_start(f, forward)
    } else {
        let st = scan_spec(f, forward, (k - 1) as nat);
        if st.stopped {
            st
        } else {
            scan_step(f, forward, st, visit(f.len(), forward, k - 1))
        }
    }
}

/// The knots of one side: the scan run to its end.
pub open spec fn side_knots(f: &SampleFlags, forward: bool) -> Seq<usize> {
    scan_spec(f, forward, visits(f.len(), forward) as nat).ext
}

/// Once the scan stopped, it stays as it is.
proof fn lemma_scan_stays(f: &SampleFlags, forward: bool, k: nat, m: nat)
    requires
        k <= m,
        scan_spec(f, forward, k).stopped || k == m,
    ensures
        scan_spec(f, forward, m) == scan_spec(f, forward, k),
    decreases m - k,
{
    if k < m {
        lemma_scan_stays(f, forward, k, (m - 1) as nat);
    }
}

/// The knots found scanning from the centre towards one end: forward they
/// increase from the centre, backward they decrease from it.
pub fn scan_side(f: &SampleFlags, forward: bool) -> (r: Vec<usize>)
    requires
        f.wf(),
    ensures
        r@ == side_knots(f, forward),
        forall|i: int| 0 <= i < r@.len() ==> r@[i] < f.len(),
        forward ==> forall|i: int| 0 <= i < r@.len() ==> r@[i] >= f.len() / 2,
        !forward ==> forall|i: int| 0 <= i < r@.len() ==> r@[i] <= f.len() / 2,
        forward ==> forall|i: int, j: int| 0 <= i < j < r@.len() ==> r@[i] < r@[j],
        !forward ==> forall|i: int, j: int| 0 <= i < j < r@.len() ==> r@[i] > r@[j],
{
    let n = f.peak.len();
    let mid = n / 2;
    let total: usize = if forward {
        n - 1 - mid
    } else {
        mid
    };
    let mut ext: Vec<usize> = Vec::new();
    let mut last: usize = if forward {
        0
    } else {
        usize::MAX
    };
    let mut dist: usize = usize::MAX / 2;
    let mut below = false;
    let mut prev = f.curv[mid];
    let mut k: usize = 0;
    let mut done = false;
    while k < total && !done
        invariant
            f.wf(),
            n == f.len(),
            mid == n / 2,
            total == visits(n as int, forward),
            k <= total,
            ({
                let st = scan_spec(f, forward, k as nat);
                &&& st.stopped == done
                &&& st.ext == ext@
                &&& st.last == last as int
                &&& st.dist == dist as int
                &&& st.below == below
                &&& st.prev == prev
            }),
            dist >= 1,
            ext@.len() > 0 ==> ext@.last() == last,
            forward ==> (mid <= last <= visit(n as int, forward, k as int) - 1 && ext@.len() > 0)
                || (last == 0 && dist == usize::MAX / 2 && ext@.len() == 0),
            !forward ==> (last == usize::MAX && dist == usize::MAX / 2 && ext@.len() == 0) || (
            last <= mid && last > visit(n as int, forward, k as int)),
            forall|i: int| 0 <= i < ext@.len() ==> ext@[i] < n,
            forward ==> forall|i: int| 0 <= i < ext@.len() ==> ext@[i] >= mid,
            !forward ==> forall|i: int| 0 <= i < ext@.len() ==> ext@[i] <= mid,
            forward ==> forall|i: int, j: int| 0 <= i < j < ext@.len() ==> ext@[i] < ext@[j],
            !forward ==> forall|i: int, j: int| 0 <= i < j < ext@.len() ==> ext@[i] > ext@[j],
        decreases total - k,
    {
        let i: usize = if forward {
            mid + k
        } else {
            mid - k
        };
        let c = f.curv[i];
        let hit = f.peak[i] || (c == Curvature::Concave && prev == Curvature::Convex) || (c
            == Curvature::Convex && prev == Curvature::Concave);
        if hit {
            dist = if forward {
                i - last
            } else {
                last - i
            };
            ext.push(i);
            last = i;
        }
        let g: usize = if forward {
            i - last
        } else {
            last - i
        };
        let extra = g / 2 > dist;
        if extra {
            let fk: usize = if forward {
                last + dist
            } else {
                last - dist
            };
            ext.push(fk);
            last = fk;
        }
        let added = hit || extra;
        let small = added && f.small[ext[ext.len() - 1]];
        let stop = added && small && below && ext.len() > 5;
        if added {
            below = small;
        }
        prev = c;
        done = stop;
        k += 1;
    }
    proof {
        lemma_scan_stays(f, forward, k as nat, total as nat);
    }
    ext
}

/// The knots of both sides as one increasing list: the backward knots in
/// reverse, then the forward ones, the centre taken once when both sides
/// start there.
pub open spec fn joined_knots(f: &SampleFlags) -> Seq<usize> {
    let b = side_knots(f, false);
    let a = side_knots(f, true);
    let rb = Seq::new(b.len(), |i: int| b[b.len() - 1 - i]);
    if b.len() > 0 && a.len() > 0 && b[0] == a[0] {
        rb + a.skip(1)
    } else {
        rb + a
    }
}

/// A model can be fitted: both sides found a knot and there are at least two
/// knots in all.
pub open spec fn knots_found(f: &SampleFlags) -> bool {
    &&& side_knots(f, true).len() > 0
    &&& side_knots(f, false).len() > 0
    &&& joined_knots(f).len() >= 2
}

/// The flags mirror about the centre sample of an odd number of samples.
pub open spec fn flags_mirror(f: &SampleFlags) -> bool {
    let m = f.len() / 2;
    &&& f.len() % 2 == 1
    &&& forall|j: int|
        0 <= j < f.len() ==> #[trigger] f.peak@[j] == f.peak@[2 * m - j] && f.curv@[j] == f.curv@[2
            * m - j] && f.small@[j] == f.small@[2 * m - j]
}

/// The backward scan state is the forward one mirrored about the centre `m`,
/// the forward knots lying before `bound`.
pub open spec fn states_mirror(a: ScanState, b: ScanState, m: int, bound: int) -> bool {
    &&& a.stopped == b.stopped
    &&& a.below == b.below
    &&& a.prev == b.prev
    &&& a.ext.len() == b.ext.len()
    &&& forall|j: int| 0 <= j < a.ext.len() ==> #[trigger] b.ext[j] == 2 * m - a.ext[j]
    &&& forall|j: int| 0 <= j < a.ext.len() ==> m <= #[trigger] a.ext[j] <= 2 * m - 1
    &&& forall|j: int| 0 <= j < a.ext.len() ==> #[trigger] a.ext[j] < bound
    &&& a.ext.len() == 0 ==> a.last == 0 && b.last == usize::MAX && a.dist == usize::MAX / 2
        && b.dist == usize::MAX / 2
    &&& a.ext.len() > 0 ==> b.last == 2 * m - a.last && m <= a.last <= 2 * m - 1 && a.last
        == a.ext.last()
    &&& a.ext.len() == 1 ==> a.dist >= m && b.dist >= usize::MAX - m
    &&& a.ext.len() >= 2 ==> a.dist == b.dist && a.dist >= 1
}

proof fn lemma_scans_mirror(f: &SampleFlags, k: nat)
    requires
        f.wf(),
        flags_mirror(f),
        f.len() < usize::MAX / 2,
        k <= f.len() / 2,
    ensures
        states_mirror(scan_spec(f, true, k), scan_spec(f, false, k), f.len() / 2, f.len() / 2 + k),
    decreases k,
{
    let m = f.len() / 2;
    if k > 0 {
        lemma_scans_mirror(f, (k - 1) as nat);
        let a = scan_spec(f, true, (k - 1) as nat);
        let b = scan_spec(f, false, (k - 1) as nat);
        if !a.stopped {
            let i = m + k - 1;
            let ib = m - (k - 1);
            assert(visit(f.len(), true, k - 1) == i);
            assert(visit(f.len(), false, k - 1) == ib);
            assert(ib == 2 * m - i);
            assert(f.peak@[i] == f.peak@[ib]);
            assert(f.curv@[i] == f.curv@[ib]);
            let a2 = scan_step(f, true, a, i);
            let b2 = scan_step(f, false, b, ib);
            let c = f.curv@[i];
            let hit = f.peak@[i] || (c == Curvature::Concave && a.prev == Curvature::Convex) || (c
                == Curvature::Convex && a.prev == Curvature::Concave);
            let hitb = f.peak@[ib] || (c == Curvature::Concave && b.prev == Curvature::Convex) || (c
                == Curvature::Convex && b.prev == Curvature::Concave);
            assert(hit == hitb);
            let last1a = if hit {
                i
            } else {
                a.last
            };
            let last1b = if hit {
                ib
            } else {
                b.last
            };
            let dist1a = if hit {
                gap(true, i, a.last)
            } else {
                a.dist
            };
            let dist1b = if hit {
                gap(false, ib, b.last)
            } else {
                b.dist
            };
            let extra_a = gap(true, i, last1a) / 2 > dist1a;
            let extra_b = gap(false, ib, last1b) / 2 > dist1b;
            assert(m >= 1);
            if hit {
                assert(!extra_a && !extra_b);
            } else if a.ext.len() == 0 {
                assert(!extra_a && !extra_b);
            } else if a.ext.len() == 1 {
                assert(gap(true, i, last1a) <= m - 1);
                assert(gap(false, ib, last1b) <= m - 1);
                assert(!extra_a && !extra_b);
            } else {
                assert(gap(true, i, last1a) == gap(false, ib, last1b));
                assert(extra_a == extra_b);
            }
            assert(hit && a.ext.len() > 0 ==> dist1a == dist1b);
            assert(a.ext.len() > 0 ==> a.last == a.ext[a.ext.len() - 1]);
            assert(a2.ext.len() == b2.ext.len());
            assert(forall|j: int| 0 <= j < a2.ext.len() ==> #[trigger] b2.ext[j] == 2 * m - a2.ext[j]);
            assert(forall|j: int| 0 <= j < a2.ext.len() ==> m <= #[trigger] a2.ext[j] <= 2 * m - 1);
            if a2.ext.len() > 0 {
                let x = a2.ext.last() as int;
                assert(x == a2.ext[a2.ext.len() - 1]);
                assert(b2.ext.last() == b2.ext[a2.ext.len() - 1]);
                assert(f.peak@[x] == f.peak@[2 * m - x]);
                assert(f.small@[x] == f.small@[b2.ext.last() as int]);
            }
            assert(forall|j: int| 0 <= j < a2.ext.len() ==> #[trigger] a2.ext[j] < m + k);
            assert(states_mirror(a2, b2, m, m + k));
        }
    }
}

/// For samples that mirror about their centre, the knots found going
/// backward are those found going forward, mirrored.
pub proof fn lemma_side_knots_mirror(f: &SampleFlags)
    requires
        f.wf(),
        flags_mirror(f),
        f.len() < usize::MAX / 2,
    ensures
        side_knots(f, false).len() == side_knots(f, true).len(),
        forall|j: int|
            0 <= j < side_knots(f, true).len() ==> #[trigger] side_knots(f, false)[j] == 2 * (f.len()
                / 2) - side_knots(f, true)[j],
{
    lemma_scans_mirror(f, (f.len() / 2) as nat);
    assert(visits(f.len(), true) == f.len() / 2);
    assert(visits(f.len(), false) == f.len() / 2);
}

/// For samples that mirror about their centre, the knots mirror too: the
/// `i`-th knot and the `i`-th from the end lie equally far on either side of
/// the centre, so the knot positions are symmetric about zero.
pub proof fn lemma_knots_mirror(f: &SampleFlags)
    requires
        f.wf(),
        flags_mirror(f),
        f.len() < usize::MAX / 2,
    ensures
        forall|i: int|
            0 <= i < joined_knots(f).len() ==> #[trigger] joined_knots(f)[i] - f.len() / 2 == f.len()
                / 2 - joined_knots(f)[joined_knots(f).len() - 1 - i],
{
    lemma_side_knots_mirror(f);
    let m = f.len() / 2;
    let a = side_knots(f, true);
    let b = side_knots(f, false);
    let l = a.len() as int;
    let jk = joined_knots(f);
    assert forall|i: int| 0 <= i < jk.len() implies #[trigger] jk[i] - m == m - jk[jk.len() - 1 - i] by {
        if l > 0 && b[0] == a[0] {
            assert(jk.len() == 2 * l - 1);
            let q = jk.len() - 1 - i;
            if i < l {
                assert(jk[i] == b[l - 1 - i]);
                if q >= l {
                    assert(jk[q] == a[q - l + 1]);
                } else {
                    assert(i == l - 1);
                    assert(b[0] == 2 * m - a[0]);
                }
            } else {
                assert(jk[i] == a[i - l + 1]);
                assert(jk[q] == b[l - 1 - q]);
            }
        } else {
            assert(jk.len() == 2 * l);
            let q = jk.len() - 1 - i;
            if i < l {
                assert(jk[i] == b[l - 1 - i]);
                assert(jk[q] == a[q - l]);
            } else {
                assert(jk[i] == a[i - l]);
                assert(jk[q] == b[l - 1 - q]);
            }
        }
    }
}

/// The sample indices of the spline knots, increasing; `None` when the
/// samples give too few knots to fit a spline (a degenerate wavelet).
pub fn knot_indices(f: &SampleFlags) -> (r: Option<Vec<usize>>)
    requires
        f.wf(),
    ensures
        r is Some <==> knots_found(f),
        r matches Some(v) ==> v@ == joined_knots(f),
        r matches Some(v) ==> forall|i: int, j: int| 0 <= i < j < v@.len() ==> v@[i] < v@[j],
        r matches Some(v) ==> forall|i: int| 0 <= i < v@.len() ==> v@[i] < f.len(),
{
    let a = scan_side(f, true);
    let b = scan_side(f, false);
    if a.len() == 0 || b.len() == 0 {
        return None;
    }
    let mut out: Vec<usize> = Vec::new();
    let mut i: usize = b.len();
    while i > 0
        invariant
            i <= b@.len(),
            out@ =~= Seq::new((b@.len() - i) as nat, |j: int| b@[b@.len() - 1 - j]),
        decreases i,
    {
        i -= 1;
        out.push(b[i]);
    }
    let ghost rb = out@;
    let skip_first = b[0] == a[0];
    let mut j: usize = if skip_first {
        1
    } else {
        0
    };
    let ghost j0 = j as int;
    while j < a.len()
        invariant
            0 <= j0 <= j <= a@.len(),
            out@ =~= rb + a@.subrange(j0, j as int),
        decreases a@.len() - j,
    {
        out.push(a[j]);
        proof {
            assert(a@.subrange(j0, j + 1) =~= a@.subrange(j0, j as int).push(a@[j as int]));
        }
        j += 1;
    }
    proof {
        assert(a@.subrange(j0, a@.len() as int) =~= a@.skip(j0));
        assert(a@.skip(0) =~= a@);
        assert(out@ =~= joined_knots(f));
        let mid = f.len() / 2;
        assert forall|x: int, y: int| 0 <= x < y < out@.len() implies out@[x] < out@[y] by {
            let nb = b@.len() as int;
            if y < nb {
                assert(out@[x] == b@[nb - 1 - x]);
                assert(out@[y] == b@[nb - 1 - y]);
            } else if x < nb {
                assert(out@[x] == b@[nb - 1 - x]);
                assert(out@[y] == a@[j0 + y - nb]);
                if j0 + y - nb > 0 {
                    assert(a@[0] < a@[j0 + y - nb]);
                }
                if nb - 1 - x > 0 {
                    assert(b@[nb - 1 - x] < b@[0]);
                }
            } else {
                assert(out@[x] == a@[j0 + x - nb]);
                assert(out@[y] == a@[j0 + y - nb]);
            }
        }
        assert forall|x: int| 0 <= x < out@.len() implies out@[x] < f.len() by {
            let nb = b@.len() as int;
            if x < nb {
                assert(out@[x] == b@[nb - 1 - x]);
            } else {
                assert(out@[x] == a@[j0 + x - nb]);
            }
        }
    }
    if out.len() < 2 {
        return None;
    }
    Some(out)
}

/// The knots at sample indices `idx` of a grid centred on sample `n / 2`,
/// as positions relative to the centre.
pub fn knot_positions(idx: &Vec<usize>, n: usize) -> (r: crate::cwt::SplineKnots)
    requires
        idx@.len() >= 2,
        n <= isize::MAX as usize,
        forall|i: int, j: int| 0 <= i < j < idx@.len() ==> idx@[i] < idx@[j],
        forall|i: int| 0 <= i < idx@.len() ==> idx@[i] < n,
    ensures
        r.wf(),
        r.positions@.len() == idx@.len(),
        forall|i: int| 0 <= i < idx@.len() ==> #[trigger] r.positions@[i] == idx@[i] - n / 2,
{
    let mid = n / 2;
    let mut p: Vec<isize> = Vec::with_capacity(idx.len());
    let mut i: usize = 0;
    while i < idx.len()
        invariant
            i <= idx@.len(),
            mid == n / 2,
            n <= isize::MAX as usize,
            p@.len() == i,
            forall|j: int| 0 <= j < idx@.len() ==> idx@[j] < n,
            forall|j: int| 0 <= j < i ==> #[trigger] p@[j] == idx@[j] - n / 2,
        decreases idx@.len() - i,
    {
        p.push(idx[i] as isize - mid as isize);
        i += 1;
    }
    crate::cwt::SplineKnots { positions: p }
}

} // verus!
