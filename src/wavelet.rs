//! The catalog of mother wavelets, the per-scale cache of their spline
//! models, and the integer side of fitting a model: the sampling grid and
//! the choice of knots among the sampled extrema.

use vstd::prelude::*;

verus! {

/// The closed catalog of mother wavelets.
#[allow(non_camel_case_types)]
#[derive(Clone, Copy, Debug, PartialEq, Eq, Structural)]
pub enum WaveletType {
    Morlet,
    Shannon,
    Modified_Shannon,
    BSpline_2,
    Poisson_1,
    Poisson_2,
}

/// The position of a wavelet kind in the catalog.
pub open spec fn kind_index(w: WaveletType) -> nat {
    match w {
        WaveletType::Morlet => 0,
        WaveletType::Shannon => 1,
        WaveletType::Modified_Shannon => 2,
        WaveletType::BSpline_2 => 3,
        WaveletType::Poisson_1 => 4,
        WaveletType::Poisson_2 => 5,
    }
}

impl WaveletType {
    /// Every kind of the catalog, in catalog order.
    pub fn all() -> (r: Vec<WaveletType>)
        ensures
            r@.len() == 6,
            forall|i: int| 0 <= i < 6 ==> kind_index(#[trigger] r@[i]) == i,
    {
        vec![
            WaveletType::Morlet,
            WaveletType::Shannon,
            WaveletType::Modified_Shannon,
            WaveletType::BSpline_2,
            WaveletType::Poisson_1,
            WaveletType::Poisson_2,
        ]
    }
}

/// The models of one wavelet kind, computed so far, by scale index.
#[derive(Clone, Debug)]
pub struct ScaleCache<T> {
    entries: Vec<Option<T>>,
}

impl<T> ScaleCache<T> {
    /// The model cached for scale index `s`, if any.
    pub closed spec fn entry(&self, s: int) -> Option<T> {
        if 0 <= s < self.entries@.len() {
            self.entries@[s]
        } else {
            None
        }
    }

    pub fn new() -> (r: Self)
        ensures
            forall|s: int| #[trigger] r.entry(s) is None,
    {
        ScaleCache { entries: Vec::new() }
    }

    /// The model cached for scale index `s`.
    pub fn lookup(&self, s: usize) -> (r: Option<&T>)
        ensures
            r matches Some(v) ==> self.entry(s as int) == Some(*v),
            r is None <==> self.entry(s as int) is None,
    {
        if s < self.entries.len() {
            match &self.entries[s] {
                Some(v) => Some(v),
                None => None,
            }
        } else {
            None
        }
    }

    /// Whether the model of scale index `s` must still be computed.
    pub fn needs(&self, s: usize) -> (r: bool)
        ensures
            r == self.entry(s as int) is None,
    {
        if s < self.entries.len() {
            self.entries[s].is_none()
        } else {
            true
        }
    }

    /// Stores the model of scale index `s` unless one is there already: the
    /// first model stored for a scale is kept for good.
    pub fn insert(&mut self, s: usize, value: T)
        ensures
            final(self).entry(s as int) == after_insert(old(self).entry(s as int), value),
            forall|u: int| u != s ==> #[trigger] final(self).entry(u) == old(self).entry(u),
    {
        while self.entries.len() <= s
            invariant
                forall|u: int| #[trigger] self.entry(u) == old(self).entry(u),
            decreases s + 1 - self.entries@.len(),
        {
            let ghost before = self.entries@;
            let ghost prev = *self;
            self.entries.push(None);
            assert(self.entries@ == before.push(None));
            assert forall|u: int| #[trigger] self.entry(u) == old(self).entry(u) by {
                assert(prev.entry(u) == old(self).entry(u));
                if 0 <= u < before.len() {
                    assert(self.entries@[u] == before[u]);
                }
            }
        }
        let ghost grown = *self;
        assert(forall|u: int| #[trigger] grown.entry(u) == old(self).entry(u));
        assert(grown.entry(s as int) == old(self).entry(s as int));
        assert(s < self.entries@.len());
        if self.entries[s].is_none() {
            let ghost before = self.entries@;
            self.entries[s] = Some(value);
            assert(self.entries@ == before.update(s as int, Some(value)));
            assert forall|u: int| u != s implies #[trigger] self.entry(u) == old(self).entry(u) by {
                assert(grown.entry(u) == old(self).entry(u));
            }
        }
    }

    /// The scale indices below `end` whose models must still be computed, in
    /// increasing order.
    pub fn missing_below(&self, end: usize) -> (r: Vec<usize>)
        ensures
            forall|i: int, j: int| 0 <= i < j < r@.len() ==> r@[i] < r@[j],
            forall|i: int| 0 <= i < r@.len() ==> r@[i] < end,
            forall|s: int|
                0 <= s < end ==> (self.entry(s) is None <==> r@.contains(s as usize)),
    {
        self.missing_in(0, end)
    }

    /// The scale indices from `start` to below `end` whose models must still
    /// be computed, in increasing order.
    pub fn missing_in(&self, start: usize, end: usize) -> (r: Vec<usize>)
        ensures
            forall|i: int, j: int| 0 <= i < j < r@.len() ==> r@[i] < r@[j],
            forall|i: int| 0 <= i < r@.len() ==> start <= #[trigger] r@[i] < end,
            forall|s: int|
                start <= s < end ==> (self.entry(s) is None <==> r@.contains(s as usize)),
    {
        let mut r: Vec<usize> = Vec::new();
        let mut s: usize = start;
        while s < end
            invariant
                start <= s,
                s <= end || start > end,
                start > end ==> r@.len() == 0,
                forall|i: int, j: int| 0 <= i < j < r@.len() ==> r@[i] < r@[j],
                forall|i: int| 0 <= i < r@.len() ==> start <= #[trigger] r@[i] < s,
                forall|u: int|
                    start <= u < s ==> (self.entry(u) is None <==> r@.contains(u as usize)),
            decreases end - s,
        {
            let missing = self.needs(s);
            let ghost before = r@;
            if missing {
                r.push(s);
            }
            proof {
                assert forall|u: int| start <= u < s + 1 implies (self.entry(u) is None
                    <==> r@.contains(u as usize)) by {
                    if missing {
                        assert(r@ == before.push(s));
                        if u < s {
                            if before.contains(u as usize) {
                                let k = choose|k: int| 0 <= k < before.len() && before[k] == u;
                                assert(r@[k] == u);
                            }
                            if r@.contains(u as usize) {
                                let k = choose|k: int| 0 <= k < r@.len() && r@[k] == u;
                                assert(k < before.len());
                                assert(before[k] == u);
                            }
                        } else {
                            assert(r@[r@.len() - 1] == s);
                        }
                    } else {
                        if u == s {
                            if r@.contains(u as usize) {
                                let k = choose|k: int| 0 <= k < r@.len() && r@[k] == u;
                                assert(r@[k] < s);
                            }
                        }
                    }
                }
            }
            s += 1;
        }
        r
    }
}

/// What a cache entry holds after a model is offered for it: the model
/// already there, else the one offered.
pub open spec fn after_insert<T>(entry: Option<T>, value: T) -> Option<T> {
    if entry is Some {
        entry
    } else {
        Some(value)
    }
}

/// Looking a scale up, computing its model when it is missing and storing
/// it, then doing the same again: the second time the model is found, so
/// nothing is computed, and it is the model that the first time left.
pub proof fn lemma_cache_idempotent<T>(entry: Option<T>, first: T, second: T)
    ensures
        after_insert(entry, first) is Some,
        after_insert(after_insert(entry, first), second) == after_insert(entry, first),
{
}

/// The model caches of every wavelet kind, one per kind of the catalog.
#[derive(Clone, Debug)]
pub struct WaveletBank<T> {
    morlet: ScaleCache<T>,
    shannon: ScaleCache<T>,
    modified_shannon: ScaleCache<T>,
    bspline_2: ScaleCache<T>,
    poisson_1: ScaleCache<T>,
    poisson_2: ScaleCache<T>,
}

impl<T> WaveletBank<T> {
    /// The cache of one kind.
    pub closed spec fn cache(&self, kind: WaveletType) -> ScaleCache<T> {
        match kind {
            WaveletType::Morlet => self.morlet,
            WaveletType::Shannon => self.shannon,
            WaveletType::Modified_Shannon => self.modified_shannon,
            WaveletType::BSpline_2 => self.bspline_2,
            WaveletType::Poisson_1 => self.poisson_1,
            WaveletType::Poisson_2 => self.poisson_2,
        }
    }

    /// A bank with an empty cache for every kind.
    pub fn new_wb() -> (r: Self)
        ensures
            forall|k: WaveletType, s: int| #[trigger] r.cache(k).entry(s) is None,
    {
        WaveletBank {
            morlet: ScaleCache::new(),
            shannon: ScaleCache::new(),
            modified_shannon: ScaleCache::new(),
            bspline_2: ScaleCache::new(),
            poisson_1: ScaleCache::new(),
            poisson_2: ScaleCache::new(),
        }
    }

    /// The cache of `kind`.
    pub fn get(&self, kind: WaveletType) -> (r: &ScaleCache<T>)
        ensures
            *r == self.cache(kind),
    {
        match kind {
            WaveletType::Morlet => &self.morlet,
            WaveletType::Shannon => &self.shannon,
            WaveletType::Modified_Shannon => &self.modified_shannon,
            WaveletType::BSpline_2 => &self.bspline_2,
            WaveletType::Poisson_1 => &self.poisson_1,
            WaveletType::Poisson_2 => &self.poisson_2,
        }
    }

    /// The model of `kind` at scale index `s`, if cached.
    pub fn lookup(&self, kind: WaveletType, s: usize) -> (r: Option<&T>)
        ensures
            r matches Some(v) ==> self.cache(kind).entry(s as int) == Some(*v),
            r is None <==> self.cache(kind).entry(s as int) is None,
    {
        self.get(kind).lookup(s)
    }

    /// Stores the model of `kind` at scale index `s` unless one is there.
    pub fn insert(&mut self, kind: WaveletType, s: usize, value: T)
        ensures
            final(self).cache(kind).entry(s as int) == after_insert(
                old(self).cache(kind).entry(s as int),
                value,
            ),
            forall|k: WaveletType, u: int|
                (k != kind || u != s) ==> #[trigger] final(self).cache(k).entry(u) == old(
                    self,
                ).cache(k).entry(u),
    {
        match kind {
            WaveletType::Morlet => self.morlet.insert(s, value),
            WaveletType::Shannon => self.shannon.insert(s, value),
            WaveletType::Modified_Shannon => self.modified_shannon.insert(s, value),
            WaveletType::BSpline_2 => self.bspline_2.insert(s, value),
            WaveletType::Poisson_1 => self.poisson_1.insert(s, value),
            WaveletType::Poisson_2 => self.poisson_2.insert(s, value),
        }
    }
}

/// The half-width of the integer grid on which the wavelet of a scale is
/// sampled: it grows with the scale.
pub open spec fn half_width_spec(scale: int) -> int {
    20 + 6 * scale
}

/// The half-width of the sampling grid of `scale`.
pub fn half_width(scale: usize) -> (r: usize)
    requires
        scale <= (usize::MAX - 20) / 6,
    ensures
        r == half_width_spec(scale as int),
{
    20 + 6 * scale
}

/// The scale of the model kept at scale index `s`: indices count from zero,
/// scales from one.
pub fn model_scale(s: usize) -> (r: usize)
    requires
        s < usize::MAX,
    ensures
        r == s + 1,
{
    s + 1
}

/// The symmetric sampling grid `-h, …, h` of half-width `h`.
pub fn sample_grid(h: usize) -> (r: Vec<isize>)
    requires
        h <= (isize::MAX as usize) / 2,
    ensures
        r@.len() == 2 * h + 1,
        forall|i: int| 0 <= i < r@.len() ==> #[trigger] r@[i] == i - h,
{
    let mut r: Vec<isize> = Vec::with_capacity(2 * h + 1);
    let mut i: usize = 0;
    while i <= 2 * h
        invariant
            i <= 2 * h + 1,
            h <= (isize::MAX as usize) / 2,
            r@.len() == i,
            forall|j: int| 0 <= j < i ==> #[trigger] r@[j] == j - h,
        decreases 2 * h + 1 - i,
    {
        r.push(i as isize - h as isize);
        i += 1;
    }
    r
}

} // verus!
