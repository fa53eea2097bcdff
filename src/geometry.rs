//! Axes of the five-dimensional result space, the view modes that pick two
//! of them, and the plans that say which samples a 2-D slice is made of.

use vstd::prelude::*;

verus! {

/// An axis of the result space: image columns, image rows, time, wavelet
/// scale, frequency.
#[derive(Clone, Copy, Debug, PartialEq, Eq, Structural)]
pub enum TTAxis {
    X,
    Y,
    T,
    S,
    F,
}

/// The position of an axis in a five-entry coordinate array.
pub open spec fn axis_index(a: TTAxis) -> nat {
    match a {
        TTAxis::X => 0,
        TTAxis::Y => 1,
        TTAxis::T => 2,
        TTAxis::S => 3,
        TTAxis::F => 4,
    }
}

/// The short label of an axis.
pub open spec fn axis_char(a: TTAxis) -> char {
    match a {
        TTAxis::X => 'X',
        TTAxis::Y => 'Y',
        TTAxis::T => 't',
        TTAxis::S => 's',
        TTAxis::F => 'f',
    }
}

impl TTAxis {
    pub fn index(self) -> (r: usize)
        ensures
            r == axis_index(self),
    {
        match self {
            TTAxis::X => 0,
            TTAxis::Y => 1,
            TTAxis::T => 2,
            TTAxis::S => 3,
            TTAxis::F => 4,
        }
    }

    pub fn label_char(self) -> (r: char)
        ensures
            r == axis_char(self),
    {
        match self {
            TTAxis::X => 'X',
            TTAxis::Y => 'Y',
            TTAxis::T => 't',
            TTAxis::S => 's',
            TTAxis::F => 'f',
        }
    }

    /// Whether `self` comes before `other` in the order X, Y, T, S, F.
    pub fn precedes(self, other: TTAxis) -> (r: bool)
        ensures
            r == (axis_index(self) < axis_index(other)),
    {
        self.index() < other.index()
    }
}

/// The domain a view shows.
#[derive(Clone, Copy, Debug, PartialEq, Eq, Structural)]
pub enum ViewModeDomain {
    TimeView,
    FourierView,
    FastWaveletView,
    WaveletView,
}

/// How a complex value is shown.
#[derive(Clone, Copy, Debug, PartialEq, Eq, Structural)]
pub enum ComplexResultMode {
    Phase,
    Magnitude,
    Real,
    Imaginary,
}

/// How many axis pairs a domain offers.
pub open spec fn mode_count(d: ViewModeDomain) -> nat {
    match d {
        ViewModeDomain::TimeView | ViewModeDomain::FourierView => 3,
        ViewModeDomain::FastWaveletView | ViewModeDomain::WaveletView => 6,
    }
}

/// The two axes shown by mode `c` of domain `d` (horizontal, vertical).
pub open spec fn view_axes_spec(d: ViewModeDomain, c: nat) -> (TTAxis, TTAxis) {
    match d {
        ViewModeDomain::TimeView => if c == 0 {
            (TTAxis::X, TTAxis::Y)
        } else if c == 1 {
            (TTAxis::X, TTAxis::T)
        } else {
            (TTAxis::T, TTAxis::Y)
        },
        ViewModeDomain::FourierView => if c == 0 {
            (TTAxis::X, TTAxis::Y)
        } else if c == 1 {
            (TTAxis::X, TTAxis::F)
        } else {
            (TTAxis::F, TTAxis::Y)
        },
        ViewModeDomain::FastWaveletView | ViewModeDomain::WaveletView => if c == 0 {
            (TTAxis::X, TTAxis::Y)
        } else if c == 1 {
            (TTAxis::X, TTAxis::T)
        } else if c == 2 {
            (TTAxis::X, TTAxis::S)
        } else if c == 3 {
            (TTAxis::T, TTAxis::Y)
        } else if c == 4 {
            (TTAxis::S, TTAxis::Y)
        } else {
            (TTAxis::T, TTAxis::S)
        },
    }
}

/// The axes held at a chosen position by mode `c` of domain `d`.
pub open spec fn settings_axes_spec(d: ViewModeDomain, c: nat) -> Seq<TTAxis> {
    match d {
        ViewModeDomain::TimeView => if c == 0 {
            seq![TTAxis::T]
        } else if c == 1 {
            seq![TTAxis::Y]
        } else {
            seq![TTAxis::X]
        },
        ViewModeDomain::FourierView => if c == 0 {
            seq![TTAxis::F]
        } else if c == 1 {
            seq![TTAxis::Y]
        } else {
            seq![TTAxis::X]
        },
        ViewModeDomain::FastWaveletView | ViewModeDomain::WaveletView => if c == 0 {
            seq![TTAxis::T, TTAxis::S]
        } else if c == 1 {
            seq![TTAxis::Y, TTAxis::S]
        } else if c == 2 {
            seq![TTAxis::T, TTAxis::Y]
        } else if c == 3 {
            seq![TTAxis::X, TTAxis::S]
        } else if c == 4 {
            seq![TTAxis::T, TTAxis::X]
        } else {
            seq![TTAxis::X, TTAxis::Y]
        },
    }
}

/// The axes that a domain spans.
pub open spec fn domain_axes(d: ViewModeDomain) -> Set<TTAxis> {
    match d {
        ViewModeDomain::TimeView => set![TTAxis::X, TTAxis::Y, TTAxis::T],
        ViewModeDomain::FourierView => set![TTAxis::X, TTAxis::Y, TTAxis::F],
        ViewModeDomain::FastWaveletView | ViewModeDomain::WaveletView => set![
            TTAxis::X,
            TTAxis::Y,
            TTAxis::T,
            TTAxis::S,
        ],
    }
}

/// In every mode the two shown axes differ, and together with the held axes
/// they are exactly the axes of the domain, each named once.
pub proof fn lemma_mode_axes_partition(d: ViewModeDomain, c: nat)
    requires
        c < mode_count(d),
    ensures
        view_axes_spec(d, c).0 != view_axes_spec(d, c).1,
        !settings_axes_spec(d, c).contains(view_axes_spec(d, c).0),
        !settings_axes_spec(d, c).contains(view_axes_spec(d, c).1),
        settings_axes_spec(d, c).no_duplicates(),
        settings_axes_spec(d, c).to_set().insert(view_axes_spec(d, c).0).insert(
            view_axes_spec(d, c).1,
        ) == domain_axes(d),
{
    let s = settings_axes_spec(d, c);
    assert(s.to_set().insert(view_axes_spec(d, c).0).insert(view_axes_spec(d, c).1)
        =~= domain_axes(d)) by {
        if s.len() == 1 {
            assert(s.to_set() =~= set![s[0]]) by {
                assert(s.contains(s[0]));
            }
        } else {
            assert(s.to_set() =~= set![s[0], s[1]]) by {
                assert(s.contains(s[0]));
                assert(s.contains(s[1]));
            }
        }
    }
}

impl ViewModeDomain {
    /// How many axis pairs the domain offers.
    pub fn mode_count(self) -> (r: usize)
        ensures
            r == mode_count(self),
    {
        match self {
            ViewModeDomain::TimeView | ViewModeDomain::FourierView => 3,
            ViewModeDomain::FastWaveletView | ViewModeDomain::WaveletView => 6,
        }
    }

    /// The two axes shown by mode `c`.
    pub fn view_axes(self, c: usize) -> (r: [TTAxis; 2])
        requires
            c < mode_count(self),
        ensures
            r[0] == view_axes_spec(self, c as nat).0,
            r[1] == view_axes_spec(self, c as nat).1,
    {
        match self {
            ViewModeDomain::TimeView => if c == 0 {
                [TTAxis::X, TTAxis::Y]
            } else if c == 1 {
                [TTAxis::X, TTAxis::T]
            } else {
                [TTAxis::T, TTAxis::Y]
            },
            ViewModeDomain::FourierView => if c == 0 {
                [TTAxis::X, TTAxis::Y]
            } else if c == 1 {
                [TTAxis::X, TTAxis::F]
            } else {
                [TTAxis::F, TTAxis::Y]
            },
            ViewModeDomain::FastWaveletView | ViewModeDomain::WaveletView => if c == 0 {
                [TTAxis::X, TTAxis::Y]
            } else if c == 1 {
                [TTAxis::X, TTAxis::T]
            } else if c == 2 {
                [TTAxis::X, TTAxis::S]
            } else if c == 3 {
                [TTAxis::T, TTAxis::Y]
            } else if c == 4 {
                [TTAxis::S, TTAxis::Y]
            } else {
                [TTAxis::T, TTAxis::S]
            },
        }
    }

    /// The axes held at a chosen position by mode `c`.
    pub fn settings_axes(self, c: usize) -> (r: Vec<TTAxis>)
        requires
            c < mode_count(self),
        ensures
            r@ == settings_axes_spec(self, c as nat),
    {
        let r = match self {
            ViewModeDomain::TimeView => if c == 0 {
                vec![TTAxis::T]
            } else if c == 1 {
                vec![TTAxis::Y]
            } else {
                vec![TTAxis::X]
            },
            ViewModeDomain::FourierView => if c == 0 {
                vec![TTAxis::F]
            } else if c == 1 {
                vec![TTAxis::Y]
            } else {
                vec![TTAxis::X]
            },
            ViewModeDomain::FastWaveletView | ViewModeDomain::WaveletView => if c == 0 {
                vec![TTAxis::T, TTAxis::S]
            } else if c == 1 {
                vec![TTAxis::Y, TTAxis::S]
            } else if c == 2 {
                vec![TTAxis::T, TTAxis::Y]
            } else if c == 3 {
                vec![TTAxis::X, TTAxis::S]
            } else if c == 4 {
                vec![TTAxis::T, TTAxis::X]
            } else {
                vec![TTAxis::X, TTAxis::Y]
            },
        };
        assert(r@ =~= settings_axes_spec(self, c as nat));
        r
    }
}

} // verus!
