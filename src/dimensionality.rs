use vstd::prelude::*;

verus! {

/// Number of axes along which the tessellation extends.
#[derive(Clone, Copy, Debug, PartialEq, Eq, Structural)]
pub enum Dimensionality {
    OneD,
    TwoD,
    ThreeD,
}

/// Errors reported by the library.
#[derive(Clone, Copy, Debug, PartialEq, Eq, Structural)]
pub enum VoronoiError {
    /// The requested dimensionality is not 1, 2 or 3.
    InvalidDimensionality,
}

impl Dimensionality {
    /// The number of active axes, as a spec value.
    pub open spec fn spec_axes(self) -> nat {
        match self {
            Dimensionality::OneD => 1,
            Dimensionality::TwoD => 2,
            Dimensionality::ThreeD => 3,
        }
    }

    /// Reads a dimensionality from its number of axes.
    pub fn try_from_axes(u: usize) -> (r: Result<Dimensionality, VoronoiError>)
        ensures
            1 <= u <= 3 <==> r is Ok,
            r is Ok ==> r->Ok_0.spec_axes() == u,
            !(1 <= u <= 3) ==> r == Err::<Dimensionality, VoronoiError>(VoronoiError::InvalidDimensionality),
    {
        match u {
            1 => Ok(Dimensionality::OneD),
            2 => Ok(Dimensionality::TwoD),
            3 => Ok(Dimensionality::ThreeD),
            _ => Err(VoronoiError::InvalidDimensionality),
        }
    }

    /// The number of active axes.
    pub fn axes(self) -> (r: usize)
        ensures
            r == self.spec_axes(),
    {
        match self {
            Dimensionality::OneD => 1,
            Dimensionality::TwoD => 2,
            Dimensionality::ThreeD => 3,
        }
    }
}


impl From<Dimensionality> for usize {
    fn from(dim: Dimensionality) -> (r: usize) {
        dim.axes()
    }
}

impl vstd::std_specs::convert::FromSpecImpl<Dimensionality> for usize {
    open spec fn obeys_from_spec() -> bool {
        true
    }

    open spec fn from_spec(dim: Dimensionality) -> usize {
        dim.spec_axes() as usize
    }
}

} // verus!
