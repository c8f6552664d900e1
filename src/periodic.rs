use vstd::prelude::*;

use crate::cell::LatticeShift;
use crate::dimensionality::Dimensionality;

verus! {

/// How many periodic images a query point has: three per active axis.
pub open spec fn image_count(dim: Dimensionality) -> nat {
    match dim {
        Dimensionality::OneD => 3,
        Dimensionality::TwoD => 9,
        Dimensionality::ThreeD => 27,
    }
}

/// The `n`-th image shift: every combination of -1, 0 and +1 on the active
/// axes, with x varying fastest, and 0 on the inactive axes.
pub open spec fn image_shift(dim: Dimensionality, n: nat) -> LatticeShift {
    LatticeShift {
        x: ((n % 3) - 1) as i32,
        y: if dim.spec_axes() >= 2 {
            (((n / 3) % 3) - 1) as i32
        } else {
            0i32
        },
        z: if dim.spec_axes() == 3 {
            (((n / 9) % 3) - 1) as i32
        } else {
            0i32
        },
    }
}

/// The lattice shifts of all periodic images of a query point, the zero shift
/// among them.
pub fn image_shifts(dim: Dimensionality) -> (r: Vec<LatticeShift>)
    ensures
        r@.len() == image_count(dim),
        forall|n: int| 0 <= n < r@.len() ==> #[trigger] r@[n] == image_shift(dim, n as nat),
{
    let count: usize = match dim {
        Dimensionality::OneD => 3,
        Dimensionality::TwoD => 9,
        Dimensionality::ThreeD => 27,
    };
    let axes = dim.axes();
    let mut r: Vec<LatticeShift> = Vec::new();
    let mut n: usize = 0;
    while n < count
        invariant
            n <= count,
            count == image_count(dim),
            axes == dim.spec_axes(),
            r@.len() == n,
            forall|m: int| 0 <= m < n ==> #[trigger] r@[m] == image_shift(dim, m as nat),
        decreases count - n,
    {
        let x = (n % 3) as i32 - 1;
        let y = if axes >= 2 {
            ((n / 3) % 3) as i32 - 1
        } else {
            0
        };
        let z = if axes == 3 {
            ((n / 9) % 3) as i32 - 1
        } else {
            0
        };
        r.push(LatticeShift { x, y, z });
        n = n + 1;
    }
    r
}

} // verus!
