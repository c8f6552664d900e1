//! The combinatorial core of a Voronoi tessellation built cell by cell.
//!
//! A cell starts as the box around the domain and is clipped by bisector
//! half-spaces. Here a vertex is named by the three planes it lies on, so
//! clipping, face extraction, the choice of which cell emits a shared face,
//! and the cell-to-face table are exact and proved; the coordinates that
//! decide which vertices lie outside a plane are computed by the caller.
//!
//! - `cell`: plane kinds, vertex triples, clipping and face emission.
//! - `links`: face links, the cell-to-face table and the partial-build mask.
//! - `periodic`: the lattice shifts of periodic images.
//! - `dimensionality`: the number of active axes.

use vstd::prelude::*;

pub mod cell;
pub mod dimensionality;
pub mod links;
pub mod periodic;

verus! {

} // verus!
