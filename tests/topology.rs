use voronoi_topology::cell::{keep_inside, CellTopology, ClipOutcome, LatticeShift, PlaneKind, VertexPlanes};
use voronoi_topology::dimensionality::{Dimensionality, VoronoiError};
use voronoi_topology::links::{cells_to_build, join_buffers, connect, FaceLink};
use voronoi_topology::periodic::image_shifts;

const ZERO: LatticeShift = LatticeShift { x: 0, y: 0, z: 0 };

fn bisector(neighbour: usize) -> PlaneKind {
    PlaneKind::Bisector { neighbour, shift: ZERO }
}

/// Corners with an upper x wall (numbers 4 to 7) lie outside.
fn upper_x_outside() -> Vec<bool> {
    (0..8).map(|n| n >= 4).collect()
}

#[test]
fn dimensionality_from_axes() {
    assert_eq!(Dimensionality::try_from_axes(1), Ok(Dimensionality::OneD));
    assert_eq!(Dimensionality::try_from_axes(2), Ok(Dimensionality::TwoD));
    assert_eq!(Dimensionality::try_from_axes(3), Ok(Dimensionality::ThreeD));
    assert_eq!(Dimensionality::try_from_axes(0), Err(VoronoiError::InvalidDimensionality));
    assert_eq!(Dimensionality::try_from_axes(4), Err(VoronoiError::InvalidDimensionality));
    assert_eq!(Dimensionality::TwoD.axes(), 2);
}

#[test]
fn single_cell_has_six_wall_faces() {
    let cell = CellTopology::new_box(0);
    assert_eq!(cell.plane_count(), 6);
    assert_eq!(cell.vertex_count(), 8);
    assert_eq!(cell.vertex(5), VertexPlanes { a: 1, b: 2, c: 5 });
    for p in 0..6 {
        assert_eq!(cell.plane_vertices(p).len(), 4);
        assert_eq!(cell.face_link(p), FaceLink { left: 0, right: None, shift: None });
    }
    let built = vec![true];
    assert_eq!(cell.emitted_faces(&built, Dimensionality::ThreeD), vec![0, 1, 2, 3, 4, 5]);
}

#[test]
fn lower_dimensions_drop_slab_walls() {
    let cell = CellTopology::new_box(0);
    let built = vec![true];
    assert_eq!(cell.emitted_faces(&built, Dimensionality::TwoD), vec![0, 1, 2, 3]);
    assert_eq!(cell.emitted_faces(&built, Dimensionality::OneD), vec![0, 1]);
}

#[test]
fn two_cells_split_the_box() {
    let mut cell = CellTopology::new_box(0);
    assert_eq!(cell.clip(bisector(1), &upper_x_outside()), ClipOutcome::Clipped);
    assert_eq!(cell.plane_count(), 7);
    assert_eq!(cell.plane(6), bisector(1));
    assert_eq!(cell.vertex_count(), 8);
    assert_eq!(cell.vertex(0), VertexPlanes { a: 0, b: 2, c: 4 });
    assert_eq!(cell.vertex(4), VertexPlanes { a: 2, b: 4, c: 6 });
    assert_eq!(cell.plane_vertices(6), vec![4, 5, 6, 7]);
    assert_eq!(cell.plane_vertices(1), Vec::<usize>::new());
    let built = vec![true, true];
    assert_eq!(cell.emitted_faces(&built, Dimensionality::ThreeD), vec![0, 2, 3, 4, 5, 6]);
    assert_eq!(cell.face_link(6), FaceLink { left: 0, right: Some(1), shift: None });

    let mut other = CellTopology::new_box(1);
    let lower_x_outside: Vec<bool> = (0..8).map(|n| n < 4).collect();
    assert_eq!(other.clip(bisector(0), &lower_x_outside), ClipOutcome::Clipped);
    assert_eq!(other.emitted_faces(&built, Dimensionality::ThreeD), vec![1, 2, 3, 4, 5]);
}

#[test]
fn unbuilt_neighbour_leaves_face_to_built_cell() {
    let mut cell = CellTopology::new_box(1);
    let lower_x_outside: Vec<bool> = (0..8).map(|n| n < 4).collect();
    assert_eq!(cell.clip(bisector(0), &lower_x_outside), ClipOutcome::Clipped);
    let built = vec![false, true];
    assert_eq!(cell.emitted_faces(&built, Dimensionality::ThreeD), vec![1, 2, 3, 4, 5, 6]);
}

#[test]
fn periodic_faces_are_emitted_from_both_sides() {
    let shift = LatticeShift { x: -1, y: 0, z: 0 };
    let mut cell = CellTopology::new_box(1);
    let plane = PlaneKind::Bisector { neighbour: 0, shift };
    assert_eq!(cell.clip(plane, &upper_x_outside()), ClipOutcome::Clipped);
    let built = vec![true, true];
    assert_eq!(cell.emitted_faces(&built, Dimensionality::ThreeD), vec![0, 2, 3, 4, 5, 6]);
    assert_eq!(cell.face_link(6), FaceLink { left: 1, right: Some(0), shift: Some(shift) });
}

#[test]
fn redundant_and_collapsing_planes_leave_cell_unchanged() {
    let mut cell = CellTopology::new_box(0);
    assert_eq!(cell.clip(bisector(1), &vec![false; 8]), ClipOutcome::Redundant);
    assert_eq!(cell.clip(bisector(1), &vec![true; 8]), ClipOutcome::Collapsed);
    assert_eq!(cell.plane_count(), 6);
    assert_eq!(cell.vertex_count(), 8);
    assert_eq!(cell.vertex(7), VertexPlanes { a: 1, b: 3, c: 5 });
}

#[test]
fn grid_corner_cell_is_a_cube() {
    // The cell of the generator at (0.25, 0.25, 0.25) in a 2x2x2 grid.
    let mut cell = CellTopology::new_box(0);
    assert_eq!(cell.clip(bisector(4), &upper_x_outside()), ClipOutcome::Clipped);
    let y_out: Vec<bool> = (0..cell.vertex_count())
        .map(|i| {
            let v = cell.vertex(i);
            [v.a, v.b, v.c].contains(&3)
        })
        .collect();
    assert_eq!(cell.clip(bisector(2), &y_out), ClipOutcome::Clipped);
    let z_out: Vec<bool> = (0..cell.vertex_count())
        .map(|i| {
            let v = cell.vertex(i);
            [v.a, v.b, v.c].contains(&5)
        })
        .collect();
    assert_eq!(cell.clip(bisector(1), &z_out), ClipOutcome::Clipped);
    assert_eq!(cell.vertex_count(), 8);
    let built = vec![true; 8];
    let faces = cell.emitted_faces(&built, Dimensionality::ThreeD);
    assert_eq!(faces, vec![0, 2, 4, 6, 7, 8]);
    for p in faces {
        assert_eq!(cell.plane_vertices(p).len(), 4);
    }
}

#[test]
fn connections_list_owner_and_neighbour() {
    let shift = LatticeShift { x: 1, y: 0, z: 0 };
    let links = vec![
        FaceLink { left: 0, right: Some(1), shift: None },
        FaceLink { left: 0, right: None, shift: None },
        FaceLink { left: 1, right: Some(0), shift: Some(shift) },
    ];
    let c = connect(3, &links);
    assert_eq!(c.offsets, vec![0, 2, 4]);
    assert_eq!(c.counts, vec![2, 2, 0]);
    assert_eq!(c.faces, vec![0, 1, 0, 2]);
    let empty = connect(0, &vec![]);
    assert!(empty.offsets.is_empty() && empty.faces.is_empty());
}

#[test]
fn build_mask() {
    assert_eq!(cells_to_build(3, None), vec![true, true, true]);
    let mask = vec![false, true, false];
    assert_eq!(cells_to_build(3, Some(&mask)), mask);
}

#[test]
fn concat_keeps_order() {
    assert_eq!(join_buffers(vec![vec![1, 2], vec![], vec![3]]), vec![1, 2, 3]);
    assert_eq!(join_buffers(Vec::<Vec<u8>>::new()), Vec::<u8>::new());
}

#[test]
fn periodic_images() {
    let one = image_shifts(Dimensionality::OneD);
    assert_eq!(one.len(), 3);
    assert_eq!(one[0], LatticeShift { x: -1, y: 0, z: 0 });
    assert_eq!(one[2], LatticeShift { x: 1, y: 0, z: 0 });
    let two = image_shifts(Dimensionality::TwoD);
    assert_eq!(two.len(), 9);
    assert!(two.iter().all(|s| s.z == 0));
    assert_eq!(two[4], ZERO);
    let three = image_shifts(Dimensionality::ThreeD);
    assert_eq!(three.len(), 27);
    assert_eq!(three[13], ZERO);
    assert_eq!(three[26], LatticeShift { x: 1, y: 1, z: 1 });
}

#[test]
fn keep_inside_matches_clip() {
    let coords: Vec<u32> = (0..8).collect();
    assert_eq!(keep_inside(&coords, &upper_x_outside()), vec![0, 1, 2, 3]);
    assert_eq!(keep_inside(&coords, &vec![false; 8]), coords);
}

#[test]
fn dimensionality_into_axes() {
    assert_eq!(usize::from(Dimensionality::OneD), 1);
    assert_eq!(usize::from(Dimensionality::ThreeD), 3);
}
