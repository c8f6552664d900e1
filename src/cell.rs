use vstd::prelude::*;

use crate::dimensionality::Dimensionality;
use crate::links::FaceLink;

verus! {

/// An integer lattice translation, in units of the box width, that carries a
/// neighbour onto the periodic image that produced a bisector.
#[derive(Clone, Copy, Debug, PartialEq, Eq, Structural)]
pub struct LatticeShift {
    pub x: i32,
    pub y: i32,
    pub z: i32,
}

impl LatticeShift {
    pub open spec fn spec_is_zero(self) -> bool {
        self.x == 0 && self.y == 0 && self.z == 0
    }

    pub fn is_zero(&self) -> (r: bool)
        ensures
            r == self.spec_is_zero(),
    {
        self.x == 0 && self.y == 0 && self.z == 0
    }
}

/// What produced one clipping plane of a cell.
#[derive(Clone, Copy, Debug, PartialEq, Eq, Structural)]
pub enum PlaneKind {
    /// A wall of the box: `axis` is 0, 1 or 2 (x, y, z), on its lower or upper side.
    Wall { axis: usize, upper: bool },
    /// The perpendicular bisector between the cell's generator and an image of
    /// the generator `neighbour`, translated by `shift`.
    Bisector { neighbour: usize, shift: LatticeShift },
}

/// A vertex of a cell, named by the indices of the three planes it lies on.
#[derive(Clone, Copy, Debug, PartialEq, Eq, Structural)]
pub struct VertexPlanes {
    pub a: usize,
    pub b: usize,
    pub c: usize,
}

/// Result of clipping a cell by one half-space.
#[derive(Clone, Copy, Debug, PartialEq, Eq, Structural)]
pub enum ClipOutcome {
    /// No vertex lies outside: the plane is discarded and the cell is unchanged.
    Redundant,
    /// Every vertex lies outside: the cell would be empty and is left unchanged.
    Collapsed,
    /// The plane was appended and the vertices outside it replaced.
    Clipped,
}

/// The plane index of a box wall: lower x, upper x, lower y, upper y, lower z, upper z.
pub open spec fn wall_index(axis: nat, upper: bool) -> nat {
    2 * axis + if upper { 1nat } else { 0nat }
}

/// The six walls of the box, in plane-index order.
pub open spec fn box_planes() -> Seq<PlaneKind> {
    seq![
        PlaneKind::Wall { axis: 0, upper: false },
        PlaneKind::Wall { axis: 0, upper: true },
        PlaneKind::Wall { axis: 1, upper: false },
        PlaneKind::Wall { axis: 1, upper: true },
        PlaneKind::Wall { axis: 2, upper: false },
        PlaneKind::Wall { axis: 2, upper: true },
    ]
}

/// The box corner number `n` (bit 2: upper x, bit 1: upper y, bit 0: upper z).
pub open spec fn box_corner(n: nat) -> VertexPlanes {
    VertexPlanes {
        a: wall_index(0, (n / 4) % 2 == 1) as usize,
        b: wall_index(1, (n / 2) % 2 == 1) as usize,
        c: wall_index(2, n % 2 == 1) as usize,
    }
}

pub open spec fn on_plane(p: usize, v: VertexPlanes) -> bool {
    p == v.a || p == v.b || p == v.c
}

/// The two planes that `u` shares with `w`, when it shares exactly two of them:
/// the line of an edge between the two vertices.
pub open spec fn edge_planes(u: VertexPlanes, w: VertexPlanes) -> Option<(usize, usize)> {
    if on_plane(u.a, w) && on_plane(u.b, w) && !on_plane(u.c, w) {
        Some((u.a, u.b))
    } else if on_plane(u.a, w) && !on_plane(u.b, w) && on_plane(u.c, w) {
        Some((u.a, u.c))
    } else if !on_plane(u.a, w) && on_plane(u.b, w) && on_plane(u.c, w) {
        Some((u.b, u.c))
    } else {
        None
    }
}

/// The items among the first `m` that are not outside, in order.
pub open spec fn kept<T>(vs: Seq<T>, out: Seq<bool>, m: nat) -> Seq<T>
    decreases m,
{
    if m == 0 {
        seq![]
    } else {
        let prev = kept(vs, out, (m - 1) as nat);
        if out[m - 1] {
            prev
        } else {
            prev.push(vs[m - 1])
        }
    }
}

/// The new vertices on plane `k` made from the edges that join the kept vertex
/// `i` to an outside vertex among the first `m`, in order.
pub open spec fn crossing_row(
    vs: Seq<VertexPlanes>,
    out: Seq<bool>,
    i: int,
    m: nat,
    k: usize,
) -> Seq<VertexPlanes>
    decreases m,
{
    if m == 0 {
        seq![]
    } else {
        let prev = crossing_row(vs, out, i, (m - 1) as nat, k);
        let j = m - 1;
        if !out[i] && out[j] && edge_planes(vs[i], vs[j]) is Some {
            let (p, q) = edge_planes(vs[i], vs[j])->Some_0;
            prev.push(VertexPlanes { a: p, b: q, c: k })
        } else {
            prev
        }
    }
}

/// The new vertices made from the edges leaving the first `n` vertices.
pub open spec fn crossings(vs: Seq<VertexPlanes>, out: Seq<bool>, n: nat, k: usize) -> Seq<
    VertexPlanes,
>
    decreases n,
{
    if n == 0 {
        seq![]
    } else {
        crossings(vs, out, (n - 1) as nat, k) + crossing_row(vs, out, n - 1, vs.len(), k)
    }
}

pub open spec fn any_outside(out: Seq<bool>) -> bool {
    exists|i: int| 0 <= i < out.len() && out[i]
}

pub open spec fn all_outside(out: Seq<bool>) -> bool {
    forall|i: int| 0 <= i < out.len() ==> out[i]
}


/// The indices of the vertices among the first `m` that lie on plane `p`, in order.
pub open spec fn incident(vs: Seq<VertexPlanes>, p: usize, m: nat) -> Seq<usize>
    decreases m,
{
    if m == 0 {
        seq![]
    } else {
        let prev = incident(vs, p, (m - 1) as nat);
        if on_plane(p, vs[m - 1]) {
            prev.push((m - 1) as usize)
        } else {
            prev
        }
    }
}

/// Whether the cell of `owner` emits the face on a plane of this kind: a wall
/// always; a bisector when the neighbour is a periodic image, when the owner
/// has the lower id, or when the neighbour's cell is not built.
pub open spec fn emits(owner: usize, kind: PlaneKind, built: Seq<bool>) -> bool {
    match kind {
        PlaneKind::Wall { .. } => true,
        PlaneKind::Bisector { neighbour, shift } => !shift.spec_is_zero() || owner < neighbour
            || !built[neighbour as int],
    }
}

/// Whether a face on a plane of this kind belongs to the tessellation of the
/// given dimensionality: walls across an inactive axis only close the slab.
pub open spec fn fits(dim: Dimensionality, kind: PlaneKind) -> bool {
    match kind {
        PlaneKind::Wall { axis, .. } => axis < dim.spec_axes(),
        PlaneKind::Bisector { .. } => true,
    }
}

/// Every bisector names a neighbour below `n`.
pub open spec fn neighbours_below(planes: Seq<PlaneKind>, n: nat) -> bool {
    forall|p: int|
        0 <= p < planes.len() ==> match #[trigger] planes[p] {
            PlaneKind::Bisector { neighbour, .. } => neighbour < n,
            PlaneKind::Wall { .. } => true,
        }
}

/// The planes among the first `m` that carry a face which this cell emits.
pub open spec fn emitted(
    planes: Seq<PlaneKind>,
    vs: Seq<VertexPlanes>,
    owner: usize,
    built: Seq<bool>,
    dim: Dimensionality,
    m: nat,
) -> Seq<usize>
    decreases m,
{
    if m == 0 {
        seq![]
    } else {
        let prev = emitted(planes, vs, owner, built, dim, (m - 1) as nat);
        let p = (m - 1) as usize;
        if incident(vs, p, vs.len()).len() >= 3 && emits(owner, planes[p as int], built) && fits(
            dim,
            planes[p as int],
        ) {
            prev.push(p)
        } else {
            prev
        }
    }
}


/// A face between two distinct cells that does not join a periodic image is
/// emitted exactly once: by exactly one of the two cells among those built.
pub proof fn lemma_internal_face_emitted_once(i: usize, j: usize, built: Seq<bool>)
    requires
        i != j,
        i < built.len(),
        j < built.len(),
        built[i as int] || built[j as int],
    ensures
        (built[i as int] && emits(
            i,
            PlaneKind::Bisector { neighbour: j, shift: LatticeShift { x: 0, y: 0, z: 0 } },
            built,
        )) != (built[j as int] && emits(
            j,
            PlaneKind::Bisector { neighbour: i, shift: LatticeShift { x: 0, y: 0, z: 0 } },
            built,
        )),
{
}


/// When the owner's cell is the only one built, it emits the face on every
/// plane it has: a partial build loses none of the selected cell's faces.
pub proof fn lemma_lone_cell_emits_all(owner: usize, kind: PlaneKind, built: Seq<bool>)
    requires
        owner < built.len(),
        built[owner as int],
        forall|j: int| 0 <= j < built.len() && j != owner ==> !built[j],
        match kind {
            PlaneKind::Bisector { neighbour, shift } => neighbour < built.len() && (neighbour
                != owner || !shift.spec_is_zero()),
            PlaneKind::Wall { .. } => true,
        },
    ensures
        emits(owner, kind, built),
{
}

/// The link of the face on a plane of this kind, owned by `owner`.
pub open spec fn link_of(owner: usize, kind: PlaneKind) -> FaceLink {
    match kind {
        PlaneKind::Wall { .. } => FaceLink { left: owner, right: None, shift: None },
        PlaneKind::Bisector { neighbour, shift } => FaceLink {
            left: owner,
            right: Some(neighbour),
            shift: if shift.spec_is_zero() {
                None
            } else {
                Some(shift)
            },
        },
    }
}

/// A vertex names three distinct planes, all below `n`.
pub open spec fn vertex_wf(v: VertexPlanes, n: nat) -> bool {
    &&& v.a < n
    &&& v.b < n
    &&& v.c < n
    &&& v.a != v.b
    &&& v.b != v.c
    &&& v.a != v.c
}

/// The combinatorial state of one Voronoi cell under construction: its clipping
/// planes (the six box walls first, then bisectors in the order they were
/// accepted) and its vertices, each the meeting point of three of those planes.
/// Edges are not stored: two vertices are joined by an edge exactly when they
/// share two planes.
pub struct CellTopology {
    generator: usize,
    planes: Vec<PlaneKind>,
    vertices: Vec<VertexPlanes>,
}



/// The items of `v` whose flag in `outside` is not set, in order: applied to a
/// list kept parallel to a cell's vertices, it drops the same entries as `clip`.
pub fn keep_inside<T: Copy>(v: &Vec<T>, outside: &Vec<bool>) -> (r: Vec<T>)
    requires
        outside@.len() == v@.len(),
    ensures
        r@ == kept(v@, outside@, v@.len()),
{
    let mut r: Vec<T> = Vec::new();
    let mut i: usize = 0;
    while i < v.len()
        invariant
            i <= v@.len(),
            outside@.len() == v@.len(),
            r@ == kept(v@, outside@, i as nat),
        decreases v@.len() - i,
    {
        if !outside[i] {
            r.push(v[i]);
        }
        i = i + 1;
    }
    r
}

/// The planes shared by two vertices when they share exactly two, as `edge_planes` states.
pub fn shared_edge(u: VertexPlanes, w: VertexPlanes) -> (r: Option<(usize, usize)>)
    ensures
        r == edge_planes(u, w),
{
    let a_in = u.a == w.a || u.a == w.b || u.a == w.c;
    let b_in = u.b == w.a || u.b == w.b || u.b == w.c;
    let c_in = u.c == w.a || u.c == w.b || u.c == w.c;
    if a_in && b_in && !c_in {
        Some((u.a, u.b))
    } else if a_in && !b_in && c_in {
        Some((u.a, u.c))
    } else if !a_in && b_in && c_in {
        Some((u.b, u.c))
    } else {
        None
    }
}

proof fn lemma_crossing_row_wf(vs: Seq<VertexPlanes>, out: Seq<bool>, i: int, m: nat, k: usize)
    requires
        0 <= i < vs.len(),
        m <= vs.len(),
        out.len() == vs.len(),
        vertex_wf(vs[i], k as nat),
    ensures
        forall|t: int|
            0 <= t < crossing_row(vs, out, i, m, k).len() ==> vertex_wf(
                #[trigger] crossing_row(vs, out, i, m, k)[t],
                (k + 1) as nat,
            ),
    decreases m,
{
    if m > 0 {
        lemma_crossing_row_wf(vs, out, i, (m - 1) as nat, k);
        let prev = crossing_row(vs, out, i, (m - 1) as nat, k);
        let j = m - 1;
        if !out[i] && out[j] && edge_planes(vs[i], vs[j]) is Some {
            let (p, q) = edge_planes(vs[i], vs[j])->Some_0;
            let nv = VertexPlanes { a: p, b: q, c: k };
            assert forall|t: int| 0 <= t < prev.push(nv).len() implies vertex_wf(
                #[trigger] prev.push(nv)[t],
                (k + 1) as nat,
            ) by {
                if t < prev.len() {
                    assert(prev.push(nv)[t] == prev[t]);
                }
            }
        }
    }
}


proof fn lemma_kept_wf(vs: Seq<VertexPlanes>, out: Seq<bool>, m: nat, np: nat)
    requires
        m <= vs.len(),
        forall|t: int| 0 <= t < vs.len() ==> vertex_wf(#[trigger] vs[t], np),
    ensures
        forall|t: int|
            0 <= t < kept(vs, out, m).len() ==> vertex_wf(#[trigger] kept(vs, out, m)[t], np),
    decreases m,
{
    if m > 0 {
        lemma_kept_wf(vs, out, (m - 1) as nat, np);
        let prev = kept(vs, out, (m - 1) as nat);
        if !out[m - 1] {
            assert forall|t: int| 0 <= t < prev.push(vs[m - 1]).len() implies vertex_wf(
                #[trigger] prev.push(vs[m - 1])[t],
                np,
            ) by {
                if t < prev.len() {
                    assert(prev.push(vs[m - 1])[t] == prev[t]);
                }
            }
        }
    }
}

proof fn lemma_crossings_wf(vs: Seq<VertexPlanes>, out: Seq<bool>, n: nat, k: usize)
    requires
        n <= vs.len(),
        out.len() == vs.len(),
        forall|t: int| 0 <= t < vs.len() ==> vertex_wf(#[trigger] vs[t], k as nat),
    ensures
        forall|t: int|
            0 <= t < crossings(vs, out, n, k).len() ==> vertex_wf(
                #[trigger] crossings(vs, out, n, k)[t],
                (k + 1) as nat,
            ),
    decreases n,
{
    if n > 0 {
        lemma_crossings_wf(vs, out, (n - 1) as nat, k);
        lemma_crossing_row_wf(vs, out, n - 1, vs.len(), k);
        let a = crossings(vs, out, (n - 1) as nat, k);
        let b = crossing_row(vs, out, n - 1, vs.len(), k);
        assert forall|t: int| 0 <= t < (a + b).len() implies vertex_wf(#[trigger] (a + b)[t], (k + 1) as nat) by {
            if t < a.len() {
                assert((a + b)[t] == a[t]);
            } else {
                assert((a + b)[t] == b[t - a.len()]);
            }
        }
    }
}

impl CellTopology {
    pub closed spec fn spec_generator(&self) -> usize {
        self.generator
    }

    pub closed spec fn planes_view(&self) -> Seq<PlaneKind> {
        self.planes@
    }

    pub closed spec fn vertices_view(&self) -> Seq<VertexPlanes> {
        self.vertices@
    }

    /// The walls come first, and every vertex names three distinct known planes.
    pub open spec fn wf(&self) -> bool {
        &&& self.planes_view().len() >= 6
        &&& self.planes_view().subrange(0, 6) == box_planes()
        &&& forall|i: int|
            0 <= i < self.vertices_view().len() ==> vertex_wf(
                #[trigger] self.vertices_view()[i],
                self.planes_view().len(),
            )
    }

    /// The box around `generator`: six walls and their eight corners.
    pub fn new_box(generator: usize) -> (r: CellTopology)
        ensures
            r.wf(),
            r.spec_generator() == generator,
            r.planes_view() == box_planes(),
            r.vertices_view().len() == 8,
            forall|n: int| 0 <= n < 8 ==> #[trigger] r.vertices_view()[n] == box_corner(n as nat),
    {
        let planes: Vec<PlaneKind> = vec![
            PlaneKind::Wall { axis: 0, upper: false },
            PlaneKind::Wall { axis: 0, upper: true },
            PlaneKind::Wall { axis: 1, upper: false },
            PlaneKind::Wall { axis: 1, upper: true },
            PlaneKind::Wall { axis: 2, upper: false },
            PlaneKind::Wall { axis: 2, upper: true },
        ];
        let mut vertices: Vec<VertexPlanes> = Vec::new();
        let mut n: usize = 0;
        while n < 8
            invariant
                n <= 8,
                vertices@.len() == n,
                forall|m: int| 0 <= m < n ==> #[trigger] vertices@[m] == box_corner(m as nat),
            decreases 8 - n,
        {
            let v = VertexPlanes {
                a: if (n / 4) % 2 == 1 { 1 } else { 0 },
                b: if (n / 2) % 2 == 1 { 3 } else { 2 },
                c: if n % 2 == 1 { 5 } else { 4 },
            };
            vertices.push(v);
            n = n + 1;
        }
        let r = CellTopology { generator, planes, vertices };
        assert(r.planes_view().subrange(0, 6) =~= box_planes());
        assert(r.planes_view() =~= box_planes());
        r
    }

    /// Clips the cell by a new plane. `outside[i]` tells whether vertex `i`
    /// lies strictly outside the new half-space. When some but not all vertices
    /// are outside, the plane is appended, the outside vertices are dropped and
    /// every edge from a kept vertex to a dropped one gives a new vertex on the
    /// new plane, named by the edge's two planes and the new one.
    pub fn clip(&mut self, plane: PlaneKind, outside: &Vec<bool>) -> (r: ClipOutcome)
        requires
            old(self).wf(),
            outside@.len() == old(self).vertices_view().len(),
        ensures
            final(self).wf(),
            final(self).spec_generator() == old(self).spec_generator(),
            r == ClipOutcome::Redundant <==> !any_outside(outside@),
            r == ClipOutcome::Collapsed <==> any_outside(outside@) && all_outside(outside@),
            r != ClipOutcome::Clipped ==> final(self).planes_view() == old(self).planes_view()
                && final(self).vertices_view() == old(self).vertices_view(),
            r == ClipOutcome::Clipped ==> final(self).planes_view() == old(self).planes_view().push(
                plane,
            ) && final(self).vertices_view() == kept(
                old(self).vertices_view(),
                outside@,
                outside@.len(),
            ) + crossings(
                old(self).vertices_view(),
                outside@,
                outside@.len(),
                old(self).planes_view().len() as usize,
            ),
    {
        let n = self.vertices.len();
        let mut n_out: usize = 0;
        let mut i: usize = 0;
        while i < n
            invariant
                i <= n,
                n == outside@.len(),
                n_out <= i,
                n_out == 0 <==> forall|t: int| 0 <= t < i ==> !outside@[t],
                n_out == i <==> forall|t: int| 0 <= t < i ==> outside@[t],
            decreases n - i,
        {
            if outside[i] {
                n_out = n_out + 1;
            }
            i = i + 1;
        }
        if n_out == 0 {
            return ClipOutcome::Redundant;
        }
        if n_out == n {
            return ClipOutcome::Collapsed;
        }
        let k: usize = self.planes.len();
        let ghost vs = self.vertices@;
        let ghost np = self.planes@.len();
        let mut next: Vec<VertexPlanes> = Vec::new();
        let mut i: usize = 0;
        while i < n
            invariant
                i <= n,
                n == outside@.len(),
                vs == self.vertices@,
                n == vs.len(),
                next@ == kept(vs, outside@, i as nat),
            decreases n - i,
        {
            if !outside[i] {
                next.push(self.vertices[i]);
            }
            i = i + 1;
        }
        let ghost n_kept = next@.len();
        let mut i: usize = 0;
        while i < n
            invariant
                i <= n,
                n == outside@.len(),
                vs == self.vertices@,
                n == vs.len(),
                next@.len() >= n_kept,
                next@ == kept(vs, outside@, n as nat) + crossings(vs, outside@, i as nat, k),
            decreases n - i,
        {
            let mut j: usize = 0;
            let ghost before = next@;
            while j < n
                invariant
                    i < n,
                    j <= n,
                    n == outside@.len(),
                    vs == self.vertices@,
                    n == vs.len(),
                    next@ == before + crossing_row(vs, outside@, i as int, j as nat, k),
                decreases n - j,
            {
                if !outside[i] && outside[j] {
                    match shared_edge(self.vertices[i], self.vertices[j]) {
                        Some((p, q)) => {
                            next.push(VertexPlanes { a: p, b: q, c: k });
                        },
                        None => {},
                    }
                }
                proof {
                    assert(next@ =~= before + crossing_row(vs, outside@, i as int, (j + 1) as nat, k));
                }
                j = j + 1;
            }
            proof {
                assert(next@ =~= kept(vs, outside@, n as nat) + crossings(vs, outside@, (i + 1) as nat, k));
            }
            i = i + 1;
        }
        self.planes.push(plane);
        self.vertices = next;
        proof {
            assert(self.planes@.subrange(0, 6) =~= old(self).planes@.subrange(0, 6));
            lemma_kept_wf(vs, outside@, n as nat, np);
            lemma_crossings_wf(vs, outside@, n as nat, k);
            let ks = kept(vs, outside@, n as nat);
            let cs = crossings(vs, outside@, n as nat, k);
            assert forall|t: int| 0 <= t < self.vertices@.len() implies vertex_wf(
                #[trigger] self.vertices@[t],
                self.planes@.len(),
            ) by {
                if t < ks.len() {
                    assert(self.vertices@[t] == ks[t]);
                } else {
                    assert(self.vertices@[t] == cs[t - ks.len()]);
                }
            }
        }
        ClipOutcome::Clipped
    }

    pub fn generator(&self) -> (r: usize)
        ensures
            r == self.spec_generator(),
    {
        self.generator
    }

    pub fn plane_count(&self) -> (r: usize)
        ensures
            r == self.planes_view().len(),
    {
        self.planes.len()
    }

    pub fn vertex_count(&self) -> (r: usize)
        ensures
            r == self.vertices_view().len(),
    {
        self.vertices.len()
    }

    pub fn plane(&self, p: usize) -> (r: PlaneKind)
        requires
            p < self.planes_view().len(),
        ensures
            r == self.planes_view()[p as int],
    {
        self.planes[p]
    }

    pub fn vertex(&self, i: usize) -> (r: VertexPlanes)
        requires
            i < self.vertices_view().len(),
        ensures
            r == self.vertices_view()[i as int],
    {
        self.vertices[i]
    }

    /// The indices of the vertices that lie on plane `p`, in order.
    pub fn plane_vertices(&self, p: usize) -> (r: Vec<usize>)
        ensures
            r@ == incident(self.vertices_view(), p, self.vertices_view().len()),
    {
        let mut r: Vec<usize> = Vec::new();
        let mut i: usize = 0;
        while i < self.vertices.len()
            invariant
                i <= self.vertices@.len(),
                r@ == incident(self.vertices@, p, i as nat),
            decreases self.vertices@.len() - i,
        {
            let v = self.vertices[i];
            if p == v.a || p == v.b || p == v.c {
                r.push(i);
            }
            i = i + 1;
        }
        r
    }

    /// The planes that carry a face this cell emits: those with at least three
    /// vertices, whose face fits the dimensionality, and which this cell owns
    /// (`built[j]` tells whether the cell of generator `j` is constructed).
    pub fn emitted_faces(&self, built: &Vec<bool>, dim: Dimensionality) -> (r: Vec<usize>)
        requires
            neighbours_below(self.planes_view(), built@.len()),
        ensures
            r@ == emitted(
                self.planes_view(),
                self.vertices_view(),
                self.spec_generator(),
                built@,
                dim,
                self.planes_view().len(),
            ),
            forall|t: int|
                0 <= t < r@.len() ==> #[trigger] r@[t] < self.planes_view().len() && fits(
                    dim,
                    self.planes_view()[r@[t] as int],
                ),
    {
        let mut r: Vec<usize> = Vec::new();
        let mut p: usize = 0;
        while p < self.planes.len()
            invariant
                p <= self.planes@.len(),
                neighbours_below(self.planes@, built@.len()),
                r@ == emitted(self.planes@, self.vertices@, self.generator, built@, dim, p as nat),
                forall|t: int|
                    0 <= t < r@.len() ==> #[trigger] r@[t] < p && fits(dim, self.planes@[r@[t] as int]),
            decreases self.planes@.len() - p,
        {
            let kind = self.planes[p];
            let owned = match kind {
                PlaneKind::Wall { .. } => true,
                PlaneKind::Bisector { neighbour, shift } => {
                    assert(neighbour < built@.len()) by {
                        assert(match self.planes@[p as int] {
                            PlaneKind::Bisector { neighbour, .. } => neighbour < built@.len(),
                            PlaneKind::Wall { .. } => true,
                        });
                    }
                    !shift.is_zero() || self.generator < neighbour || !built[neighbour]
                },
            };
            let fitting = match kind {
                PlaneKind::Wall { axis, .. } => axis < dim.axes(),
                PlaneKind::Bisector { .. } => true,
            };
            if owned && fitting && self.plane_vertices(p).len() >= 3 {
                r.push(p);
            }
            p = p + 1;
        }
        r
    }

    /// The link of the face that lies on plane `p`.
    pub fn face_link(&self, p: usize) -> (r: FaceLink)
        requires
            p < self.planes_view().len(),
        ensures
            r == link_of(self.spec_generator(), self.planes_view()[p as int]),
    {
        match self.planes[p] {
            PlaneKind::Wall { .. } => FaceLink { left: self.generator, right: None, shift: None },
            PlaneKind::Bisector { neighbour, shift } => FaceLink {
                left: self.generator,
                right: Some(neighbour),
                shift: if shift.is_zero() {
                    None
                } else {
                    Some(shift)
                },
            },
        }
    }
}

} // verus!
