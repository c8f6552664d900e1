use vstd::prelude::*;

use crate::cell::{link_of, LatticeShift, PlaneKind};
use vstd::pervasive::VecAdditionalExecFns;

verus! {

/// The combinatorial part of an output face: the cell that owns it, the
/// neighbouring cell across it (none for a wall of the box), and the lattice
/// shift of that neighbour (none unless the face joins a periodic image).
#[derive(Clone, Copy, Debug, PartialEq, Eq, Structural)]
pub struct FaceLink {
    pub left: usize,
    pub right: Option<usize>,
    pub shift: Option<LatticeShift>,
}


/// The faces among the first `m` that are attached to cell `c`, in face order:
/// face `i` is listed once for its owner, and once more for its neighbour when
/// it does not join a periodic image.
pub open spec fn attached(links: Seq<FaceLink>, c: usize, m: nat) -> Seq<usize>
    decreases m,
{
    if m == 0 {
        seq![]
    } else {
        let prev = attached(links, c, (m - 1) as nat);
        let i = (m - 1) as usize;
        let f = links[i as int];
        let with_left = if f.left == c {
            prev.push(i)
        } else {
            prev
        };
        if f.right == Some(c) && f.shift is None {
            with_left.push(i)
        } else {
            with_left
        }
    }
}

/// Every face names cells below `n`.
pub open spec fn links_below(links: Seq<FaceLink>, n: nat) -> bool {
    forall|i: int|
        0 <= i < links.len() ==> (#[trigger] links[i]).left < n && (links[i].right is Some
            ==> links[i].right->Some_0 < n)
}

/// The faces of every cell, laid out one window per cell in one flat table.
pub struct Connections {
    /// Start of each cell's window in `faces`.
    pub offsets: Vec<usize>,
    /// Length of each cell's window.
    pub counts: Vec<usize>,
    /// Face indices, cell after cell.
    pub faces: Vec<usize>,
}

/// Whether `r` lays out, for each of `n` cells, the faces attached to it.
pub open spec fn lays_out(r: Connections, links: Seq<FaceLink>, n: nat) -> bool {
    &&& r.offsets@.len() == n
    &&& r.counts@.len() == n
    &&& n == 0 ==> r.faces@.len() == 0
    &&& n > 0 ==> r.offsets@[0] == 0 && r.faces@.len() == r.offsets@[n - 1] + r.counts@[n - 1]
    &&& forall|c: int| 0 <= c < n - 1 ==> #[trigger] r.offsets@[c + 1] == r.offsets@[c] + r.counts@[c]
    &&& forall|c: int|
        0 <= c < n ==> #[trigger] r.counts@[c] == attached(links, c as usize, links.len()).len()
            && r.offsets@[c] + r.counts@[c] <= r.faces@.len() && r.faces@.subrange(
            r.offsets@[c] as int,
            r.offsets@[c] + r.counts@[c],
        ) == attached(links, c as usize, links.len())
}

/// Links every face to the cells it touches: to its owner, and to its
/// neighbour unless it joins a periodic image.
pub fn connect(n_cells: usize, links: &Vec<FaceLink>) -> (r: Connections)
    requires
        links_below(links@, n_cells as nat),
    ensures
        lays_out(r, links@, n_cells as nat),
{
    let mut lists: Vec<Vec<usize>> = Vec::new();
    let mut c: usize = 0;
    while c < n_cells
        invariant
            c <= n_cells,
            lists@.len() == c,
            forall|d: int| 0 <= d < c ==> (#[trigger] lists@[d])@ == Seq::<usize>::empty(),
        decreases n_cells - c,
    {
        lists.push(Vec::new());
        c = c + 1;
    }
    let mut i: usize = 0;
    while i < links.len()
        invariant
            i <= links@.len(),
            links_below(links@, n_cells as nat),
            lists@.len() == n_cells,
            forall|d: int| 0 <= d < n_cells ==> (#[trigger] lists@[d])@ == attached(links@, d as usize, i as nat),
        decreases links@.len() - i,
    {
        let f = links[i];
        assert(f.left < n_cells && (f.right is Some ==> f.right->Some_0 < n_cells)) by {
            assert(links@[i as int] == f);
        }
        let ghost mid = lists@;
        let mut list: Vec<usize> = Vec::new();
        lists.set_and_swap(f.left, &mut list);
        list.push(i);
        lists.set_and_swap(f.left, &mut list);
        let ghost after_left = lists@;
        assert forall|d: int| 0 <= d < n_cells implies (#[trigger] after_left[d])@ == (if f.left == d {
            mid[d]@.push(i)
        } else {
            mid[d]@
        }) by {}
        match (f.right, f.shift) {
            (Some(right), None) => {
                let mut list: Vec<usize> = Vec::new();
                lists.set_and_swap(right, &mut list);
                list.push(i);
                lists.set_and_swap(right, &mut list);
            },
            _ => {},
        }
        assert forall|d: int| 0 <= d < n_cells implies (#[trigger] lists@[d])@ == attached(
            links@,
            d as usize,
            (i + 1) as nat,
        ) by {
            assert(links@[i as int] == f);
        }
        i = i + 1;
    }
    let ghost all = lists@;
    let mut offsets: Vec<usize> = Vec::new();
    let mut counts: Vec<usize> = Vec::new();
    let mut faces: Vec<usize> = Vec::new();
    let mut c: usize = 0;
    while c < n_cells
        invariant
            c <= n_cells,
            lists@.len() == n_cells,
            forall|d: int| c <= d < n_cells ==> #[trigger] lists@[d] == all[d],
            forall|d: int| 0 <= d < n_cells ==> (#[trigger] all[d])@ == attached(links@, d as usize, links@.len()),
            offsets@.len() == c,
            counts@.len() == c,
            c == 0 ==> faces@.len() == 0,
            c > 0 ==> offsets@[0] == 0 && faces@.len() == offsets@[c - 1] + counts@[c - 1],
            forall|d: int| 0 <= d < c - 1 ==> #[trigger] offsets@[d + 1] == offsets@[d] + counts@[d],
            forall|d: int|
                0 <= d < c ==> #[trigger] counts@[d] == all[d]@.len() && offsets@[d] + counts@[d]
                    <= faces@.len() && faces@.subrange(offsets@[d] as int, offsets@[d] + counts@[d])
                    == all[d]@,
        decreases n_cells - c,
    {
        let mut list: Vec<usize> = Vec::new();
        lists.set_and_swap(c, &mut list);
        assert(list@ == all[c as int]@);
        let ghost before = faces@;
        offsets.push(faces.len());
        counts.push(list.len());
        faces.append(&mut list);
        assert forall|d: int| 0 <= d < c + 1 implies #[trigger] counts@[d] == all[d]@.len()
            && offsets@[d] + counts@[d] <= faces@.len() && faces@.subrange(
            offsets@[d] as int,
            offsets@[d] + counts@[d],
        ) == all[d]@ by {
            if d < c {
                assert(faces@.subrange(offsets@[d] as int, offsets@[d] + counts@[d]) =~= before.subrange(
                    offsets@[d] as int,
                    offsets@[d] + counts@[d],
                ));
            } else {
                assert(faces@.subrange(offsets@[d] as int, offsets@[d] + counts@[d]) =~= all[d]@);
            }
        }
        c = c + 1;
    }
    Connections { offsets, counts, faces }
}


/// The build flags of `n` cells: all set when no mask is given, else the mask.
pub open spec fn build_flags(n: nat, mask: Option<Seq<bool>>) -> Seq<bool> {
    match mask {
        None => Seq::new(n, |i: int| true),
        Some(m) => m,
    }
}

/// Which of `n` cells are to be constructed: every one, or those that `mask` selects.
pub fn cells_to_build(n: usize, mask: Option<&Vec<bool>>) -> (r: Vec<bool>)
    requires
        mask is Some ==> mask->Some_0@.len() == n,
    ensures
        r@.len() == n,
        r@ == build_flags(
            n as nat,
            match mask {
                None => None,
                Some(m) => Some(m@),
            },
        ),
{
    let mut r: Vec<bool> = Vec::new();
    let mut i: usize = 0;
    while i < n
        invariant
            i <= n,
            mask is Some ==> mask->Some_0@.len() == n,
            r@.len() == i,
            forall|t: int|
                0 <= t < i ==> #[trigger] r@[t] == match mask {
                    None => true,
                    Some(m) => m@[t],
                },
        decreases n - i,
    {
        let flag = match mask {
            None => true,
            Some(m) => m[i],
        };
        r.push(flag);
        i = i + 1;
    }
    proof {
        match mask {
            None => {
                assert(r@ =~= Seq::new(n as nat, |i: int| true));
            },
            Some(m) => {
                assert(r@ =~= m@);
            },
        }
    }
    r
}

/// The concatenation of the views of some vectors, in order.
pub open spec fn flat<T>(s: Seq<Vec<T>>) -> Seq<T>
    decreases s.len(),
{
    if s.len() == 0 {
        seq![]
    } else {
        flat(s.drop_last()) + s.last()@
    }
}

/// Joins per-cell buffers into one vector, cell after cell.
pub fn join_buffers<T>(lists: Vec<Vec<T>>) -> (r: Vec<T>)
    ensures
        r@ == flat(lists@),
{
    let ghost all = lists@;
    let mut lists = lists;
    let mut r: Vec<T> = Vec::new();
    let mut c: usize = 0;
    while c < lists.len()
        invariant
            c <= lists@.len(),
            lists@.len() == all.len(),
            forall|d: int| c <= d < all.len() ==> #[trigger] lists@[d] == all[d],
            r@ == flat(all.subrange(0, c as int)),
        decreases lists@.len() - c,
    {
        let mut list: Vec<T> = Vec::new();
        lists.set_and_swap(c, &mut list);
        r.append(&mut list);
        assert(all.subrange(0, c + 1).drop_last() =~= all.subrange(0, c as int));
        c = c + 1;
    }
    assert(all.subrange(0, all.len() as int) =~= all);
    r
}


proof fn lemma_attached_keeps(links: Seq<FaceLink>, c: usize, f: int, m: nat)
    requires
        0 <= f < m <= links.len(),
        links.len() <= usize::MAX,
        links[f].left == c || (links[f].right == Some(c) && links[f].shift is None),
    ensures
        attached(links, c, m).contains(f as usize),
    decreases m,
{
    let prev = attached(links, c, (m - 1) as nat);
    let i = (m - 1) as usize;
    let fl = links[i as int];
    let with_left = if fl.left == c {
        prev.push(i)
    } else {
        prev
    };
    if f < m - 1 {
        lemma_attached_keeps(links, c, f, (m - 1) as nat);
        let k = choose|k: int| 0 <= k < prev.len() && prev[k] == f as usize;
        assert(with_left[k] == f as usize);
        assert(with_left.contains(f as usize));
        if fl.right == Some(c) && fl.shift is None {
            assert(with_left.push(i)[k] == f as usize);
            assert(with_left.push(i).contains(f as usize));
        }
    } else {
        if fl.left == c {
            assert(with_left[prev.len() as int] == f as usize);
            if fl.right == Some(c) && fl.shift is None {
                assert(with_left.push(i)[prev.len() as int] == f as usize);
            }
        } else {
            assert(with_left.push(i)[with_left.len() as int] == f as usize);
        }
    }
}

/// The face that cell `i` emits on its bisector with cell `j`, when it does
/// not join a periodic image, is listed among the faces of both cells.
pub proof fn lemma_internal_face_listed_by_both(links: Seq<FaceLink>, f: int, i: usize, j: usize)
    requires
        0 <= f < links.len(),
        links.len() <= usize::MAX,
        links[f] == link_of(
            i,
            PlaneKind::Bisector { neighbour: j, shift: LatticeShift { x: 0, y: 0, z: 0 } },
        ),
    ensures
        attached(links, i, links.len()).contains(f as usize),
        attached(links, j, links.len()).contains(f as usize),
{
    lemma_attached_keeps(links, i, f, links.len());
    lemma_attached_keeps(links, j, f, links.len());
}

} // verus!
