//! Indexed triangle meshes, as far as they can be handled without knowing
//! what a vertex is.

use vstd::prelude::*;

verus! {

/// Vertices and the indices that make triangles of them, three by three.
#[derive(Debug, Clone, PartialEq)]
pub struct CpuMesh<V> {
    pub positions: Vec<V>,
    pub indices: Vec<u32>,
}

/// The indices `0, 1, ..` up to, not including, `len`.
pub open spec fn counting(len: nat) -> Seq<u32> {
    Seq::new(len, |i: int| i as u32)
}

/// The indices `0, 1, ..` up to, not including, `len`.
fn count_up(len: usize) -> (r: Vec<u32>)
    requires
        len <= u32::MAX,
    ensures
        r@ == counting(len as nat),
{
    let mut indices: Vec<u32> = Vec::new();
    let mut i: usize = 0;
    while i < len
        invariant
            i <= len,
            len <= u32::MAX,
            indices@ == counting(i as nat),
        decreases len - i,
    {
        indices.push(i as u32);
        i += 1;
        assert(indices@ =~= counting(i as nat));
    }
    indices
}

impl<V: Copy> CpuMesh<V> {
    /// Every index names a vertex.
    pub open spec fn wf(&self) -> bool {
        forall|i: int| 0 <= i < self.indices@.len() ==> (#[trigger] self.indices@[i]) < self.positions@.len()
    }

    /// The vertex that the index at place `i` names.
    pub open spec fn corner(&self, i: int) -> V {
        self.positions@[self.indices@[i] as int]
    }

    /// A mesh of `positions` with the given indices, or, where none are
    /// given, with each vertex used once in the order of `positions`.
    pub fn new(positions: Vec<V>, indices: Option<Vec<u32>>) -> (r: Self)
        requires
            indices.is_none() ==> positions@.len() <= u32::MAX,
        ensures
            r.positions == positions,
            indices.is_some() ==> r.indices == indices.unwrap(),
            indices.is_none() ==> r.indices@ == counting(positions@.len()),
            indices.is_none() ==> r.wf(),
    {
        let indices = match indices {
            Some(indices) => indices,
            None => count_up(positions.len()),
        };
        Self { positions, indices }
    }

    /// How many vertices the mesh has.
    pub fn num_vertices(&self) -> (r: usize)
        ensures
            r == self.positions@.len(),
    {
        self.positions.len()
    }

    /// The same triangles with no vertex shared: each index gets a vertex of
    /// its own, a copy of the one it named, and the indices count up.
    pub fn split_triangles(&self) -> (r: Self)
        requires
            self.wf(),
            self.indices@.len() <= u32::MAX,
        ensures
            r.wf(),
            r.positions@.len() == self.indices@.len(),
            forall|i: int| 0 <= i < self.indices@.len() ==> #[trigger] r.positions@[i] == self.corner(i),
            r.indices@ == counting(self.indices@.len()),
    {
        let len = self.indices.len();
        let mut positions: Vec<V> = Vec::new();
        let mut i: usize = 0;
        while i < len
            invariant
                i <= len,
                len == self.indices@.len(),
                self.wf(),
                positions@.len() == i,
                forall|k: int| 0 <= k < i ==> #[trigger] positions@[k] == self.corner(k),
            decreases len - i,
        {
            let index = self.indices[i] as usize;
            positions.push(self.positions[index]);
            i += 1;
        }
        Self { positions, indices: count_up(len) }
    }

    /// Replaces every vertex by its image under `f`.
    pub fn embed<F: Fn(V) -> V>(&mut self, f: F)
        requires
            forall|v: V| call_requires(f, (v,)),
        ensures
            final(self).indices == old(self).indices,
            final(self).positions@.len() == old(self).positions@.len(),
            forall|i: int|
                0 <= i < old(self).positions@.len() ==> call_ensures(
                    f,
                    (old(self).positions@[i],),
                    #[trigger] final(self).positions@[i],
                ),
    {
        let len = self.positions.len();
        let mut i: usize = 0;
        while i < len
            invariant
                i <= len,
                len == self.positions@.len(),
                len == old(self).positions@.len(),
                self.indices == old(self).indices,
                forall|v: V| call_requires(f, (v,)),
                forall|k: int|
                    0 <= k < i ==> call_ensures(
                        f,
                        (old(self).positions@[k],),
                        #[trigger] self.positions@[k],
                    ),
                forall|k: int| i <= k < len ==> #[trigger] self.positions@[k] == old(self).positions@[k],
            decreases len - i,
        {
            let image = f(self.positions[i]);
            self.positions.set(i, image);
            i += 1;
        }
    }

    /// Makes this mesh the image of `mesh` under `f`: the same indices, and
    /// for every vertex of `mesh` its image.
    pub fn embed_from<F: Fn(V) -> V>(&mut self, mesh: &CpuMesh<V>, f: F)
        requires
            forall|v: V| call_requires(f, (v,)),
        ensures
            final(self).indices@ == mesh.indices@,
            final(self).positions@.len() == mesh.positions@.len(),
            forall|i: int|
                0 <= i < mesh.positions@.len() ==> call_ensures(
                    f,
                    (mesh.positions@[i],),
                    #[trigger] final(self).positions@[i],
                ),
    {
        let len = mesh.positions.len();
        let mut positions: Vec<V> = Vec::new();
        let mut i: usize = 0;
        while i < len
            invariant
                i <= len,
                len == mesh.positions@.len(),
                positions@.len() == i,
                forall|v: V| call_requires(f, (v,)),
                forall|k: int|
                    0 <= k < i ==> call_ensures(f, (mesh.positions@[k],), #[trigger] positions@[k]),
            decreases len - i,
        {
            positions.push(f(mesh.positions[i]));
            i += 1;
        }
        self.positions = positions;
        self.indices = mesh.indices.clone();
    }

    /// Makes this mesh the image of `mesh` under `f`, triangle by triangle:
    /// the same indices, and for every three vertices of `mesh` in a row the
    /// three that `f` makes of them.
    pub fn embed_from_triangles<F: Fn([V; 3]) -> [V; 3]>(&mut self, mesh: &CpuMesh<V>, f: F)
        requires
            mesh.positions@.len() % 3 == 0,
            forall|t: [V; 3]| call_requires(f, (t,)),
        ensures
            final(self).indices@ == mesh.indices@,
            final(self).positions@.len() == mesh.positions@.len(),
            forall|k: int|
                0 <= k && 3 * k < mesh.positions@.len() ==> maps_triangle(
                    f,
                    triangle(mesh.positions@, k),
                    #[trigger] triangle(final(self).positions@, k),
                ),
    {
        let len = mesh.positions.len();
        let mut positions: Vec<V> = Vec::new();
        let mut i: usize = 0;
        let ghost mut done: int = 0;
        while i < len
            invariant
                i <= len,
                i == 3 * done,
                len % 3 == 0,
                len == mesh.positions@.len(),
                positions@.len() == i,
                forall|t: [V; 3]| call_requires(f, (t,)),
                forall|k: int|
                    0 <= k < done ==> maps_triangle(
                        f,
                        triangle(mesh.positions@, k),
                        #[trigger] triangle(positions@, k),
                    ),
            decreases len - i,
        {
            let from = [mesh.positions[i], mesh.positions[i + 1], mesh.positions[i + 2]];
            let to = f(from);
            let ghost before = positions@;
            positions.push(to[0]);
            positions.push(to[1]);
            positions.push(to[2]);
            proof {
                assert(from@ =~= triangle(mesh.positions@, done));
                assert(to@ =~= triangle(positions@, done));
                assert forall|k: int| 0 <= k < done + 1 implies maps_triangle(
                    f,
                    triangle(mesh.positions@, k),
                    #[trigger] triangle(positions@, k),
                ) by {
                    if k < done {
                        assert(triangle(positions@, k) =~= triangle(before, k));
                    }
                }
                done = done + 1;
            }
            i += 3;
        }
        self.positions = positions;
        self.indices = mesh.indices.clone();
    }

    /// Turns each triangle to face a point or away from it.
    ///
    /// `behind` says of three vertices in a row whether the point lies behind
    /// the triangle they make. A triangle keeps its indices where that answer
    /// is `away`, and has its second and third index exchanged where it is
    /// not. The exchange turns the triangle over: with a `behind` that
    /// changes its answer when a triangle is turned over, the point
    /// afterwards lies behind every triangle if `away` is set and behind
    /// none if it is not. Indices left over after the last whole triangle
    /// stay as they are.
    pub fn face<F: Fn(V, V, V) -> bool>(&mut self, behind: F, away: bool)
        requires
            old(self).wf(),
            forall|a: V, b: V, c: V| call_requires(behind, (a, b, c)),
        ensures
            final(self).wf(),
            final(self).positions == old(self).positions,
            final(self).indices@.len() == old(self).indices@.len(),
            forall|t: int|
                0 <= t && 3 * t + 2 < old(self).indices@.len() ==> turns(
                    behind,
                    (
                        old(self).corner(3 * t),
                        old(self).corner(3 * t + 1),
                        old(self).corner(3 * t + 2),
                    ),
                    triangle(old(self).indices@, t),
                    #[trigger] triangle(final(self).indices@, t),
                    away,
                ),
            forall|i: int|
                3 * (old(self).indices@.len() / 3) <= i < old(self).indices@.len()
                    ==> #[trigger] final(self).indices@[i] == old(self).indices@[i],
    {
        let len: usize = self.indices.len();
        let count: usize = len / 3;
        let mut t: usize = 0;
        while t < count
            invariant
                t <= count,
                count == len / 3,
                len == old(self).indices@.len(),
                self.indices@.len() == old(self).indices@.len(),
                self.positions == old(self).positions,
                old(self).wf(),
                self.wf(),
                forall|a: V, b: V, c: V| call_requires(behind, (a, b, c)),
                forall|i: int|
                    3 * t <= i < self.indices@.len() ==> #[trigger] self.indices@[i] == old(
                        self,
                    ).indices@[i],
                forall|k: int|
                    0 <= k < t ==> turns(
                        behind,
                        (
                            old(self).corner(3 * k),
                            old(self).corner(3 * k + 1),
                            old(self).corner(3 * k + 2),
                        ),
                        triangle(old(self).indices@, k),
                        #[trigger] triangle(self.indices@, k),
                        away,
                    ),
            decreases count - t,
        {
            let i: usize = t * 3;
            let ib: u32 = self.indices[i + 1];
            let ic: u32 = self.indices[i + 2];
            let a = self.positions[self.indices[i] as usize];
            let b = self.positions[ib as usize];
            let c = self.positions[ic as usize];
            let ghost before = self.indices@;
            let answer = behind(a, b, c);
            if away != answer {
                self.indices.set(i + 1, ic);
                self.indices.set(i + 2, ib);
            }
            proof {
                assert(triangle(self.indices@, t as int) =~= turned(
                    triangle(old(self).indices@, t as int),
                    away != answer,
                ));
                assert forall|k: int| 0 <= k < t implies #[trigger] triangle(self.indices@, k)
                    == triangle(before, k) by {
                    assert(triangle(self.indices@, k) =~= triangle(before, k));
                }
            }
            t += 1;
        }
    }

    /// Turns each triangle to face away from a point: a triangle the point
    /// lies behind keeps its indices, every other has its second and third
    /// index exchanged. See [`CpuMesh::face`].
    pub fn face_away<F: Fn(V, V, V) -> bool>(&mut self, behind: F)
        requires
            old(self).wf(),
            forall|a: V, b: V, c: V| call_requires(behind, (a, b, c)),
        ensures
            final(self).wf(),
            final(self).positions == old(self).positions,
            final(self).indices@.len() == old(self).indices@.len(),
            forall|t: int|
                0 <= t && 3 * t + 2 < old(self).indices@.len() ==> turns(
                    behind,
                    (
                        old(self).corner(3 * t),
                        old(self).corner(3 * t + 1),
                        old(self).corner(3 * t + 2),
                    ),
                    triangle(old(self).indices@, t),
                    #[trigger] triangle(final(self).indices@, t),
                    true,
                ),
            forall|i: int|
                3 * (old(self).indices@.len() / 3) <= i < old(self).indices@.len()
                    ==> #[trigger] final(self).indices@[i] == old(self).indices@[i],
    {
        self.face(behind, true)
    }

    /// Cuts every triangle into four by halving its edges.
    ///
    /// `middle` gives the vertex halfway between two. The vertices of the
    /// mesh are kept, in place; each triangle adds the middles of its three
    /// edges after them, and is replaced by the four triangles of
    /// [`quartered`]. Indices left over after the last whole triangle are
    /// dropped.
    pub fn subdivide<F: Fn(V, V) -> V>(&self, middle: F) -> (r: Self)
        requires
            self.wf(),
            fits(self.positions@.len(), self.indices@.len() / 3, 1),
            forall|a: V, b: V| call_requires(middle, (a, b)),
        ensures
            r.wf(),
            subdivided(middle, *self, r),
    {
        let base: usize = self.positions.len();
        let len: usize = self.indices.len();
        let count: usize = len / 3;
        let mut positions: Vec<V> = self.copy().positions;
        assert(positions@.subrange(0, base as int) =~= self.positions@);
        let mut indices: Vec<u32> = Vec::new();
        let mut t: usize = 0;
        while t < count
            invariant
                t <= count,
                count == len / 3,
                len == self.indices@.len(),
                base == self.positions@.len(),
                self.wf(),
                base + 3 * count <= u32::MAX,
                forall|a: V, b: V| call_requires(middle, (a, b)),
                positions@.len() == base + 3 * t,
                positions@.subrange(0, base as int) == self.positions@,
                indices@.len() == 12 * t,
                forall|k: int|
                    0 <= k < t ==> halves(
                        middle,
                        (self.corner(3 * k), self.corner(3 * k + 1), self.corner(3 * k + 2)),
                        #[trigger] triangle(positions@.skip(base as int), k),
                    ),
                forall|k: int|
                    0 <= k < t ==> #[trigger] twelve(indices@, k) == quartered(
                        triangle(self.indices@, k),
                        base + 3 * k,
                    ),
                forall|i: int| 0 <= i < indices@.len() ==> (#[trigger] indices@[i]) < base + 3 * t,
            decreases count - t,
        {
            let i: usize = t * 3;
            let ia: u32 = self.indices[i];
            let ib: u32 = self.indices[i + 1];
            let ic: u32 = self.indices[i + 2];
            let a = self.positions[ia as usize];
            let b = self.positions[ib as usize];
            let c = self.positions[ic as usize];
            let ab = middle(a, b);
            let bc = middle(b, c);
            let ca = middle(c, a);
            let iab: u32 = (base + i) as u32;
            let ibc: u32 = iab + 1;
            let ica: u32 = ibc + 1;
            let ghost positions_before = positions@;
            let ghost indices_before = indices@;
            positions.push(ab);
            positions.push(bc);
            positions.push(ca);
            indices.push(ia);
            indices.push(iab);
            indices.push(ica);
            indices.push(ib);
            indices.push(ibc);
            indices.push(iab);
            indices.push(ic);
            indices.push(ica);
            indices.push(ibc);
            indices.push(iab);
            indices.push(ibc);
            indices.push(ica);
            proof {
                assert(positions@.subrange(0, base as int) =~= positions_before.subrange(
                    0,
                    base as int,
                ));
                assert(triangle(positions@.skip(base as int), t as int) =~= seq![ab, bc, ca]);
                assert(triangle(self.indices@, t as int) =~= seq![ia, ib, ic]);
                assert(twelve(indices@, t as int) =~= quartered(
                    triangle(self.indices@, t as int),
                    base + 3 * t,
                ));
                assert forall|k: int| 0 <= k < t implies #[trigger] triangle(
                    positions@.skip(base as int),
                    k,
                ) == triangle(positions_before.skip(base as int), k) by {
                    assert(triangle(positions@.skip(base as int), k) =~= triangle(
                        positions_before.skip(base as int),
                        k,
                    ));
                }
                assert forall|k: int| 0 <= k < t implies #[trigger] twelve(indices@, k) == twelve(
                    indices_before,
                    k,
                ) by {
                    assert(twelve(indices@, k) =~= twelve(indices_before, k));
                }
                assert forall|j: int| 0 <= j < indices@.len() implies (#[trigger] indices@[j]) < base
                    + 3 * (t + 1) by {
                    if j < indices_before.len() {
                        assert(indices@[j] == indices_before[j]);
                    }
                }
            }
            t += 1;
        }
        Self { positions, indices }
    }

    /// Cuts every triangle into four, `n` times over: see
    /// [`CpuMesh::subdivide`].
    pub fn subdivide_n<F: Fn(V, V) -> V + Copy>(&self, n: u32, middle: F) -> (r: Self)
        requires
            self.wf(),
            fits(self.positions@.len(), self.indices@.len() / 3, n as nat),
            forall|a: V, b: V| call_requires(middle, (a, b)),
        ensures
            r.wf(),
            subdivided_n(middle, *self, r, n as nat),
    {
        let mut mesh = self.copy();
        let mut done: u32 = 0;
        while done < n
            invariant
                done <= n,
                mesh.wf(),
                fits(mesh.positions@.len(), mesh.indices@.len() / 3, (n - done) as nat),
                forall|a: V, b: V| call_requires(middle, (a, b)),
                subdivided_n(middle, *self, mesh, done as nat),
            decreases n - done,
        {
            let ghost before = mesh;
            let ghost triangles = mesh.indices@.len() / 3;
            proof {
                reveal_with_fuel(fits, 2);
                assert(fits(mesh.positions@.len(), triangles, 1));
            }
            let finer = mesh.subdivide(middle);
            proof {
                assert(finer.indices@.len() / 3 == 4 * triangles);
                assert(fits(finer.positions@.len(), finer.indices@.len() / 3, (n - done - 1) as nat));
                assert(subdivided_n(middle, *self, before, done as nat) && subdivided(
                    middle,
                    before,
                    finer,
                ));
                assert(subdivided_n(middle, *self, finer, (done + 1) as nat));
            }
            mesh = finer;
            done += 1;
        }
        mesh
    }

    /// Appends `other`: its vertices after the vertices of this mesh, and
    /// its indices after the indices of this mesh, each moved on by the
    /// number of vertices this mesh had, so that every triangle of `other`
    /// still names its own corners.
    pub fn extend(&mut self, other: &CpuMesh<V>)
        requires
            old(self).wf(),
            other.wf(),
            old(self).positions@.len() + other.positions@.len() <= u32::MAX,
        ensures
            final(self).wf(),
            final(self).positions@ == old(self).positions@ + other.positions@,
            final(self).indices@ == old(self).indices@ + moved_on(
                other.indices@,
                old(self).positions@.len(),
            ),
    {
        let base: usize = self.positions.len();
        let offset: u32 = base as u32;
        let vertices: usize = other.positions.len();
        let mut i: usize = 0;
        while i < vertices
            invariant
                i <= vertices,
                vertices == other.positions@.len(),
                base == old(self).positions@.len(),
                base + vertices <= u32::MAX,
                self.indices == old(self).indices,
                self.positions@ == old(self).positions@ + other.positions@.subrange(0, i as int),
            decreases vertices - i,
        {
            self.positions.push(other.positions[i]);
            i += 1;
            assert(self.positions@ =~= old(self).positions@ + other.positions@.subrange(
                0,
                i as int,
            ));
        }
        assert(other.positions@.subrange(0, vertices as int) =~= other.positions@);
        let count: usize = other.indices.len();
        let mut k: usize = 0;
        while k < count
            invariant
                k <= count,
                count == other.indices@.len(),
                base == old(self).positions@.len(),
                offset == base,
                base + other.positions@.len() <= u32::MAX,
                other.wf(),
                self.positions@ == old(self).positions@ + other.positions@,
                self.indices@ == old(self).indices@ + moved_on(
                    other.indices@.subrange(0, k as int),
                    base as nat,
                ),
            decreases count - k,
        {
            self.indices.push(other.indices[k] + offset);
            k += 1;
            assert(self.indices@ =~= old(self).indices@ + moved_on(
                other.indices@.subrange(0, k as int),
                base as nat,
            ));
        }
        assert(other.indices@.subrange(0, count as int) =~= other.indices@);
        assert forall|j: int| 0 <= j < self.indices@.len() implies (#[trigger] self.indices@[j])
            < self.positions@.len() by {
            if j >= old(self).indices@.len() {
                let at = j - old(self).indices@.len();
                assert(self.indices@[j] == moved_on(other.indices@, base as nat)[at]);
                assert(other.indices@[at] < other.positions@.len());
            } else {
                assert(self.indices@[j] == old(self).indices@[j]);
            }
        }
    }

    /// A mesh with the same vertices and indices.
    fn copy(&self) -> (r: Self)
        ensures
            r.positions@ == self.positions@,
            r.indices@ == self.indices@,
    {
        let len: usize = self.positions.len();
        let mut positions: Vec<V> = Vec::new();
        let mut i: usize = 0;
        while i < len
            invariant
                i <= len,
                len == self.positions@.len(),
                positions@ == self.positions@.subrange(0, i as int),
            decreases len - i,
        {
            positions.push(self.positions[i]);
            i += 1;
            assert(positions@ =~= self.positions@.subrange(0, i as int));
        }
        assert(positions@ =~= self.positions@);
        Self { positions, indices: self.indices.clone() }
    }
}

/// The indices of a mesh once `by` vertices stand before its own.
pub open spec fn moved_on(indices: Seq<u32>, by: nat) -> Seq<u32> {
    indices.map_values(|i: u32| (i + by) as u32)
}

/// Whether a mesh of so many vertices and whole triangles can be cut `n`
/// times over with every index still a `u32`.
pub open spec fn fits(vertices: nat, triangles: nat, n: nat) -> bool
    decreases n,
{
    n == 0 || {
        &&& vertices + 3 * triangles <= u32::MAX
        &&& fits(vertices + 3 * triangles, 4 * triangles, (n - 1) as nat)
    }
}

/// Whether `to` is `from` with every triangle cut into four by halving its
/// edges with `middle`: the vertices of `from` in place, then the middles of
/// the edges triangle by triangle, and for every triangle its four.
pub open spec fn subdivided<V: Copy, F: Fn(V, V) -> V>(
    middle: F,
    from: CpuMesh<V>,
    to: CpuMesh<V>,
) -> bool {
    &&& to.positions@.len() == from.positions@.len() + 3 * (from.indices@.len() / 3)
    &&& to.positions@.subrange(0, from.positions@.len() as int) == from.positions@
    &&& to.indices@.len() == 12 * (from.indices@.len() / 3)
    &&& forall|t: int|
        0 <= t < from.indices@.len() / 3 ==> halves(
            middle,
            (from.corner(3 * t), from.corner(3 * t + 1), from.corner(3 * t + 2)),
            #[trigger] triangle(to.positions@.skip(from.positions@.len() as int), t),
        )
    &&& forall|t: int|
        0 <= t < from.indices@.len() / 3 ==> #[trigger] twelve(to.indices@, t) == quartered(
            triangle(from.indices@, t),
            from.positions@.len() + 3 * t,
        )
}

/// Whether `to` is `from` cut `n` times over.
pub open spec fn subdivided_n<V: Copy, F: Fn(V, V) -> V>(
    middle: F,
    from: CpuMesh<V>,
    to: CpuMesh<V>,
    n: nat,
) -> bool
    decreases n,
{
    if n == 0 {
        to.positions@ == from.positions@ && to.indices@ == from.indices@
    } else {
        exists|before: CpuMesh<V>|
            subdivided_n(middle, from, before, (n - 1) as nat) && #[trigger] subdivided(
                middle,
                before,
                to,
            )
    }
}

/// The twelve indices from place `12 * t` on.
pub open spec fn twelve(indices: Seq<u32>, t: int) -> Seq<u32> {
    indices.subrange(12 * t, 12 * t + 12)
}

/// The four triangles that take the place of the triangle `corners` once the
/// middles of its edges stand at the places `first`, `first + 1` and
/// `first + 2`: one at each corner, and one of the three middles.
pub open spec fn quartered(corners: Seq<u32>, first: int) -> Seq<u32> {
    let iab = first as u32;
    let ibc = (first + 1) as u32;
    let ica = (first + 2) as u32;
    seq![
        corners[0],
        iab,
        ica,
        corners[1],
        ibc,
        iab,
        corners[2],
        ica,
        ibc,
        iab,
        ibc,
        ica,
    ]
}

/// Whether `middles` are what `middle` makes of the three edges of a
/// triangle: of its first and second corner, of its second and third, and of
/// its third and first.
pub open spec fn halves<V, F: Fn(V, V) -> V>(middle: F, corners: (V, V, V), middles: Seq<V>) -> bool {
    &&& middles.len() == 3
    &&& call_ensures(middle, (corners.0, corners.1), middles[0])
    &&& call_ensures(middle, (corners.1, corners.2), middles[1])
    &&& call_ensures(middle, (corners.2, corners.0), middles[2])
}

/// Whether `after` is what facing makes of the three indices `before` of a
/// triangle with the given corners: `before` itself where the answer of
/// `behind` is `away`, and `before` with its second and third index exchanged
/// where it is not.
pub open spec fn turns<V, F: Fn(V, V, V) -> bool>(
    behind: F,
    corners: (V, V, V),
    before: Seq<u32>,
    after: Seq<u32>,
    away: bool,
) -> bool {
    exists|answer: bool| #[trigger]
        call_ensures(behind, corners, answer) && after == turned(before, away != answer)
}

/// Why facing works. Let `behind` give one answer only on the corners of a
/// triangle, and the opposite answer once the second and third corner are
/// exchanged. Then after the triangle has been kept or turned over as
/// [`turns`] says, `behind` answers `away` on its corners: the point lies
/// behind the triangle if that was asked, and not behind it if not.
pub proof fn facing_gives_the_side_asked_for<V, F: Fn(V, V, V) -> bool>(
    behind: F,
    corners: (V, V, V),
    answer: bool,
    away: bool,
    after: bool,
)
    requires
        call_ensures(behind, corners, answer),
        forall|r: bool| call_ensures(behind, corners, r) ==> r == answer,
        forall|r: bool| call_ensures(behind, (corners.0, corners.2, corners.1), r) ==> r != answer,
        call_ensures(
            behind,
            if away != answer {
                (corners.0, corners.2, corners.1)
            } else {
                corners
            },
            after,
        ),
    ensures
        after == away,
{
}

/// Three indices with the second and third exchanged, or as they are.
pub open spec fn turned(indices: Seq<u32>, exchange: bool) -> Seq<u32> {
    if exchange {
        seq![indices[0], indices[2], indices[1]]
    } else {
        indices
    }
}

/// The vertices of triangle `k` of a list of vertices taken three by three.
pub open spec fn triangle<V>(positions: Seq<V>, k: int) -> Seq<V> {
    positions.subrange(3 * k, 3 * k + 3)
}

/// Whether `f` can make the three vertices `to` of the three vertices `from`.
pub open spec fn maps_triangle<V, F: Fn([V; 3]) -> [V; 3]>(f: F, from: Seq<V>, to: Seq<V>) -> bool {
    exists|a: [V; 3], b: [V; 3]| a@ == from && b@ == to && call_ensures(f, (a,), b)
}

} // verus!
