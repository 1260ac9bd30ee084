//! Grids of vertices in the coordinate cube, before any embedding.

use crate::mesh::{moved_on, triangle, turns, CpuMesh};
use vstd::prelude::*;

verus! {

/// The place of grid point `(h, v)` in a grid laid out line after line, each
/// line `stride` points long.
pub open spec fn grid_index(stride: int, h: int, v: int) -> int {
    h * stride + v
}

/// The two triangles of the grid cell whose first corner is grid point
/// `(h, v)`, as six indices.
pub open spec fn cell_indices(stride: int, h: int, v: int) -> Seq<u32> {
    let a = grid_index(stride, h, v);
    let b = a + 1;
    let c = a + stride;
    let d = c + 1;
    seq![a as u32, b as u32, c as u32, b as u32, d as u32, c as u32]
}

/// Grid points come in the order of their lines, and within a line in the
/// order of their places.
proof fn lemma_grid_order(stride: int, h1: int, v1: int, h2: int, v2: int)
    by (nonlinear_arith)
    requires
        0 <= v1 < stride,
        0 <= v2,
        0 <= h1,
        h1 < h2 || (h1 == h2 && v1 < v2),
    ensures
        0 <= grid_index(stride, h1, v1) < grid_index(stride, h2, v2),
{
}

/// A grid of `lines` lines holds all its points.
proof fn lemma_grid_bound(stride: int, lines: int, h: int, v: int)
    by (nonlinear_arith)
    requires
        0 <= v < stride,
        0 <= h < lines,
    ensures
        0 <= grid_index(stride, h, v) < lines * stride,
{
}

/// A plane of `x_subdivisions` by `y_subdivisions` cells.
///
/// `vertex` gives the position of each grid point, the first argument
/// counting along the first direction from 0 to `x_subdivisions` and the
/// second along the second from 0 to `y_subdivisions`. The points are laid
/// out line after line along the first direction, and every cell is cut into
/// two triangles: see [`cell_indices`].
pub fn plane<V: Copy, F: Fn(u32, u32) -> V>(
    x_subdivisions: u32,
    y_subdivisions: u32,
    vertex: F,
) -> (r: CpuMesh<V>)
    requires
        (x_subdivisions + 1) * (y_subdivisions + 1) <= u32::MAX,
        forall|h: u32, v: u32|
            h <= x_subdivisions && v <= y_subdivisions ==> call_requires(vertex, (h, v)),
    ensures
        r.wf(),
        r.positions@.len() == (x_subdivisions + 1) * (y_subdivisions + 1),
        forall|h: int, v: int|
            0 <= h <= x_subdivisions && 0 <= v <= y_subdivisions ==> call_ensures(
                vertex,
                (h as u32, v as u32),
                r.positions@[#[trigger] grid_index(y_subdivisions + 1, h, v)],
            ),
        r.indices@.len() == 6 * x_subdivisions * y_subdivisions,
        forall|h: int, v: int|
            0 <= h < x_subdivisions && 0 <= v < y_subdivisions ==> r.indices@.subrange(
                6 * grid_index(y_subdivisions as int, h, v),
                6 * grid_index(y_subdivisions as int, h, v) + 6,
            ) == #[trigger] cell_indices(y_subdivisions + 1, h, v),
{
    assert(x_subdivisions < u32::MAX && y_subdivisions < u32::MAX) by (nonlinear_arith)
        requires
            (x_subdivisions + 1) * (y_subdivisions + 1) <= u32::MAX,
    ;
    let stride: u32 = y_subdivisions + 1;
    let mut positions: Vec<V> = Vec::new();
    let mut hdiv: u32 = 0;
    while hdiv <= x_subdivisions
        invariant
            hdiv <= x_subdivisions + 1,
            x_subdivisions < u32::MAX,
            stride == y_subdivisions + 1,
            positions@.len() == hdiv * stride,
            forall|h: u32, v: u32|
                h <= x_subdivisions && v <= y_subdivisions ==> call_requires(vertex, (h, v)),
            forall|h: int, v: int|
                0 <= h < hdiv && 0 <= v <= y_subdivisions ==> call_ensures(
                    vertex,
                    (h as u32, v as u32),
                    positions@[#[trigger] grid_index(stride as int, h, v)],
                ),
        decreases x_subdivisions + 1 - hdiv,
    {
        let mut vdiv: u32 = 0;
        while vdiv <= y_subdivisions
            invariant
                hdiv <= x_subdivisions,
                vdiv <= y_subdivisions + 1,
                stride == y_subdivisions + 1,
                positions@.len() == hdiv * stride + vdiv,
                forall|h: u32, v: u32|
                    h <= x_subdivisions && v <= y_subdivisions ==> call_requires(vertex, (h, v)),
                forall|h: int, v: int|
                    (0 <= h < hdiv && 0 <= v <= y_subdivisions) || (h == hdiv && 0 <= v < vdiv)
                        ==> call_ensures(
                        vertex,
                        (h as u32, v as u32),
                        positions@[#[trigger] grid_index(stride as int, h, v)],
                    ),
            decreases y_subdivisions + 1 - vdiv,
        {
            let ghost before = positions@;
            positions.push(vertex(hdiv, vdiv));
            proof {
                assert(before.len() == grid_index(stride as int, hdiv as int, vdiv as int));
                assert forall|h: int, v: int|
                    (0 <= h < hdiv && 0 <= v <= y_subdivisions) || (h == hdiv && 0 <= v < vdiv
                        + 1) implies call_ensures(
                    vertex,
                    (h as u32, v as u32),
                    positions@[#[trigger] grid_index(stride as int, h, v)],
                ) by {
                    if h == hdiv && v == vdiv {
                    } else {
                        lemma_grid_order(stride as int, h, v, hdiv as int, vdiv as int);
                        assert(positions@[grid_index(stride as int, h, v)]
                            == before[grid_index(stride as int, h, v)]);
                    }
                }
            }
            vdiv += 1;
        }
        proof {
            assert(hdiv * stride + stride == (hdiv + 1) * stride) by (nonlinear_arith);
        }
        hdiv += 1;
    }
    assert(positions@.len() == (x_subdivisions + 1) * (y_subdivisions + 1));

    let mut indices: Vec<u32> = Vec::new();
    let mut hdiv: u32 = 0;
    while hdiv < x_subdivisions
        invariant
            hdiv <= x_subdivisions,
            stride == y_subdivisions + 1,
            (x_subdivisions + 1) * (y_subdivisions + 1) <= u32::MAX,
            indices@.len() == 6 * (hdiv * y_subdivisions),
            forall|h: int, v: int|
                0 <= h < hdiv && 0 <= v < y_subdivisions ==> indices@.subrange(
                    6 * grid_index(y_subdivisions as int, h, v),
                    6 * grid_index(y_subdivisions as int, h, v) + 6,
                ) == #[trigger] cell_indices(stride as int, h, v),
        decreases x_subdivisions - hdiv,
    {
        let mut vdiv: u32 = 0;
        while vdiv < y_subdivisions
            invariant
                hdiv < x_subdivisions,
                vdiv <= y_subdivisions,
                stride == y_subdivisions + 1,
                (x_subdivisions + 1) * (y_subdivisions + 1) <= u32::MAX,
                indices@.len() == 6 * (hdiv * y_subdivisions + vdiv),
                forall|h: int, v: int|
                    (0 <= h < hdiv && 0 <= v < y_subdivisions) || (h == hdiv && 0 <= v < vdiv)
                        ==> indices@.subrange(
                        6 * grid_index(y_subdivisions as int, h, v),
                        6 * grid_index(y_subdivisions as int, h, v) + 6,
                    ) == #[trigger] cell_indices(stride as int, h, v),
            decreases y_subdivisions - vdiv,
        {
            proof {
                lemma_grid_bound(
                    stride as int,
                    x_subdivisions + 1,
                    hdiv + 1,
                    vdiv + 1,
                );
                assert(grid_index(stride as int, hdiv + 1, vdiv + 1) == hdiv * stride + vdiv
                    + stride + 1) by (nonlinear_arith);
                assert(0 <= hdiv * stride) by (nonlinear_arith);
            }
            let a: u32 = hdiv * stride + vdiv;
            let b: u32 = a + 1;
            let c: u32 = a + stride;
            let d: u32 = c + 1;
            let ghost before = indices@;
            indices.push(a);
            indices.push(b);
            indices.push(c);
            indices.push(b);
            indices.push(d);
            indices.push(c);
            proof {
                let here = grid_index(y_subdivisions as int, hdiv as int, vdiv as int);
                assert(before.len() == 6 * here);
                assert(indices@.subrange(6 * here, 6 * here + 6) =~= cell_indices(
                    stride as int,
                    hdiv as int,
                    vdiv as int,
                ));
                assert forall|h: int, v: int|
                    (0 <= h < hdiv && 0 <= v < y_subdivisions) || (h == hdiv && 0 <= v < vdiv
                        + 1) implies indices@.subrange(
                    6 * grid_index(y_subdivisions as int, h, v),
                    6 * grid_index(y_subdivisions as int, h, v) + 6,
                ) == #[trigger] cell_indices(stride as int, h, v) by {
                    if h == hdiv && v == vdiv {
                    } else {
                        lemma_grid_order(y_subdivisions as int, h, v, hdiv as int, vdiv as int);
                        let there = grid_index(y_subdivisions as int, h, v);
                        assert(indices@.subrange(6 * there, 6 * there + 6) =~= before.subrange(
                            6 * there,
                            6 * there + 6,
                        ));
                    }
                }
            }
            vdiv += 1;
        }
        proof {
            assert(hdiv * y_subdivisions + y_subdivisions == (hdiv + 1) * y_subdivisions)
                by (nonlinear_arith);
        }
        hdiv += 1;
    }
    let r = CpuMesh { positions, indices };
    proof {
        assert(6 * (x_subdivisions * y_subdivisions) == 6 * x_subdivisions * y_subdivisions)
            by (nonlinear_arith);
        lemma_plane_wf(r, x_subdivisions as int, y_subdivisions as int);
    }
    r
}

/// Every index of a plane names one of its grid points.
proof fn lemma_plane_wf<V: Copy>(mesh: CpuMesh<V>, x: int, y: int)
    requires
        0 <= x,
        0 <= y,
        (x + 1) * (y + 1) <= u32::MAX,
        mesh.positions@.len() == (x + 1) * (y + 1),
        mesh.indices@.len() == 6 * (x * y),
        forall|h: int, v: int|
            0 <= h < x && 0 <= v < y ==> mesh.indices@.subrange(
                6 * grid_index(y, h, v),
                6 * grid_index(y, h, v) + 6,
            ) == #[trigger] cell_indices(y + 1, h, v),
    ensures
        mesh.wf(),
{
    assert forall|i: int| 0 <= i < mesh.indices@.len() implies (#[trigger] mesh.indices@[i])
        < mesh.positions@.len() by {
        let cell = i / 6;
        let h = cell / y;
        let v = cell % y;
        assert(y > 0) by (nonlinear_arith)
            requires
                0 <= i < 6 * (x * y),
                0 <= x,
                0 <= y,
        ;
        assert(0 <= cell < x * y);
        assert(0 <= h < x && 0 <= v < y && cell == h * y + v) by (nonlinear_arith)
            requires
                0 <= cell < x * y,
                y > 0,
                h == cell / y,
                v == cell % y,
        ;
        let part = mesh.indices@.subrange(6 * grid_index(y, h, v), 6 * grid_index(y, h, v) + 6);
        assert(part == cell_indices(y + 1, h, v));
        assert(mesh.indices@[i] == part[i - 6 * cell]);
        lemma_grid_bound(y + 1, x + 1, h + 1, v + 1);
        lemma_grid_bound(y + 1, x + 1, h, v);
        assert(grid_index(y + 1, h + 1, v + 1) == grid_index(y + 1, h, v) + (y + 1) + 1)
            by (nonlinear_arith);
        assert((x + 1) * (y + 1) == mesh.positions@.len());
    }
}

/// Whether `mesh` is a plane of `x` by `y` cells whose grid points are
/// vertices that `at` accepts for their place: the points line after line,
/// and for every cell its two triangles.
pub open spec fn is_plane<V: Copy>(
    mesh: CpuMesh<V>,
    x: int,
    y: int,
    at: spec_fn(int, int, V) -> bool,
) -> bool {
    &&& mesh.positions@.len() == (x + 1) * (y + 1)
    &&& forall|h: int, v: int|
        0 <= h <= x && 0 <= v <= y ==> at(h, v, mesh.positions@[#[trigger] grid_index(y + 1, h, v)])
    &&& mesh.indices@.len() == 6 * x * y
    &&& forall|h: int, v: int|
        0 <= h < x && 0 <= v < y ==> mesh.indices@.subrange(
            6 * grid_index(y, h, v),
            6 * grid_index(y, h, v) + 6,
        ) == #[trigger] cell_indices(y + 1, h, v)
}

/// Whether `sum` is `first` with `second` appended: the vertices of both in
/// a row, and the indices of `second` moved on by the number of vertices of
/// `first`.
pub open spec fn appended<V: Copy>(first: CpuMesh<V>, second: CpuMesh<V>, sum: CpuMesh<V>) -> bool {
    &&& sum.positions@ == first.positions@ + second.positions@
    &&& sum.indices@ == first.indices@ + moved_on(second.indices@, first.positions@.len())
}

/// Whether `after` is `before` with every triangle turned to face away from
/// a point: the same vertices, and each triangle kept where `behind` says
/// that the point lies behind it and turned over where it says otherwise.
pub open spec fn faced_away<V: Copy, B: Fn(V, V, V) -> bool>(
    behind: B,
    before: CpuMesh<V>,
    after: CpuMesh<V>,
) -> bool {
    &&& after.positions == before.positions
    &&& after.indices@.len() == before.indices@.len()
    &&& forall|t: int|
        0 <= t && 3 * t + 2 < before.indices@.len() ==> turns(
            behind,
            (before.corner(3 * t), before.corner(3 * t + 1), before.corner(3 * t + 2)),
            triangle(before.indices@, t),
            #[trigger] triangle(after.indices@, t),
            true,
        )
}

/// How many cells face `face` of a cube has along its first direction.
pub open spec fn face_x(face: int, horizontal: int, depth: int) -> int {
    if face == 2 || face == 5 {
        depth
    } else {
        horizontal
    }
}

/// How many cells face `face` of a cube has along its second direction.
pub open spec fn face_y(face: int, vertical: int, depth: int) -> int {
    if face == 1 || face == 4 {
        depth
    } else {
        vertical
    }
}

/// How many vertices the six faces of a cube have together.
pub open spec fn cube_vertices(horizontal: int, vertical: int, depth: int) -> int {
    2 * ((horizontal + 1) * (vertical + 1) + (horizontal + 1) * (depth + 1) + (depth + 1) * (
    vertical + 1))
}

/// Whether `cube` is made of the six `faces` by way of the `sums`: each face
/// a plane of its own size whose grid points are what `vertex` gives for the
/// face and the place, the faces appended one after the other, and the whole
/// turned to face away.
pub open spec fn is_cube<V: Copy, F: Fn(u32, u32, u32) -> V, B: Fn(V, V, V) -> bool>(
    vertex: F,
    behind: B,
    horizontal: int,
    vertical: int,
    depth: int,
    faces: Seq<CpuMesh<V>>,
    sums: Seq<CpuMesh<V>>,
    cube: CpuMesh<V>,
) -> bool {
    &&& faces.len() == 6
    &&& sums.len() == 6
    &&& forall|k: int|
        0 <= k < 6 ==> is_plane(
            #[trigger] faces[k],
            face_x(k, horizontal, depth),
            face_y(k, vertical, depth),
            |h: int, v: int, p: V| call_ensures(vertex, (k as u32, h as u32, v as u32), p),
        )
    &&& sums[0] == faces[0]
    &&& forall|k: int| 1 <= k < 6 ==> appended(sums[k - 1], faces[k], #[trigger] sums[k])
    &&& faced_away(behind, sums[5], cube)
}

/// A cube: six planes, one for each face, appended in the order of the
/// faces and turned to face away from a point.
///
/// `vertex` gives the position of each grid point from the number of the
/// face, 0 to 5, and the point's place on it. Faces 0 and 3 have
/// `horizontal_subdivisions` by `vertical_subdivisions` cells, faces 1 and 4
/// `horizontal_subdivisions` by `depth_subdivisions`, faces 2 and 5
/// `depth_subdivisions` by `vertical_subdivisions`. `behind` says of three
/// vertices in a row whether the point lies behind their triangle.
pub fn cube<V: Copy, F: Fn(u32, u32, u32) -> V, B: Fn(V, V, V) -> bool>(
    horizontal_subdivisions: u32,
    vertical_subdivisions: u32,
    depth_subdivisions: u32,
    vertex: F,
    behind: B,
) -> (r: CpuMesh<V>)
    requires
        cube_vertices(
            horizontal_subdivisions as int,
            vertical_subdivisions as int,
            depth_subdivisions as int,
        ) <= u32::MAX,
        forall|k: u32, h: u32, v: u32| k < 6 ==> call_requires(vertex, (k, h, v)),
        forall|a: V, b: V, c: V| call_requires(behind, (a, b, c)),
    ensures
        r.wf(),
        exists|faces: Seq<CpuMesh<V>>, sums: Seq<CpuMesh<V>>| #[trigger]
            is_cube(
                vertex,
                behind,
                horizontal_subdivisions as int,
                vertical_subdivisions as int,
                depth_subdivisions as int,
                faces,
                sums,
                r,
            ),
{
    let hs = horizontal_subdivisions;
    let vs = vertical_subdivisions;
    let ds = depth_subdivisions;
    proof {
        lemma_cube_sizes(hs as int, vs as int, ds as int);
    }
    let f0 = cube_face(0, hs, vs, &vertex);
    let f1 = cube_face(1, hs, ds, &vertex);
    let f2 = cube_face(2, ds, vs, &vertex);
    let f3 = cube_face(3, hs, vs, &vertex);
    let f4 = cube_face(4, hs, ds, &vertex);
    let f5 = cube_face(5, ds, vs, &vertex);
    let ghost faces = seq![f0, f1, f2, f3, f4, f5];
    let mut cube = f0;
    let ghost s0 = cube;
    cube.extend(&f1);
    let ghost s1 = cube;
    cube.extend(&f2);
    let ghost s2 = cube;
    cube.extend(&f3);
    let ghost s3 = cube;
    cube.extend(&f4);
    let ghost s4 = cube;
    cube.extend(&f5);
    let ghost s5 = cube;
    let ghost sums = seq![s0, s1, s2, s3, s4, s5];
    cube.face_away(behind);
    proof {
        assert forall|k: int| 1 <= k < 6 implies appended(
            sums[k - 1],
            faces[k],
            #[trigger] sums[k],
        ) by {
            if k == 1 {
            } else if k == 2 {
            } else if k == 3 {
            } else if k == 4 {
            } else {
            }
        }
        assert(is_cube(vertex, behind, hs as int, vs as int, ds as int, faces, sums, cube));
    }
    cube
}

/// One face of a cube: the plane of `x` by `y` cells whose grid points are
/// what `vertex` gives for face `face`.
fn cube_face<V: Copy, F: Fn(u32, u32, u32) -> V>(face: u32, x: u32, y: u32, vertex: &F) -> (r:
    CpuMesh<V>)
    requires
        (x + 1) * (y + 1) <= u32::MAX,
        forall|h: u32, v: u32| call_requires(*vertex, (face, h, v)),
    ensures
        r.wf(),
        is_plane(
            r,
            x as int,
            y as int,
            |h: int, v: int, p: V| call_ensures(*vertex, (face, h as u32, v as u32), p),
        ),
{
    let point = |h: u32, v: u32| -> (p: V)
        requires
            call_requires(vertex, (face, h, v)),
        ensures
            call_ensures(vertex, (face, h, v), p),
        { vertex(face, h, v) };
    let r = plane(x, y, point);
    assert(6 * x * y == 6 * (x * y)) by (nonlinear_arith);
    r
}

/// Each face of a cube has no more vertices than the cube.
proof fn lemma_cube_sizes(h: int, v: int, d: int)
    by (nonlinear_arith)
    requires
        0 <= h,
        0 <= v,
        0 <= d,
    ensures
        (h + 1) * (v + 1) <= cube_vertices(h, v, d),
        (h + 1) * (d + 1) <= cube_vertices(h, v, d),
        (d + 1) * (v + 1) <= cube_vertices(h, v, d),
        cube_vertices(h, v, d) == 2 * ((h + 1) * (v + 1)) + 2 * ((h + 1) * (d + 1)) + 2 * ((d + 1)
            * (v + 1)),
{
}

/// The two triangles between point `j` of ring `i` and the same point of
/// the ring before, as six indices; each ring is `stride` points long.
pub open spec fn ring_indices(stride: int, i: int, j: int) -> Seq<u32> {
    let a = grid_index(stride, i, j);
    let b = a + 1;
    let c = grid_index(stride, i - 1, j);
    let d = c + 1;
    seq![a as u32, b as u32, c as u32, a as u32, c as u32, d as u32]
}

/// How many rings a lathe of so many subdivisions has: the line itself, and
/// one more for each subdivision after the first.
pub open spec fn rings(subdivisions: int) -> int {
    if subdivisions <= 1 {
        1
    } else {
        subdivisions
    }
}

/// The surface that a line of points sweeps when it is turned about an axis
/// in `subdivisions` steps.
///
/// `turn` gives a point of the line as it stands after so many steps. The
/// first ring is the line itself, and every step after it adds one ring of
/// turned points. Each ring is joined to the one before by two triangles
/// for every two neighbours on the line: see [`ring_indices`].
pub fn lathe<V: Copy, F: Fn(u32, V) -> V>(points: &Vec<V>, subdivisions: u32, turn: F) -> (r:
    CpuMesh<V>)
    requires
        rings(subdivisions as int) * points@.len() <= u32::MAX,
        subdivisions <= 1 || points@.len() >= 1,
        forall|i: u32, p: V| call_requires(turn, (i, p)),
    ensures
        r.wf(),
        r.positions@.len() == rings(subdivisions as int) * points@.len(),
        r.positions@.subrange(0, points@.len() as int) == points@,
        forall|i: int, j: int|
            1 <= i < subdivisions && 0 <= j < points@.len() ==> call_ensures(
                turn,
                (i as u32, points@[j]),
                r.positions@[#[trigger] grid_index(points@.len() as int, i, j)],
            ),
        r.indices@.len() == 6 * ((rings(subdivisions as int) - 1) * (points@.len() - 1)),
        forall|i: int, j: int|
            1 <= i < subdivisions && 0 <= j < points@.len() - 1 ==> r.indices@.subrange(
                6 * grid_index(points@.len() - 1, i - 1, j),
                6 * grid_index(points@.len() - 1, i - 1, j) + 6,
            ) == #[trigger] ring_indices(points@.len() as int, i, j),
{
    let len: usize = points.len();
    assert(len <= u32::MAX) by (nonlinear_arith)
        requires
            rings(subdivisions as int) * len <= u32::MAX,
            rings(subdivisions as int) >= 1,
    ;
    let stride: u32 = len as u32;
    let mut positions: Vec<V> = Vec::new();
    let mut j: usize = 0;
    while j < len
        invariant
            j <= len,
            len == points@.len(),
            positions@ == points@.subrange(0, j as int),
        decreases len - j,
    {
        positions.push(points[j]);
        j += 1;
        assert(positions@ =~= points@.subrange(0, j as int));
    }
    assert(positions@ =~= points@);
    let mut indices: Vec<u32> = Vec::new();
    if subdivisions <= 1 {
        assert(positions@.subrange(0, len as int) =~= points@);
        return CpuMesh { positions, indices };
    }
    let mut i: u32 = 1;
    while i < subdivisions
        invariant
            1 <= i <= subdivisions,
            len == points@.len(),
            len >= 1,
            stride == len,
            subdivisions * len <= u32::MAX,
            forall|k: u32, p: V| call_requires(turn, (k, p)),
            positions@.len() == i * len,
            positions@.subrange(0, len as int) == points@,
            forall|a: int, b: int|
                1 <= a < i && 0 <= b < len ==> call_ensures(
                    turn,
                    (a as u32, points@[b]),
                    positions@[#[trigger] grid_index(len as int, a, b)],
                ),
        decreases subdivisions - i,
    {
        let mut j: usize = 0;
        while j < len
            invariant
                1 <= i < subdivisions,
                j <= len,
                len == points@.len(),
                len >= 1,
                forall|k: u32, p: V| call_requires(turn, (k, p)),
                positions@.len() == i * len + j,
                positions@.subrange(0, len as int) == points@,
                forall|a: int, b: int|
                    (1 <= a < i && 0 <= b < len) || (a == i && 0 <= b < j) ==> call_ensures(
                        turn,
                        (a as u32, points@[b]),
                        positions@[#[trigger] grid_index(len as int, a, b)],
                    ),
            decreases len - j,
        {
            let ghost before = positions@;
            positions.push(turn(i, points[j]));
            proof {
                assert(before.len() == grid_index(len as int, i as int, j as int));
                lemma_grid_order(len as int, 0, 0, i as int, j as int);
                assert(positions@.subrange(0, len as int) =~= before.subrange(0, len as int)) by {
                    assert(len <= before.len()) by (nonlinear_arith)
                        requires
                            before.len() == i * len + j,
                            i >= 1,
                            len >= 0,
                            j >= 0,
                    ;
                }
                assert forall|a: int, b: int|
                    (1 <= a < i && 0 <= b < len) || (a == i && 0 <= b < j + 1) implies call_ensures(
                    turn,
                    (a as u32, points@[b]),
                    positions@[#[trigger] grid_index(len as int, a, b)],
                ) by {
                    if a == i && b == j {
                    } else {
                        lemma_grid_order(len as int, a, b, i as int, j as int);
                        assert(positions@[grid_index(len as int, a, b)] == before[grid_index(
                            len as int,
                            a,
                            b,
                        )]);
                    }
                }
            }
            j += 1;
        }
        proof {
            assert(i * len + len == (i + 1) * len) by (nonlinear_arith);
        }
        i += 1;
    }
    let cells: u32 = stride - 1;
    let mut i: u32 = 1;
    while i < subdivisions
        invariant
            1 <= i <= subdivisions,
            len == points@.len(),
            len >= 1,
            stride == len,
            cells == len - 1,
            subdivisions * len <= u32::MAX,
            indices@.len() == 6 * ((i - 1) * cells),
            forall|a: int, b: int|
                1 <= a < i && 0 <= b < cells ==> indices@.subrange(
                    6 * grid_index(cells as int, a - 1, b),
                    6 * grid_index(cells as int, a - 1, b) + 6,
                ) == #[trigger] ring_indices(len as int, a, b),
        decreases subdivisions - i,
    {
        let mut j: u32 = 0;
        while j < cells
            invariant
                1 <= i < subdivisions,
                j <= cells,
                len == points@.len(),
                len >= 1,
                stride == len,
                cells == len - 1,
                subdivisions * len <= u32::MAX,
                indices@.len() == 6 * ((i - 1) * cells + j),
                forall|a: int, b: int|
                    (1 <= a < i && 0 <= b < cells) || (a == i && 0 <= b < j) ==> indices@.subrange(
                        6 * grid_index(cells as int, a - 1, b),
                        6 * grid_index(cells as int, a - 1, b) + 6,
                    ) == #[trigger] ring_indices(len as int, a, b),
            decreases cells - j,
        {
            proof {
                lemma_grid_bound(len as int, subdivisions as int, i as int, j + 1);
                lemma_grid_bound(len as int, subdivisions as int, i - 1, j as int);
                assert(grid_index(len as int, i as int, j + 1) == i * stride + j + 1);
                assert(grid_index(len as int, i - 1, j as int) == (i - 1) * stride + j);
                assert(0 <= (i - 1) * stride && 0 <= i * stride) by (nonlinear_arith)
                    requires
                        i >= 1,
                        stride >= 0,
                ;
            }
            let a: u32 = i * stride + j;
            let b: u32 = a + 1;
            let c: u32 = (i - 1) * stride + j;
            let d: u32 = c + 1;
            let ghost before = indices@;
            indices.push(a);
            indices.push(b);
            indices.push(c);
            indices.push(a);
            indices.push(c);
            indices.push(d);
            proof {
                let here = grid_index(cells as int, i - 1, j as int);
                assert(before.len() == 6 * here);
                assert(indices@.subrange(6 * here, 6 * here + 6) =~= ring_indices(
                    len as int,
                    i as int,
                    j as int,
                ));
                assert forall|x: int, y: int|
                    (1 <= x < i && 0 <= y < cells) || (x == i && 0 <= y < j + 1) implies indices@.subrange(
                    6 * grid_index(cells as int, x - 1, y),
                    6 * grid_index(cells as int, x - 1, y) + 6,
                ) == #[trigger] ring_indices(len as int, x, y) by {
                    if x == i && y == j {
                    } else {
                        lemma_grid_order(cells as int, x - 1, y, i - 1, j as int);
                        let there = grid_index(cells as int, x - 1, y);
                        assert(indices@.subrange(6 * there, 6 * there + 6) =~= before.subrange(
                            6 * there,
                            6 * there + 6,
                        ));
                    }
                }
            }
            j += 1;
        }
        proof {
            assert((i - 1) * cells + cells == i * cells) by (nonlinear_arith);
        }
        i += 1;
    }
    let r = CpuMesh { positions, indices };
    proof {
        lemma_lathe_wf(r, subdivisions as int, len as int);
    }
    r
}

/// Every index of a lathe names one of its points.
proof fn lemma_lathe_wf<V: Copy>(mesh: CpuMesh<V>, n: int, len: int)
    requires
        n >= 2,
        len >= 1,
        n * len <= u32::MAX,
        mesh.positions@.len() == n * len,
        mesh.indices@.len() == 6 * ((n - 1) * (len - 1)),
        forall|i: int, j: int|
            1 <= i < n && 0 <= j < len - 1 ==> mesh.indices@.subrange(
                6 * grid_index(len - 1, i - 1, j),
                6 * grid_index(len - 1, i - 1, j) + 6,
            ) == #[trigger] ring_indices(len, i, j),
    ensures
        mesh.wf(),
{
    assert forall|k: int| 0 <= k < mesh.indices@.len() implies (#[trigger] mesh.indices@[k])
        < mesh.positions@.len() by {
        let cells = len - 1;
        let cell = k / 6;
        assert(cells > 0) by (nonlinear_arith)
            requires
                0 <= k < 6 * ((n - 1) * cells),
                n >= 2,
                cells >= 0,
        ;
        let i = cell / cells + 1;
        let j = cell % cells;
        assert(0 <= cell < (n - 1) * cells);
        assert(1 <= i < n && 0 <= j < cells && cell == (i - 1) * cells + j) by (nonlinear_arith)
            requires
                0 <= cell < (n - 1) * cells,
                cells > 0,
                i == cell / cells + 1,
                j == cell % cells,
        ;
        let part = mesh.indices@.subrange(
            6 * grid_index(cells, i - 1, j),
            6 * grid_index(cells, i - 1, j) + 6,
        );
        assert(part == ring_indices(len, i, j));
        assert(mesh.indices@[k] == part[k - 6 * cell]);
        lemma_grid_bound(len, n, i, j + 1);
        lemma_grid_bound(len, n, i - 1, j);
        lemma_grid_order(len, i - 1, j + 1, i, j);
        assert(grid_index(len, i, j + 1) == grid_index(len, i, j) + 1);
        assert(grid_index(len, i - 1, j + 1) == grid_index(len, i - 1, j) + 1);
    }
}

/// The place in its line of a cap point of a cylinder: after the
/// `vertical + 1` points of the wall, two for each radius, the one at the
/// bottom and then the one at the top.
pub open spec fn cap_place(vertical: int, r: int, top: bool) -> int {
    vertical + 1 + 2 * r + if top {
        1int
    } else {
        0int
    }
}

/// The four triangles between the cap points of radius `r` and of the next
/// radius, on line `h` and on the line after it: two at the bottom, then the
/// same two at the top.
pub open spec fn cap_indices(stride: int, vertical: int, h: int, r: int) -> Seq<u32> {
    let a = grid_index(stride, h, cap_place(vertical, r, false));
    let b = a + 2;
    let c = a + stride;
    let d = c + 2;
    seq![
        a as u32,
        b as u32,
        c as u32,
        b as u32,
        d as u32,
        c as u32,
        (a + 1) as u32,
        (b + 1) as u32,
        (c + 1) as u32,
        (b + 1) as u32,
        (d + 1) as u32,
        (c + 1) as u32,
    ]
}

/// The four triangles that join the last cap points of line `h` and of the
/// line after it to the ends of the wall: two at the bottom, two at the top.
pub open spec fn join_indices(stride: int, vertical: int, h: int) -> Seq<u32> {
    let ab = grid_index(stride, h + 1, 0) - 2;
    let bb = grid_index(stride, h, 0);
    let cb = grid_index(stride, h + 2, 0) - 2;
    let db = grid_index(stride, h + 1, 0);
    let at = ab + 1;
    let bt = bb + vertical;
    let ct = cb + 1;
    let dt = db + vertical;
    seq![
        ab as u32,
        bb as u32,
        cb as u32,
        bb as u32,
        db as u32,
        cb as u32,
        at as u32,
        bt as u32,
        ct as u32,
        bt as u32,
        dt as u32,
        ct as u32,
    ]
}

/// The triangles of the first `n` wall cells between line `h` and the next.
pub open spec fn wall_indices(stride: int, h: int, n: nat) -> Seq<u32>
    decreases n,
{
    if n == 0 {
        Seq::empty()
    } else {
        wall_indices(stride, h, (n - 1) as nat) + cell_indices(stride, h, n - 1)
    }
}

/// The triangles between the cap points of the first `n + 1` radii, between
/// line `h` and the next.
pub open spec fn caps_indices(stride: int, vertical: int, h: int, n: nat) -> Seq<u32>
    decreases n,
{
    if n == 0 {
        Seq::empty()
    } else {
        caps_indices(stride, vertical, h, (n - 1) as nat) + cap_indices(stride, vertical, h, n - 1)
    }
}

/// All triangles between line `h` of a cylinder and the next: the wall, the
/// caps, and what joins them.
pub open spec fn line_indices(stride: int, vertical: int, radial: int, h: int) -> Seq<u32> {
    wall_indices(stride, h, vertical as nat) + caps_indices(
        stride,
        vertical,
        h,
        (radial - 1) as nat,
    ) + join_indices(stride, vertical, h)
}

/// All triangles between the first `n + 1` lines of a cylinder.
pub open spec fn cylinder_indices(stride: int, vertical: int, radial: int, n: nat) -> Seq<u32>
    decreases n,
{
    if n == 0 {
        Seq::empty()
    } else {
        cylinder_indices(stride, vertical, radial, (n - 1) as nat) + line_indices(
            stride,
            vertical,
            radial,
            n - 1,
        )
    }
}

/// Whether every index of a list is below `bound`.
pub open spec fn below(indices: Seq<u32>, bound: int) -> bool {
    forall|i: int| 0 <= i < indices.len() ==> (#[trigger] indices[i]) < bound
}

/// The triangles between line `h` and the next name points of those two
/// lines only.
proof fn lemma_line_below(stride: int, vertical: int, radial: int, h: int)
    requires
        0 <= h,
        0 <= vertical,
        1 <= radial,
        stride == 2 * radial + vertical + 1,
        (h + 2) * stride <= u32::MAX,
    ensures
        below(line_indices(stride, vertical, radial, h), (h + 2) * stride),
{
    lemma_wall_below(stride, vertical, h, vertical as nat);
    lemma_caps_below(stride, vertical, radial, h, (radial - 1) as nat);
    lemma_grid_bound(stride, h + 2, h, 0);
    lemma_grid_bound(stride, h + 2, h + 1, vertical);
    assert(grid_index(stride, h + 2, 0) == (h + 2) * stride);
    assert(grid_index(stride, h + 1, 0) == grid_index(stride, h, 0) + stride) by (nonlinear_arith);
    assert(grid_index(stride, h + 2, 0) == grid_index(stride, h + 1, 0) + stride)
        by (nonlinear_arith);
    assert(below(join_indices(stride, vertical, h), (h + 2) * stride));
}

proof fn lemma_wall_below(stride: int, vertical: int, h: int, n: nat)
    requires
        0 <= h,
        n <= vertical,
        vertical + 1 < stride,
        (h + 2) * stride <= u32::MAX,
    ensures
        below(wall_indices(stride, h, n), (h + 2) * stride),
    decreases n,
{
    if n > 0 {
        lemma_wall_below(stride, vertical, h, (n - 1) as nat);
        lemma_grid_bound(stride, h + 2, h, n - 1);
        lemma_grid_bound(stride, h + 2, h + 1, n as int);
        assert(grid_index(stride, h + 1, n as int) == grid_index(stride, h, n - 1) + stride + 1)
            by (nonlinear_arith);
        assert(below(cell_indices(stride, h, n - 1), (h + 2) * stride));
    }
}

proof fn lemma_caps_below(stride: int, vertical: int, radial: int, h: int, n: nat)
    requires
        0 <= h,
        0 <= vertical,
        1 <= radial,
        n <= radial - 1,
        stride == 2 * radial + vertical + 1,
        (h + 2) * stride <= u32::MAX,
    ensures
        below(caps_indices(stride, vertical, h, n), (h + 2) * stride),
    decreases n,
{
    if n > 0 {
        lemma_caps_below(stride, vertical, radial, h, (n - 1) as nat);
        let place = cap_place(vertical, n - 1, false);
        lemma_grid_bound(stride, h + 2, h, place);
        lemma_grid_bound(stride, h + 2, h + 1, place + 3);
        assert(grid_index(stride, h + 1, place + 3) == grid_index(stride, h, place) + stride + 3)
            by (nonlinear_arith);
        assert(below(cap_indices(stride, vertical, h, n - 1), (h + 2) * stride));
    }
}

/// The triangles between the first `n + 1` lines name points of those lines
/// only.
proof fn lemma_cylinder_below(stride: int, vertical: int, radial: int, n: nat)
    requires
        0 <= vertical,
        1 <= radial,
        stride == 2 * radial + vertical + 1,
        (n + 1) * stride <= u32::MAX,
    ensures
        below(cylinder_indices(stride, vertical, radial, n), (n + 1) * stride),
    decreases n,
{
    if n > 0 {
        assert(n * stride <= (n + 1) * stride) by (nonlinear_arith)
            requires
                stride >= 0,
        ;
        lemma_cylinder_below(stride, vertical, radial, (n - 1) as nat);
        lemma_line_below(stride, vertical, radial, n - 1);
    }
}

/// A cylinder before it is embedded, as lines of points along its turn.
///
/// Each of the `horizontal_subdivisions + 1` lines has the points of the
/// wall, `vertical_subdivisions + 1` of them from the bottom to the top, and
/// after them the points of the two caps, for each of `radial_subdivisions`
/// radii the one at the bottom and then the one at the top: see
/// [`cap_place`]. `wall` gives the position of a wall point from its line
/// and its height, `cap` that of a cap point from its line, its radius and
/// whether it is at the top. The triangles are those of
/// [`cylinder_indices`].
pub fn cylinder<V: Copy, W: Fn(u32, u32) -> V, C: Fn(u32, u32, bool) -> V>(
    horizontal_subdivisions: u32,
    vertical_subdivisions: u32,
    radial_subdivisions: u32,
    wall: W,
    cap: C,
) -> (r: CpuMesh<V>)
    requires
        radial_subdivisions >= 1,
        (horizontal_subdivisions + 1) * (2 * radial_subdivisions + vertical_subdivisions + 1)
            <= u32::MAX,
        forall|h: u32, v: u32| call_requires(wall, (h, v)),
        forall|h: u32, r: u32, top: bool| call_requires(cap, (h, r, top)),
    ensures
        r.wf(),
        r.positions@.len() == (horizontal_subdivisions + 1) * (2 * radial_subdivisions
            + vertical_subdivisions + 1),
        forall|h: int, v: int|
            0 <= h <= horizontal_subdivisions && 0 <= v <= vertical_subdivisions ==> call_ensures(
                wall,
                (h as u32, v as u32),
                r.positions@[#[trigger] grid_index(
                    2 * radial_subdivisions + vertical_subdivisions + 1,
                    h,
                    v,
                )],
            ),
        forall|h: int, k: int, top: bool|
            0 <= h <= horizontal_subdivisions && 0 <= k < radial_subdivisions ==> call_ensures(
                cap,
                (h as u32, k as u32, top),
                r.positions@[#[trigger] grid_index(
                    2 * radial_subdivisions + vertical_subdivisions + 1,
                    h,
                    cap_place(vertical_subdivisions as int, k, top),
                )],
            ),
        r.indices@ == cylinder_indices(
            2 * radial_subdivisions + vertical_subdivisions + 1,
            vertical_subdivisions as int,
            radial_subdivisions as int,
            horizontal_subdivisions as nat,
        ),
{
    let hs = horizontal_subdivisions;
    let vs = vertical_subdivisions;
    let rs = radial_subdivisions;
    assert(hs < u32::MAX && 2 * rs + vs + 1 <= u32::MAX) by (nonlinear_arith)
        requires
            (hs + 1) * (2 * rs + vs + 1) <= u32::MAX,
            rs >= 1,
    ;
    let stride: u32 = rs * 2 + vs + 1;
    let mut positions: Vec<V> = Vec::new();
    let mut hdiv: u32 = 0;
    while hdiv <= hs
        invariant
            hdiv <= hs + 1,
            hs < u32::MAX,
            rs >= 1,
            stride == 2 * rs + vs + 1,
            forall|h: u32, v: u32| call_requires(wall, (h, v)),
            forall|h: u32, r: u32, top: bool| call_requires(cap, (h, r, top)),
            positions@.len() == hdiv * stride,
            forall|h: int, v: int|
                0 <= h < hdiv && 0 <= v <= vs ==> call_ensures(
                    wall,
                    (h as u32, v as u32),
                    positions@[#[trigger] grid_index(stride as int, h, v)],
                ),
            forall|h: int, k: int, top: bool|
                0 <= h < hdiv && 0 <= k < rs ==> call_ensures(
                    cap,
                    (h as u32, k as u32, top),
                    positions@[#[trigger] grid_index(
                        stride as int,
                        h,
                        cap_place(vs as int, k, top),
                    )],
                ),
        decreases hs + 1 - hdiv,
    {
        let mut vdiv: u32 = 0;
        while vdiv <= vs
            invariant
                hdiv <= hs,
                vdiv <= vs + 1,
                rs >= 1,
                stride == 2 * rs + vs + 1,
                forall|h: u32, v: u32| call_requires(wall, (h, v)),
                positions@.len() == hdiv * stride + vdiv,
                forall|h: int, v: int|
                    (0 <= h < hdiv && 0 <= v <= vs) || (h == hdiv && 0 <= v < vdiv)
                        ==> call_ensures(
                        wall,
                        (h as u32, v as u32),
                        positions@[#[trigger] grid_index(stride as int, h, v)],
                    ),
                forall|h: int, k: int, top: bool|
                    0 <= h < hdiv && 0 <= k < rs ==> call_ensures(
                        cap,
                        (h as u32, k as u32, top),
                        positions@[#[trigger] grid_index(
                            stride as int,
                            h,
                            cap_place(vs as int, k, top),
                        )],
                    ),
            decreases vs + 1 - vdiv,
        {
            let ghost before = positions@;
            positions.push(wall(hdiv, vdiv));
            proof {
                assert(before.len() == grid_index(stride as int, hdiv as int, vdiv as int));
                assert forall|h: int, v: int|
                    (0 <= h < hdiv && 0 <= v <= vs) || (h == hdiv && 0 <= v < vdiv
                        + 1) implies call_ensures(
                    wall,
                    (h as u32, v as u32),
                    positions@[#[trigger] grid_index(stride as int, h, v)],
                ) by {
                    if h == hdiv && v == vdiv {
                    } else {
                        lemma_grid_order(stride as int, h, v, hdiv as int, vdiv as int);
                        assert(positions@[grid_index(stride as int, h, v)] == before[grid_index(
                            stride as int,
                            h,
                            v,
                        )]);
                    }
                }
                assert forall|h: int, k: int, top: bool|
                    0 <= h < hdiv && 0 <= k < rs implies call_ensures(
                    cap,
                    (h as u32, k as u32, top),
                    positions@[#[trigger] grid_index(
                        stride as int,
                        h,
                        cap_place(vs as int, k, top),
                    )],
                ) by {
                    let place = cap_place(vs as int, k, top);
                    lemma_grid_order(stride as int, h, place, hdiv as int, vdiv as int);
                    assert(positions@[grid_index(stride as int, h, place)] == before[grid_index(
                        stride as int,
                        h,
                        place,
                    )]);
                }
            }
            vdiv += 1;
        }
        let mut rdiv: u32 = 0;
        while rdiv < rs
            invariant
                hdiv <= hs,
                rdiv <= rs,
                rs >= 1,
                stride == 2 * rs + vs + 1,
                forall|h: u32, r: u32, top: bool| call_requires(cap, (h, r, top)),
                positions@.len() == hdiv * stride + vs + 1 + 2 * rdiv,
                forall|h: int, v: int|
                    0 <= h <= hdiv && 0 <= v <= vs ==> call_ensures(
                        wall,
                        (h as u32, v as u32),
                        positions@[#[trigger] grid_index(stride as int, h, v)],
                    ),
                forall|h: int, k: int, top: bool|
                    (0 <= h < hdiv && 0 <= k < rs) || (h == hdiv && 0 <= k < rdiv)
                        ==> call_ensures(
                        cap,
                        (h as u32, k as u32, top),
                        positions@[#[trigger] grid_index(
                            stride as int,
                            h,
                            cap_place(vs as int, k, top),
                        )],
                    ),
            decreases rs - rdiv,
        {
            let ghost before = positions@;
            positions.push(cap(hdiv, rdiv, false));
            positions.push(cap(hdiv, rdiv, true));
            proof {
                let here = cap_place(vs as int, rdiv as int, false);
                assert(before.len() == grid_index(stride as int, hdiv as int, here));
                assert forall|h: int, v: int| 0 <= h <= hdiv && 0 <= v <= vs implies call_ensures(
                    wall,
                    (h as u32, v as u32),
                    positions@[#[trigger] grid_index(stride as int, h, v)],
                ) by {
                    lemma_grid_order(stride as int, h, v, hdiv as int, here);
                    assert(positions@[grid_index(stride as int, h, v)] == before[grid_index(
                        stride as int,
                        h,
                        v,
                    )]);
                }
                assert forall|h: int, k: int, top: bool|
                    (0 <= h < hdiv && 0 <= k < rs) || (h == hdiv && 0 <= k < rdiv
                        + 1) implies call_ensures(
                    cap,
                    (h as u32, k as u32, top),
                    positions@[#[trigger] grid_index(
                        stride as int,
                        h,
                        cap_place(vs as int, k, top),
                    )],
                ) by {
                    let place = cap_place(vs as int, k, top);
                    if h == hdiv && k == rdiv {
                    } else {
                        lemma_grid_order(stride as int, h, place, hdiv as int, here);
                        assert(positions@[grid_index(stride as int, h, place)]
                            == before[grid_index(stride as int, h, place)]);
                    }
                }
            }
            rdiv += 1;
        }
        proof {
            assert(hdiv * stride + stride == (hdiv + 1) * stride) by (nonlinear_arith);
        }
        hdiv += 1;
    }

    let mut indices: Vec<u32> = Vec::new();
    let mut hdiv: u32 = 0;
    while hdiv < hs
        invariant
            hdiv <= hs,
            rs >= 1,
            stride == 2 * rs + vs + 1,
            (hs + 1) * stride <= u32::MAX,
            indices@ == cylinder_indices(stride as int, vs as int, rs as int, hdiv as nat),
        decreases hs - hdiv,
    {
        proof {
            assert((hdiv + 2) * stride <= (hs + 1) * stride) by (nonlinear_arith)
                requires
                    hdiv + 2 <= hs + 1,
                    stride >= 0,
            ;
            assert(0 <= hdiv * stride && hdiv * stride + 2 * stride == (hdiv + 2) * stride && (hdiv
                + 1) * stride == hdiv * stride + stride) by (nonlinear_arith)
                requires
                    hdiv >= 0,
                    stride >= 0,
            ;
        }
        let ghost done = indices@;
        let base: u32 = hdiv * stride;
        let mut vdiv: u32 = 0;
        while vdiv < vs
            invariant
                vdiv <= vs,
                rs >= 1,
                stride == 2 * rs + vs + 1,
                base == hdiv * stride,
                base + 2 * stride <= u32::MAX,
                indices@ == done + wall_indices(stride as int, hdiv as int, vdiv as nat),
            decreases vs - vdiv,
        {
            let a: u32 = base + vdiv;
            let b: u32 = a + 1;
            let c: u32 = a + stride;
            let d: u32 = c + 1;
            indices.push(a);
            indices.push(b);
            indices.push(c);
            indices.push(b);
            indices.push(d);
            indices.push(c);
            vdiv += 1;
            assert(indices@ =~= done + wall_indices(stride as int, hdiv as int, vdiv as nat));
        }
        let ghost walled = indices@;
        let mut rdiv: u32 = 0;
        while rdiv < rs - 1
            invariant
                rdiv <= rs - 1,
                rs >= 1,
                stride == 2 * rs + vs + 1,
                base == hdiv * stride,
                base + 2 * stride <= u32::MAX,
                indices@ == walled + caps_indices(
                    stride as int,
                    vs as int,
                    hdiv as int,
                    rdiv as nat,
                ),
            decreases rs - 1 - rdiv,
        {
            let a: u32 = base + vs + 1 + rdiv * 2;
            let b: u32 = a + 2;
            let c: u32 = a + stride;
            let d: u32 = c + 2;
            indices.push(a);
            indices.push(b);
            indices.push(c);
            indices.push(b);
            indices.push(d);
            indices.push(c);
            indices.push(a + 1);
            indices.push(b + 1);
            indices.push(c + 1);
            indices.push(b + 1);
            indices.push(d + 1);
            indices.push(c + 1);
            rdiv += 1;
            assert(indices@ =~= walled + caps_indices(
                stride as int,
                vs as int,
                hdiv as int,
                rdiv as nat,
            ));
        }
        let ghost capped = indices@;
        let ab: u32 = base + stride - 2;
        let bb: u32 = base;
        let cb: u32 = base + stride + stride - 2;
        let db: u32 = base + stride;
        let at: u32 = ab + 1;
        let bt: u32 = bb + vs;
        let ct: u32 = cb + 1;
        let dt: u32 = db + vs;
        indices.push(ab);
        indices.push(bb);
        indices.push(cb);
        indices.push(bb);
        indices.push(db);
        indices.push(cb);
        indices.push(at);
        indices.push(bt);
        indices.push(ct);
        indices.push(bt);
        indices.push(dt);
        indices.push(ct);
        proof {
            assert(indices@ =~= capped + join_indices(stride as int, vs as int, hdiv as int));
            assert(indices@ =~= done + line_indices(
                stride as int,
                vs as int,
                rs as int,
                hdiv as int,
            ));
        }
        hdiv += 1;
    }
    let r = CpuMesh { positions, indices };
    proof {
        lemma_cylinder_below(stride as int, vs as int, rs as int, hs as nat);
    }
    r
}

} // verus!
