use colorview::mesh::CpuMesh;
use colorview::pre_embed::{cube, cylinder, lathe, plane};

fn square() -> CpuMesh<(f32, f32)> {
    CpuMesh::new(
        vec![(0.0, 0.0), (1.0, 0.0), (0.0, 1.0), (1.0, 1.0)],
        Some(vec![0, 1, 2, 1, 3, 2]),
    )
}

#[test]
fn mesh_new_keeps_given_indices() {
    let mesh = square();
    assert_eq!(mesh.positions.len(), 4);
    assert_eq!(mesh.indices, vec![0, 1, 2, 1, 3, 2]);
    assert_eq!(mesh.num_vertices(), 4);
}

#[test]
fn mesh_new_without_indices_counts_up() {
    let mesh = CpuMesh::new(vec!['a', 'b', 'c', 'd', 'e'], None);
    assert_eq!(mesh.indices, vec![0, 1, 2, 3, 4]);
    let empty: CpuMesh<char> = CpuMesh::new(vec![], None);
    assert_eq!(empty.indices, Vec::<u32>::new());
    assert_eq!(empty.num_vertices(), 0);
}

#[test]
fn split_triangles_gives_each_index_its_own_vertex() {
    let split = square().split_triangles();
    assert_eq!(
        split.positions,
        vec![(0.0, 0.0), (1.0, 0.0), (0.0, 1.0), (1.0, 0.0), (1.0, 1.0), (0.0, 1.0)]
    );
    assert_eq!(split.indices, vec![0, 1, 2, 3, 4, 5]);
}

#[test]
fn split_triangles_of_empty_mesh_is_empty() {
    let empty: CpuMesh<u8> = CpuMesh::new(vec![], Some(vec![]));
    let split = empty.split_triangles();
    assert_eq!(split.positions, Vec::<u8>::new());
    assert_eq!(split.indices, Vec::<u32>::new());
}

#[test]
fn embed_maps_every_vertex_in_place() {
    let mut mesh = square();
    mesh.embed(|(x, y)| (x * 2.0, y + 1.0));
    assert_eq!(
        mesh.positions,
        vec![(0.0, 1.0), (2.0, 1.0), (0.0, 2.0), (2.0, 2.0)]
    );
    assert_eq!(mesh.indices, vec![0, 1, 2, 1, 3, 2]);
}

#[test]
fn embed_from_takes_vertices_and_indices_of_the_source() {
    let source = square();
    let mut mesh: CpuMesh<(f32, f32)> = CpuMesh::new(vec![(9.0, 9.0)], None);
    mesh.embed_from(&source, |(x, y)| (y, x));
    assert_eq!(
        mesh.positions,
        vec![(0.0, 0.0), (0.0, 1.0), (1.0, 0.0), (1.0, 1.0)]
    );
    assert_eq!(mesh.indices, source.indices);
    // the source is untouched
    assert_eq!(source, square());
}

#[test]
fn embed_from_triangles_maps_three_vertices_at_a_time() {
    let source: CpuMesh<u32> = CpuMesh::new(vec![1, 2, 3, 10, 20, 30], None);
    let mut mesh: CpuMesh<u32> = CpuMesh::new(vec![], None);
    // each vertex becomes the sum of the other two of its triangle
    mesh.embed_from_triangles(&source, |[a, b, c]| [b + c, a + c, a + b]);
    assert_eq!(mesh.positions, vec![5, 4, 3, 50, 40, 30]);
    assert_eq!(mesh.indices, vec![0, 1, 2, 3, 4, 5]);
}

#[test]
fn face_exchanges_where_answer_differs_from_away() {
    // "behind" where the first corner is the largest
    let behind = |a: u32, b: u32, c: u32| a > b && a > c;
    let mut mesh: CpuMesh<u32> = CpuMesh::new(vec![5, 1, 2, 0, 7, 8], Some(vec![0, 1, 2, 3, 4, 5, 1]));
    mesh.face(behind, true);
    // away: the first triangle has the point behind it and is kept, the
    // second has not and is turned over
    assert_eq!(mesh.indices, vec![0, 1, 2, 3, 5, 4, 1]);
    let mut mesh: CpuMesh<u32> = CpuMesh::new(vec![5, 1, 2, 0, 7, 8], Some(vec![0, 1, 2, 3, 4, 5, 1]));
    mesh.face(behind, false);
    // toward: the other way round
    assert_eq!(mesh.indices, vec![0, 2, 1, 3, 4, 5, 1]);
    assert_eq!(mesh.positions, vec![5, 1, 2, 0, 7, 8]);
}

#[test]
fn face_away_is_face_with_away_set() {
    let behind = |a: i32, _b: i32, _c: i32| a < 0;
    let mut one: CpuMesh<i32> = CpuMesh::new(vec![-1, 1, 2], Some(vec![0, 1, 2, 1, 0, 2, 2, 0]));
    let mut other = one.clone();
    one.face_away(behind);
    other.face(behind, true);
    assert_eq!(one, other);
    // the point is behind the first triangle only; the two indices left
    // over stay
    assert_eq!(one.indices, vec![0, 1, 2, 1, 2, 0, 2, 0]);
}

#[test]
fn face_away_leaves_the_point_behind_every_triangle() {
    // vertices on a line; the point is behind a triangle whose corners
    // ascend from the second to the third
    let behind = |_a: i32, b: i32, c: i32| b < c;
    let mut mesh: CpuMesh<i32> = CpuMesh::new(
        vec![10, 20, 30, 40],
        Some(vec![0, 1, 2, 0, 2, 1, 3, 3, 0, 1, 3, 2]),
    );
    mesh.face_away(behind);
    for t in 0..mesh.indices.len() / 3 {
        let b = mesh.positions[mesh.indices[3 * t + 1] as usize];
        let c = mesh.positions[mesh.indices[3 * t + 2] as usize];
        assert!(b <= c);
    }
    assert_eq!(mesh.indices, vec![0, 1, 2, 0, 1, 2, 3, 0, 3, 1, 2, 3]);
    mesh.face(behind, false);
    for t in 0..mesh.indices.len() / 3 {
        let b = mesh.positions[mesh.indices[3 * t + 1] as usize];
        let c = mesh.positions[mesh.indices[3 * t + 2] as usize];
        assert!(b >= c);
    }
}

#[test]
fn subdivide_quarters_each_triangle() {
    let mesh: CpuMesh<(f32, f32)> = CpuMesh::new(
        vec![(0.0, 0.0), (2.0, 0.0), (0.0, 2.0), (2.0, 2.0)],
        Some(vec![0, 1, 2, 1, 3, 2]),
    );
    let middle = |a: (f32, f32), b: (f32, f32)| ((a.0 + b.0) / 2.0, (a.1 + b.1) / 2.0);
    let fine = mesh.subdivide(middle);
    assert_eq!(
        fine.positions,
        vec![
            (0.0, 0.0),
            (2.0, 0.0),
            (0.0, 2.0),
            (2.0, 2.0),
            // first triangle: middles of 0-1, 1-2, 2-0
            (1.0, 0.0),
            (1.0, 1.0),
            (0.0, 1.0),
            // second triangle: middles of 1-3, 3-2, 2-1
            (2.0, 1.0),
            (1.0, 2.0),
            (1.0, 1.0),
        ]
    );
    assert_eq!(
        fine.indices,
        vec![
            0, 4, 6, 1, 5, 4, 2, 6, 5, 4, 5, 6, //
            1, 7, 9, 3, 8, 7, 2, 9, 8, 7, 8, 9,
        ]
    );
}

#[test]
fn subdivide_drops_indices_after_last_whole_triangle() {
    let mesh: CpuMesh<u32> = CpuMesh::new(vec![0, 10, 20], Some(vec![0, 1, 2, 1, 2]));
    let fine = mesh.subdivide(|a, b| (a + b) / 2);
    assert_eq!(fine.positions, vec![0, 10, 20, 5, 15, 10]);
    assert_eq!(fine.indices, vec![0, 3, 5, 1, 4, 3, 2, 5, 4, 3, 4, 5]);
}

#[test]
fn plane_lays_out_points_line_after_line() {
    let mesh = plane(2, 1, |h, v| (h, v));
    assert_eq!(
        mesh.positions,
        vec![(0, 0), (0, 1), (1, 0), (1, 1), (2, 0), (2, 1)]
    );
    assert_eq!(mesh.indices, vec![0, 1, 2, 1, 3, 2, 2, 3, 4, 3, 5, 4]);
}

#[test]
fn plane_of_one_cell_is_two_triangles() {
    let mesh = plane(1, 1, |h, v| (h as f32, v as f32));
    assert_eq!(
        mesh.positions,
        vec![(0.0, 0.0), (0.0, 1.0), (1.0, 0.0), (1.0, 1.0)]
    );
    assert_eq!(mesh.indices, vec![0, 1, 2, 1, 3, 2]);
}

#[test]
fn plane_with_no_cells_still_has_its_points() {
    let mesh = plane(0, 3, |h, v| h * 10 + v);
    assert_eq!(mesh.positions, vec![0, 1, 2, 3]);
    assert_eq!(mesh.indices, Vec::<u32>::new());
    let mesh = plane(0, 0, |h, v| h * 10 + v);
    assert_eq!(mesh.positions, vec![0]);
    assert_eq!(mesh.indices, Vec::<u32>::new());
}

#[test]
fn plane_of_three_by_two_cells_has_every_cell_in_order() {
    let (x, y) = (3u32, 2u32);
    let mesh = plane(x, y, |h, v| (h, v));
    assert_eq!(mesh.positions.len(), 12);
    assert_eq!(mesh.indices.len(), 36);
    let stride = y + 1;
    for h in 0..x {
        for v in 0..y {
            let at = (6 * (h * y + v)) as usize;
            let a = h * stride + v;
            let (b, c) = (a + 1, a + stride);
            let d = c + 1;
            assert_eq!(&mesh.indices[at..at + 6], &[a, b, c, b, d, c]);
            assert_eq!(mesh.positions[a as usize], (h, v));
            assert_eq!(mesh.positions[d as usize], (h + 1, v + 1));
        }
    }
}

#[test]
fn subdivide_n_of_zero_is_the_mesh_itself() {
    let mesh: CpuMesh<u32> = CpuMesh::new(vec![0, 10, 20], Some(vec![0, 1, 2, 1]));
    let same = mesh.subdivide_n(0, |a, b| (a + b) / 2);
    assert_eq!(same, mesh);
}

#[test]
fn subdivide_n_repeats_subdivide() {
    let mesh: CpuMesh<u32> = CpuMesh::new(vec![0, 16, 32], Some(vec![0, 1, 2]));
    let middle = |a: u32, b: u32| (a + b) / 2;
    let twice = mesh.subdivide_n(2, middle);
    assert_eq!(twice, mesh.subdivide(middle).subdivide(middle));
    // one triangle, then four, then sixteen
    assert_eq!(twice.indices.len(), 48);
    // three vertices, then three more, then twelve more
    assert_eq!(twice.positions.len(), 18);
    assert_eq!(&twice.positions[..6], &[0, 16, 32, 8, 24, 16]);
}

#[test]
fn extend_appends_vertices_and_moves_indices_on() {
    let mut mesh: CpuMesh<char> = CpuMesh::new(vec!['a', 'b', 'c'], Some(vec![0, 1, 2]));
    let other: CpuMesh<char> = CpuMesh::new(vec!['d', 'e', 'f', 'g'], Some(vec![0, 1, 2, 1, 3, 2]));
    mesh.extend(&other);
    assert_eq!(mesh.positions, vec!['a', 'b', 'c', 'd', 'e', 'f', 'g']);
    assert_eq!(mesh.indices, vec![0, 1, 2, 3, 4, 5, 4, 6, 5]);
    // every triangle of the appended mesh still names its own corners
    for (at, &index) in other.indices.iter().enumerate() {
        assert_eq!(
            mesh.positions[mesh.indices[3 + at] as usize],
            other.positions[index as usize]
        );
    }
}

#[test]
fn extend_by_and_of_an_empty_mesh() {
    let empty: CpuMesh<u8> = CpuMesh::new(vec![], Some(vec![]));
    let full: CpuMesh<u8> = CpuMesh::new(vec![7, 8, 9], Some(vec![2, 1, 0]));
    let mut mesh = full.clone();
    mesh.extend(&empty);
    assert_eq!(mesh, full);
    let mut mesh = empty.clone();
    mesh.extend(&full);
    assert_eq!(mesh, full);
}

#[test]
fn cube_joins_six_planes_in_the_order_of_the_faces() {
    // the point lies behind every triangle: nothing is turned over
    let mesh = cube(1, 2, 3, |face, h, v| (face, h, v), |_a, _b, _c| true);
    // faces 0 and 3: 2 by 3 points; 1 and 4: 2 by 4; 2 and 5: 4 by 3
    assert_eq!(mesh.positions.len(), 2 * (6 + 8 + 12));
    assert_eq!(mesh.indices.len(), 6 * 2 * (2 + 3 + 6));
    let sizes = [(1u32, 2u32), (1, 3), (3, 2), (1, 2), (1, 3), (3, 2)];
    let mut first_vertex = 0u32;
    let mut first_index = 0usize;
    for (face, (x, y)) in sizes.into_iter().enumerate() {
        let single = plane(x, y, |h, v| (face as u32, h, v));
        let vertices = single.positions.len();
        assert_eq!(
            &mesh.positions[first_vertex as usize..first_vertex as usize + vertices],
            &single.positions[..]
        );
        let moved: Vec<u32> = single.indices.iter().map(|i| i + first_vertex).collect();
        assert_eq!(
            &mesh.indices[first_index..first_index + moved.len()],
            &moved[..]
        );
        first_vertex += vertices as u32;
        first_index += moved.len();
    }
}

#[test]
fn cube_turns_over_the_triangles_the_point_is_not_behind() {
    // the point lies behind the triangles of the first three faces only
    let behind = |a: (u32, u32, u32), _b: (u32, u32, u32), _c: (u32, u32, u32)| a.0 < 3;
    let kept = cube(1, 1, 1, |face, h, v| (face, h, v), |_a, _b, _c| true);
    let turned = cube(1, 1, 1, |face, h, v| (face, h, v), behind);
    assert_eq!(turned.positions, kept.positions);
    for t in 0..kept.indices.len() / 3 {
        let (a, b, c) = (kept.indices[3 * t], kept.indices[3 * t + 1], kept.indices[3 * t + 2]);
        let after = &turned.indices[3 * t..3 * t + 3];
        if t < 6 {
            assert_eq!(after, &[a, b, c]);
        } else {
            assert_eq!(after, &[a, c, b]);
        }
    }
}

#[test]
fn lathe_adds_a_ring_for_every_step_after_the_first() {
    let line = vec![(0u32, 'a'), (0, 'b'), (0, 'c')];
    let mesh = lathe(&line, 3, |i, (_, name)| (i, name));
    assert_eq!(
        mesh.positions,
        vec![
            (0, 'a'), (0, 'b'), (0, 'c'), //
            (1, 'a'), (1, 'b'), (1, 'c'), //
            (2, 'a'), (2, 'b'), (2, 'c'),
        ]
    );
    assert_eq!(
        mesh.indices,
        vec![
            3, 4, 0, 3, 0, 1, //
            4, 5, 1, 4, 1, 2, //
            6, 7, 3, 6, 3, 4, //
            7, 8, 4, 7, 4, 5,
        ]
    );
}

#[test]
fn lathe_of_one_step_or_none_is_the_line_alone() {
    let line = vec![10u8, 20, 30];
    for subdivisions in [0, 1] {
        let mesh = lathe(&line, subdivisions, |_, p| p + 1);
        assert_eq!(mesh.positions, line);
        assert_eq!(mesh.indices, Vec::<u32>::new());
    }
    let nothing: Vec<u8> = vec![];
    let mesh = lathe(&nothing, 1, |_, p| p);
    assert_eq!(mesh.positions, nothing);
}

#[test]
fn lathe_of_a_single_point_has_rings_and_no_triangles() {
    let mesh = lathe(&vec![5u32], 4, |i, p| p + i);
    assert_eq!(mesh.positions, vec![5, 6, 7, 8]);
    assert_eq!(mesh.indices, Vec::<u32>::new());
}

/// A point of a cylinder by what it is: on the wall at a height, or on a
/// cap at a radius, at the bottom or at the top.
#[derive(Debug, Clone, Copy, PartialEq)]
enum Spot {
    Wall(u32, u32),
    Cap(u32, u32, bool),
}

#[test]
fn cylinder_lays_out_each_line_wall_first_then_caps() {
    let mesh = cylinder(1, 2, 2, Spot::Wall, Spot::Cap);
    let line = |h: u32| {
        vec![
            Spot::Wall(h, 0),
            Spot::Wall(h, 1),
            Spot::Wall(h, 2),
            Spot::Cap(h, 0, false),
            Spot::Cap(h, 0, true),
            Spot::Cap(h, 1, false),
            Spot::Cap(h, 1, true),
        ]
    };
    let mut expected = line(0);
    expected.extend(line(1));
    assert_eq!(mesh.positions, expected);
}

#[test]
fn cylinder_triangles_are_wall_then_caps_then_joins() {
    // stride 7: three wall points, then two cap points for each of two radii
    let mesh = cylinder(1, 2, 2, Spot::Wall, Spot::Cap);
    assert_eq!(
        mesh.indices,
        vec![
            // wall, two cells
            0, 1, 7, 1, 8, 7, //
            1, 2, 8, 2, 9, 8, //
            // caps between radius 0 and radius 1: bottom, then top
            3, 5, 10, 5, 12, 10, //
            4, 6, 11, 6, 13, 11, //
            // joins: bottom, then top
            5, 0, 12, 0, 7, 12, //
            6, 2, 13, 2, 9, 13,
        ]
    );
}

#[test]
fn cylinder_of_two_by_three_by_three_matches_the_loops_written_out() {
    let (horizontal, vertical, radial) = (2u32, 3u32, 3u32);
    let mesh = cylinder(horizontal, vertical, radial, Spot::Wall, Spot::Cap);
    let stride = radial * 2 + vertical + 1;
    assert_eq!(mesh.positions.len() as u32, (horizontal + 1) * stride);
    let mut expected: Vec<u32> = vec![];
    for hdiv in 0..horizontal {
        for vdiv in 0..vertical {
            let a = hdiv * stride + vdiv;
            let (b, c) = (a + 1, a + stride);
            let d = c + 1;
            expected.extend([a, b, c, b, d, c]);
        }
        for rdiv in 0..radial - 1 {
            let a = hdiv * stride + vertical + 1 + rdiv * 2;
            let (b, c) = (a + 2, a + stride);
            let d = c + 2;
            expected.extend([a, b, c, b, d, c]);
            expected.extend([a + 1, b + 1, c + 1, b + 1, d + 1, c + 1]);
        }
        let ab = (hdiv + 1) * stride - 2;
        let bb = hdiv * stride;
        let cb = (hdiv + 2) * stride - 2;
        let db = (hdiv + 1) * stride;
        let (at, bt, ct, dt) = (ab + 1, bb + vertical, cb + 1, db + vertical);
        expected.extend([ab, bb, cb, bb, db, cb, at, bt, ct, bt, dt, ct]);
    }
    assert_eq!(mesh.indices, expected);
    for &index in &mesh.indices {
        assert!((index as usize) < mesh.positions.len());
    }
}

#[test]
fn cylinder_with_no_lines_to_join_has_points_only() {
    let mesh = cylinder(0, 0, 1, Spot::Wall, Spot::Cap);
    assert_eq!(
        mesh.positions,
        vec![Spot::Wall(0, 0), Spot::Cap(0, 0, false), Spot::Cap(0, 0, true)]
    );
    assert_eq!(mesh.indices, Vec::<u32>::new());
}
