use marching_cubes::grid::{SampleGrid, FIELD_LIMIT, MAX_RESOLUTION, POS_SCALE};
use marching_cubes::march::{marching_cubes, GridData};

/// Builds a grid from a closure over lattice coordinates.
fn grid_from_fn(res: usize, f: impl Fn(usize, usize, usize) -> i64) -> SampleGrid {
    let side = res + 1;
    let mut samples = Vec::with_capacity(side * side * side);
    for i in 0..side {
        for j in 0..side {
            for k in 0..side {
                samples.push(f(i, j, k));
            }
        }
    }
    SampleGrid::new(res, samples).expect("valid grid")
}

fn extract(res: usize, f: impl Fn(usize, usize, usize) -> i64, threshold: i64) -> GridData {
    marching_cubes(&grid_from_fn(res, f), threshold)
}

#[test]
fn constructor_accepts_well_formed_input() {
    let g = SampleGrid::new(1, vec![0; 8]);
    assert!(g.is_some());
    assert_eq!(g.unwrap().resolution(), 1);
}

#[test]
fn constructor_rejects_wrong_length() {
    assert!(SampleGrid::new(1, vec![0; 7]).is_none());
    assert!(SampleGrid::new(2, vec![0; 8]).is_none());
}

#[test]
fn constructor_rejects_oversized_resolution() {
    assert!(SampleGrid::new(MAX_RESOLUTION + 1, Vec::new()).is_none());
}

#[test]
fn constructor_rejects_out_of_range_samples() {
    let mut samples = vec![0i64; 8];
    samples[3] = FIELD_LIMIT + 1;
    assert!(SampleGrid::new(1, samples).is_none());
    let mut samples = vec![0i64; 8];
    samples[5] = -FIELD_LIMIT - 1;
    assert!(SampleGrid::new(1, samples).is_none());
}

#[test]
fn grid_reads_back_samples() {
    let g = grid_from_fn(2, |i, j, k| (i * 100 + j * 10 + k) as i64);
    assert_eq!(g.value_at(0, 0, 0), 0);
    assert_eq!(g.value_at(1, 2, 0), 120);
    assert_eq!(g.value_at(2, 2, 2), 222);
}

#[test]
fn single_corner_cell_emits_one_exact_triangle() {
    // One cell; only the corner at the origin is above threshold.  The three
    // crossed edges are interpolated at t = (10 - 5) / (10 - 0) of a cell.
    let m = extract(1, |i, j, k| if (i, j, k) == (0, 0, 0) { 10 } else { 0 }, 5);
    assert_eq!(m.vertices(), vec![32768, 0, 0, 0, 32768, 0, 0, 0, 32768]);
    assert_eq!(m.indices(), vec![1, 2, 0]);
}

#[test]
fn interpolation_is_exact_fixed_point() {
    // t = (10 - 2) * 65536 / 10 rounded towards zero.
    let m = extract(1, |i, j, k| if (i, j, k) == (0, 0, 0) { 10 } else { 0 }, 2);
    assert_eq!(m.vertices(), vec![52428, 0, 0, 0, 52428, 0, 0, 0, 52428]);
    assert_eq!(m.indices(), vec![1, 2, 0]);
}

#[test]
fn uniform_grids_yield_empty_meshes() {
    // All samples below the threshold.
    let below = extract(2, |_, _, _| 3, 5);
    assert_eq!(below.vertices().len(), 0);
    assert_eq!(below.indices().len(), 0);
    // All samples on or above the threshold.
    let above = extract(2, |_, _, _| 7, 5);
    assert_eq!(above.vertices().len(), 0);
    assert_eq!(above.indices().len(), 0);
}

#[test]
fn threshold_above_global_maximum_yields_empty_mesh() {
    let f = |i: usize, j: usize, k: usize| (i + j + k) as i64;
    let m = extract(3, f, 10);
    assert_eq!(m.vertices().len(), 0);
    assert_eq!(m.indices().len(), 0);
}

#[test]
fn zero_resolution_yields_empty_mesh() {
    let g = SampleGrid::new(0, vec![99]).expect("valid grid");
    let m = marching_cubes(&g, 5);
    assert_eq!(m.vertices().len(), 0);
    assert_eq!(m.indices().len(), 0);
}

/// Number of distinct lattice edges whose endpoint samples straddle the
/// threshold, counted directly on the grid.
fn distinct_crossed_edges(res: usize, f: &impl Fn(usize, usize, usize) -> i64, th: i64) -> usize {
    let mut count = 0;
    for i in 0..=res {
        for j in 0..=res {
            for k in 0..=res {
                if i < res && (f(i, j, k) >= th) != (f(i + 1, j, k) >= th) {
                    count += 1;
                }
                if j < res && (f(i, j, k) >= th) != (f(i, j + 1, k) >= th) {
                    count += 1;
                }
                if k < res && (f(i, j, k) >= th) != (f(i, j, k + 1) >= th) {
                    count += 1;
                }
            }
        }
    }
    count
}

#[test]
fn shared_edges_are_welded_once() {
    // A single hot lattice point in the middle of a 2x2x2 grid: all eight
    // cells surround it and share its six incident lattice edges.  Welding
    // must emit one vertex per distinct crossed edge, not one per
    // (cell, edge) visit.
    let f = |i: usize, j: usize, k: usize| if (i, j, k) == (1, 1, 1) { 100 } else { 0 };
    let m = extract(2, f, 50);
    let vertex_count = m.vertices().len() / 3;
    assert_eq!(vertex_count, distinct_crossed_edges(2, &f, 50));
    assert_eq!(vertex_count, 6);
    assert_eq!(m.indices().len(), 24);
    assert_eq!(
        m.vertices(),
        vec![
            65536, 32768, 65536, 32768, 65536, 65536, 65536, 65536, 32768, 65536, 65536, 98304,
            65536, 98304, 65536, 98304, 65536, 65536,
        ]
    );
}

#[test]
fn extraction_is_idempotent() {
    let f = |i: usize, j: usize, k: usize| {
        // A fixed irregular field.
        ((i * 37 + j * 91 + k * 53) % 17) as i64 - 8
    };
    let a = extract(4, f, 0);
    let b = extract(4, f, 0);
    assert_eq!(a.vertices(), b.vertices());
    assert_eq!(a.indices(), b.indices());
}

#[test]
fn triangles_reference_distinct_existing_vertices() {
    // A pseudo-random integer field; checks the triangle-buffer guarantees.
    let f = |i: usize, j: usize, k: usize| {
        let mut h = (i * 1103515245 + j * 12345 + k * 2654435761) as u64;
        h ^= h >> 13;
        (h % 21) as i64 - 10
    };
    let m = extract(5, f, 0);
    let verts = m.vertices();
    let idx = m.indices();
    assert_eq!(verts.len() % 3, 0);
    assert_eq!(idx.len() % 3, 0);
    let vertex_count = (verts.len() / 3) as u32;
    assert!(vertex_count > 0);
    for t in idx.chunks(3) {
        assert!(t[0] < vertex_count && t[1] < vertex_count && t[2] < vertex_count);
        assert!(t[0] != t[1] && t[0] != t[2] && t[1] != t[2]);
    }
}

#[test]
fn positions_use_the_fixed_point_scale() {
    assert_eq!(POS_SCALE, 65536);
    // A vertex exactly halfway along the edge from (0,0,0) to (1,0,0).
    let m = extract(1, |i, j, k| if (i, j, k) == (0, 0, 0) { 2 } else { 0 }, 1);
    let verts = m.vertices();
    assert_eq!(verts[0], POS_SCALE / 2);
}
