use std::collections::HashMap;

use marching_cubes::grid::{FIELD_LIMIT, POS_SCALE, SampleGrid};
use marching_cubes::march::{marching_cubes, GridData};

/// A metaball: centre, falloff radius, and influence.
#[derive(Clone, Copy)]
struct Ball {
    x: f64,
    y: f64,
    z: f64,
    radius: f64,
    influence: f64,
}

/// The metaball field: a soft inverse falloff tapered by a quintic Hermite
/// smoothstep of the radius-normalised distance.
fn scalar_field(x: f64, y: f64, z: f64, balls: &[Ball]) -> f64 {
    let mut sum = 0.0;
    for b in balls {
        let dx = x - b.x;
        let dy = y - b.y;
        let dz = z - b.z;
        let d2 = dx * dx + dy * dy + dz * dz;
        let influence = b.influence / (d2 + b.radius);
        let nd = (d2 / b.radius).sqrt().min(1.0);
        let smooth = 1.0 - nd * nd * nd * (nd * (nd * 6.0 - 15.0) + 10.0);
        sum += influence * smooth;
    }
    sum
}

const FIELD_SCALE: f64 = 1048576.0;

/// Fixed-point quantisation of a field value, clamped to the sample range.
fn quantize(v: f64) -> i64 {
    let q = (v * FIELD_SCALE).round() as i64;
    q.clamp(-FIELD_LIMIT, FIELD_LIMIT)
}

/// Samples the field once per lattice point of the unit cube.
fn sample_grid(res: usize, balls: &[Ball]) -> SampleGrid {
    let side = res + 1;
    let gs = 1.0 / res as f64;
    let mut samples = Vec::with_capacity(side * side * side);
    for i in 0..side {
        for j in 0..side {
            for k in 0..side {
                samples.push(quantize(scalar_field(
                    i as f64 * gs,
                    j as f64 * gs,
                    k as f64 * gs,
                    balls,
                )));
            }
        }
    }
    SampleGrid::new(res, samples).expect("valid grid")
}

/// Counts the distinct undirected edges of the triangle mesh and checks that
/// each is shared by exactly two triangles (a closed surface).
fn undirected_edge_count_closed(m: &GridData) -> usize {
    let idx = m.indices();
    let mut edges: HashMap<(u32, u32), usize> = HashMap::new();
    for t in idx.chunks(3) {
        for (u, v) in [(t[0], t[1]), (t[1], t[2]), (t[2], t[0])] {
            let key = (u.min(v), u.max(v));
            *edges.entry(key).or_insert(0) += 1;
        }
    }
    for (_, n) in &edges {
        assert_eq!(*n, 2, "surface is not closed");
    }
    edges.len()
}

/// World coordinates of vertex `i` of the mesh (the unit cube).
fn world_vertex(m: &GridData, res: usize, i: usize) -> (f64, f64, f64) {
    let v = m.vertices();
    let s = POS_SCALE as f64 * res as f64;
    (
        v[3 * i] as f64 / s,
        v[3 * i + 1] as f64 / s,
        v[3 * i + 2] as f64 / s,
    )
}

#[test]
fn threshold_at_peak_gives_watertight_octahedron() {
    // With the threshold exactly at the field's value at the ball centre,
    // only the central lattice point classifies as inside; the eight
    // surrounding cells emit a small closed fan around it.
    let balls = [Ball { x: 0.5, y: 0.5, z: 0.5, radius: 0.1, influence: 1.0 }];
    let res = 16;
    let g = sample_grid(res, &balls);
    let th = quantize(scalar_field(0.5, 0.5, 0.5, &balls));
    let m = marching_cubes(&g, th);
    let vcount = m.vertices().len() / 3;
    let tcount = m.indices().len() / 3;
    assert_eq!(vcount, 6);
    assert_eq!(tcount, 8);
    let e = undirected_edge_count_closed(&m);
    assert_eq!(e, 3 * tcount / 2);
    assert_eq!(vcount as i64 - e as i64 + tcount as i64, 2);
}

#[test]
fn sphere_mesh_is_closed_with_euler_characteristic_two() {
    let balls = [Ball { x: 0.5, y: 0.5, z: 0.5, radius: 0.1, influence: 1.0 }];
    let res = 16;
    let g = sample_grid(res, &balls);
    let peak = scalar_field(0.5, 0.5, 0.5, &balls);
    let th = quantize(peak * 0.5);
    let m = marching_cubes(&g, th);
    let vcount = m.vertices().len() / 3;
    let tcount = m.indices().len() / 3;
    assert!(vcount > 50, "expected a real sphere approximation");
    let e = undirected_edge_count_closed(&m);
    assert_eq!(2 * e, 3 * tcount);
    assert_eq!(vcount as i64 - e as i64 + tcount as i64, 2);
}

#[test]
fn sphere_normals_point_outward() {
    // The outward normal is the negated, normalised central-difference
    // gradient of the field; for a single ball it must leave the centre.
    let balls = [Ball { x: 0.5, y: 0.5, z: 0.5, radius: 0.1, influence: 1.0 }];
    let res = 16;
    let g = sample_grid(res, &balls);
    let peak = scalar_field(0.5, 0.5, 0.5, &balls);
    let m = marching_cubes(&g, quantize(peak * 0.5));
    let vcount = m.vertices().len() / 3;
    let delta = 0.001;
    for i in 0..vcount {
        let (x, y, z) = world_vertex(&m, res, i);
        let gx = scalar_field(x + delta, y, z, &balls) - scalar_field(x - delta, y, z, &balls);
        let gy = scalar_field(x, y + delta, z, &balls) - scalar_field(x, y - delta, z, &balls);
        let gz = scalar_field(x, y, z + delta, &balls) - scalar_field(x, y, z - delta, &balls);
        let mag = (gx * gx + gy * gy + gz * gz).sqrt();
        assert!(mag > 0.0);
        let (nx, ny, nz) = (-gx / mag, -gy / mag, -gz / mag);
        let (rx, ry, rz) = (x - 0.5, y - 0.5, z - 0.5);
        let dot = nx * rx + ny * ry + nz * rz;
        assert!(dot > 0.0, "normal at vertex {i} points inward");
    }
}

#[test]
fn threshold_above_field_maximum_gives_empty_mesh() {
    let balls = [Ball { x: 0.5, y: 0.5, z: 0.5, radius: 0.1, influence: 1.0 }];
    let res = 8;
    let g = sample_grid(res, &balls);
    let peak = scalar_field(0.5, 0.5, 0.5, &balls);
    let m = marching_cubes(&g, quantize(peak) + 1);
    assert_eq!(m.vertices().len(), 0);
    assert_eq!(m.indices().len(), 0);
}

#[test]
fn two_balls_make_a_closed_surface() {
    let balls = [
        Ball { x: 0.35, y: 0.5, z: 0.5, radius: 0.05, influence: 1.0 },
        Ball { x: 0.65, y: 0.5, z: 0.5, radius: 0.05, influence: 1.0 },
    ];
    let res = 12;
    let g = sample_grid(res, &balls);
    let peak = scalar_field(0.35, 0.5, 0.5, &balls);
    let m = marching_cubes(&g, quantize(peak * 0.6));
    let tcount = m.indices().len() / 3;
    assert!(tcount > 0);
    let _ = undirected_edge_count_closed(&m);
}
