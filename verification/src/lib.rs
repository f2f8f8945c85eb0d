//! Isosurface extraction by marching cubes.
//!
//! A scalar field is sampled once per lattice point of a uniform grid; each
//! grid cell is then classified against a threshold, the crossed cube edges
//! are interpolated in fixed-point arithmetic, vertices on edges shared by
//! neighbouring cells are welded, and triangles are emitted from a lookup
//! table.  Positions are produced in fixed-point lattice units; turning them
//! into world floating-point coordinates, like producing the samples in the
//! first place, is the embedder's concern.

pub mod tables;
pub mod grid;
pub mod march;
pub mod laws;
