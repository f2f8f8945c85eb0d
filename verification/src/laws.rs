//! Laws of the extraction, stated and proved of `spec_extract` itself: what
//! uniform cells contribute, how out-of-range thresholds behave, that welding
//! yields one vertex per distinct crossed lattice edge with a position
//! determined by that edge alone, and that the output buffers are a function
//! of the inputs.

use vstd::arithmetic::div_mod::{
    lemma_div_pos_is_pos,
    lemma_fundamental_div_mod,
    lemma_mod_bound,
};
use vstd::prelude::*;

use crate::grid::SampleGrid;
use crate::march::{
    cell_config,
    cell_edge_key,
    cell_x,
    cell_y,
    cell_z,
    corner_above,
    crossing_point,
    edge_crossed,
    empty_state,
    has_key,
    is_extraction_of,
    key_crossed,
    lemma_cell_edge_key_injective,
    lemma_march_edges_slots,
    march_cell,
    march_cells,
    march_edge,
    march_edges,
    march_tris,
    spec_extract,
    state_wf,
    triple_distinct,
    triple_emitted,
    valid_key,
    GridData,
    MarchState,
};
use crate::tables::{
    corner_offset,
    edge_axis,
    edge_corner_high,
    edge_corner_low,
    edge_offset,
    lemma_edge_corners,
};

verus! {

/// All eight corners of cell `(x, y, z)` lie on the same side of the
/// threshold.
pub open spec fn cell_uniform(g: SampleGrid, th: int, x: int, y: int, z: int) -> bool {
    forall|c: int|
        0 <= c < 8 ==> #[trigger] corner_above(g, th, x, y, z, c) == corner_above(g, th, x, y, z, 0)
}

/// A cell whose corner samples are all below the threshold, or all on or
/// above it, contributes no vertices and no triangles: marching it leaves
/// the state untouched.
pub proof fn lemma_uniform_cell_skipped(
    g: SampleGrid,
    th: int,
    x: int,
    y: int,
    z: int,
    st: MarchState,
)
    requires
        cell_uniform(g, th, x, y, z),
    ensures
        march_cell(g, th, x, y, z, st) == st,
{
    if corner_above(g, th, x, y, z, 0) {
        assert(cell_config(g, th, x, y, z) == 255);
    } else {
        assert(cell_config(g, th, x, y, z) == 0);
    }
}

/// A crossed edge forces a mixed classification: the cell is neither all
/// below nor all on-or-above the threshold.
proof fn lemma_crossed_edge_mixed(g: SampleGrid, th: int, x: int, y: int, z: int, e: int)
    requires
        0 <= e < 12,
        edge_crossed(g, th, x, y, z, e),
    ensures
        cell_config(g, th, x, y, z) != 0,
        cell_config(g, th, x, y, z) != 255,
{
    lemma_edge_corners(e);
    let ca = edge_corner_low(e);
    let cb = edge_corner_high(e);
    let k = cell_edge_key(x, y, z, e);
    assert(corner_above(g, th, x, y, z, ca) == (crate::march::key_low_sample(g, k) >= th));
    assert(corner_above(g, th, x, y, z, cb) == (crate::march::key_high_sample(g, k) >= th));
    assert(corner_above(g, th, x, y, z, ca) != corner_above(g, th, x, y, z, cb));
}

/// Bounds of the components of every corner offset.
proof fn lemma_corner_offset_bounds(c: int)
    requires
        0 <= c < 8,
    ensures
        0 <= corner_offset(c).0 <= 1,
        0 <= corner_offset(c).1 <= 1,
        0 <= corner_offset(c).2 <= 1,
{
}

/// Bounds of the components of every edge offset, and the offset along the
/// edge's own axis is zero.
proof fn lemma_edge_offset_bounds(e: int)
    requires
        0 <= e < 12,
    ensures
        0 <= edge_offset(e).0 <= 1,
        0 <= edge_offset(e).1 <= 1,
        0 <= edge_offset(e).2 <= 1,
        0 <= edge_axis(e) < 3,
        edge_axis(e) == 0 ==> edge_offset(e).0 == 0,
        edge_axis(e) == 1 ==> edge_offset(e).1 == 0,
        edge_axis(e) == 2 ==> edge_offset(e).2 == 0,
{
}

/// Marching one edge of an in-range cell preserves well-formedness and only
/// extends the key list.
proof fn lemma_march_edge_wf(
    g: SampleGrid,
    th: int,
    x: int,
    y: int,
    z: int,
    e: int,
    st: MarchState,
)
    requires
        state_wf(g, th, st),
        0 <= x < g.res(),
        0 <= y < g.res(),
        0 <= z < g.res(),
        0 <= e < 12,
    ensures
        state_wf(g, th, march_edge(g, th, x, y, z, e, st).0),
{
    let r = march_edge(g, th, x, y, z, e, st).0;
    if edge_crossed(g, th, x, y, z, e) && !has_key(st.keys, cell_edge_key(x, y, z, e)) {
        let k = cell_edge_key(x, y, z, e);
        lemma_edge_offset_bounds(e);
        assert(valid_key(g.res(), k));
        assert forall|i: int, j: int| 0 <= i < j < r.keys.len() implies #[trigger] r.keys[i]
            != #[trigger] r.keys[j] by {
            if j == st.keys.len() {
                if r.keys[i] == k {
                    assert(st.keys[i] == k);
                    assert(has_key(st.keys, k));
                }
            }
        }
        assert forall|i: int| 0 <= i < r.tris.len() implies 0 <= #[trigger] r.tris[i]
            < r.verts.len() by {
            assert(r.tris[i] == st.tris[i]);
        }
    }
}

/// Marching the first `e` edges of an in-range cell preserves
/// well-formedness.
proof fn lemma_march_edges_wf(
    g: SampleGrid,
    th: int,
    x: int,
    y: int,
    z: int,
    st0: MarchState,
    e: nat,
)
    requires
        state_wf(g, th, st0),
        0 <= x < g.res(),
        0 <= y < g.res(),
        0 <= z < g.res(),
        e <= 12,
    ensures
        state_wf(g, th, march_edges(g, th, x, y, z, st0, e).0),
    decreases e,
{
    if e > 0 {
        lemma_march_edges_wf(g, th, x, y, z, st0, (e - 1) as nat);
        lemma_march_edge_wf(g, th, x, y, z, e - 1, march_edges(g, th, x, y, z, st0, (e - 1) as nat).0);
    }
}

/// Emitting table triples preserves well-formedness, given per-edge slots
/// that point at the vertices of this cell's own edges.
proof fn lemma_march_tris_wf(
    g: SampleGrid,
    th: int,
    x: int,
    y: int,
    z: int,
    p: u64,
    ev: Seq<Option<int>>,
    st: MarchState,
    j: nat,
)
    requires
        state_wf(g, th, st),
        ev.len() == 12,
        forall|m: int|
            0 <= m < 12 && #[trigger] ev[m] is Some ==> 0 <= ev[m]->0 < st.keys.len()
                && st.keys[ev[m]->0] == cell_edge_key(x, y, z, m),
    ensures
        state_wf(
            g,
            th,
            MarchState { verts: st.verts, keys: st.keys, tris: march_tris(p, ev, st.tris, j) },
        ),
    decreases j,
{
    if j > 0 {
        lemma_march_tris_wf(g, th, x, y, z, p, ev, st, (j - 1) as nat);
        let prev = march_tris(p, ev, st.tris, (j - 1) as nat);
        let cur = march_tris(p, ev, st.tris, j);
        let stp = MarchState { verts: st.verts, keys: st.keys, tris: prev };
        if triple_emitted(p, ev, j - 1) {
            let e0 = crate::march::nib_of(p, 3 * (j - 1));
            let e1 = crate::march::nib_of(p, 3 * (j - 1) + 1);
            let e2 = crate::march::nib_of(p, 3 * (j - 1) + 2);
            let a = ev[e0]->0;
            let b = ev[e1]->0;
            let c = ev[e2]->0;
            if a == b {
                lemma_cell_edge_key_injective(x, y, z, e0, e1);
            }
            if a == c {
                lemma_cell_edge_key_injective(x, y, z, e0, e2);
            }
            if b == c {
                lemma_cell_edge_key_injective(x, y, z, e1, e2);
            }
            let n = prev.len() as int;
            assert(cur[n] == c && cur[n + 1] == b && cur[n + 2] == a);
            assert forall|i: int| 0 <= i < cur.len() implies 0 <= #[trigger] cur[i]
                < st.verts.len() by {
                if i < n {
                    assert(cur[i] == prev[i]);
                }
            }
            assert forall|m: int| 0 <= m < cur.len() / 3 implies #[trigger] triple_distinct(
                cur,
                m,
            ) by {
                if m < n / 3 {
                    assert(triple_distinct(prev, m));
                    assert(cur[3 * m] == prev[3 * m]);
                    assert(cur[3 * m + 1] == prev[3 * m + 1]);
                    assert(cur[3 * m + 2] == prev[3 * m + 2]);
                } else {
                    assert(3 * m == n && 3 * m + 1 == n + 1 && 3 * m + 2 == n + 2);
                }
            }
        }
    }
}

/// Marching one in-range cell: well-formedness is preserved, the key list is
/// only extended, and afterwards every crossed edge of this cell has its key
/// in the list.
proof fn lemma_march_cell_wf(g: SampleGrid, th: int, x: int, y: int, z: int, st: MarchState)
    requires
        state_wf(g, th, st),
        0 <= x < g.res(),
        0 <= y < g.res(),
        0 <= z < g.res(),
    ensures
        state_wf(g, th, march_cell(g, th, x, y, z, st)),
        forall|k: (int, int, int, int)|
            has_key(st.keys, k) ==> #[trigger] has_key(march_cell(g, th, x, y, z, st).keys, k),
        forall|e: int|
            0 <= e < 12 && #[trigger] edge_crossed(g, th, x, y, z, e) ==> has_key(
                march_cell(g, th, x, y, z, st).keys,
                cell_edge_key(x, y, z, e),
            ),
{
    let cfg = cell_config(g, th, x, y, z);
    let r = march_cell(g, th, x, y, z, st);
    lemma_march_edges_slots(g, th, x, y, z, st, 12);
    let me = march_edges(g, th, x, y, z, st, 12);
    if cfg == 0 || cfg == 255 {
        assert forall|e: int| 0 <= e < 12 && #[trigger] edge_crossed(g, th, x, y, z, e) implies
            has_key(r.keys, cell_edge_key(x, y, z, e)) by {
            lemma_crossed_edge_mixed(g, th, x, y, z, e);
        }
    } else {
        lemma_march_edges_wf(g, th, x, y, z, st, 12);
        lemma_march_tris_wf(g, th, x, y, z, crate::tables::tri_table_row(cfg), me.1, me.0, 5);
        assert(r.verts == me.0.verts && r.keys == me.0.keys);
        assert forall|k: (int, int, int, int)| has_key(st.keys, k) implies #[trigger] has_key(
            r.keys,
            k,
        ) by {
            let i = crate::march::key_index(st.keys, k);
            assert(0 <= i < st.keys.len() && st.keys[i] == k);
            assert(r.keys[i] == k);
        }
        assert forall|e: int| 0 <= e < 12 && #[trigger] edge_crossed(g, th, x, y, z, e) implies
            has_key(r.keys, cell_edge_key(x, y, z, e)) by {
            assert(me.1[e] is Some);
            let i = me.1[e]->0;
            assert(me.0.keys[i] == cell_edge_key(x, y, z, e));
        }
    }
}

/// Cell numbers below `res^3` unflatten to in-range coordinates.
proof fn lemma_cell_coords_range(res: int, n: int)
    requires
        0 <= n < res * (res * res),
    ensures
        0 <= cell_x(res, n) < res,
        0 <= cell_y(res, n) < res,
        0 <= cell_z(res, n) < res,
{
    assert(res > 0) by (nonlinear_arith)
        requires
            0 <= n < res * (res * res),
    ;
    let r2 = res * res;
    assert(r2 > 0) by (nonlinear_arith)
        requires
            res > 0,
            r2 == res * res,
    ;
    lemma_fundamental_div_mod(n, r2);
    lemma_mod_bound(n, r2);
    lemma_div_pos_is_pos(n, r2);
    let q = n / r2;
    let rem = n % r2;
    assert(q < res) by (nonlinear_arith)
        requires
            n == r2 * q + rem,
            0 <= rem < r2,
            r2 == res * res,
            n < res * (res * res),
            q >= 0,
    ;
    lemma_fundamental_div_mod(rem, res);
    lemma_mod_bound(rem, res);
    lemma_div_pos_is_pos(rem, res);
    assert(rem / res < res) by (nonlinear_arith)
        requires
            rem == res * (rem / res) + rem % res,
            0 <= rem % res < res,
            rem < res * res,
            rem / res >= 0,
    ;
}

/// Marching any number of in-range cells from a well-formed state: the
/// result is well formed, keys are only added, and every crossed edge of
/// every marched cell is represented.
proof fn lemma_march_cells_wf(g: SampleGrid, th: int, st0: MarchState, n: nat)
    requires
        state_wf(g, th, st0),
        n <= g.res() * (g.res() * g.res()),
    ensures
        state_wf(g, th, march_cells(g, th, st0, n)),
        forall|k: (int, int, int, int)|
            has_key(st0.keys, k) ==> #[trigger] has_key(march_cells(g, th, st0, n).keys, k),
        forall|m: int, e: int|
            0 <= m < n && 0 <= e < 12 && #[trigger] edge_crossed(
                g,
                th,
                cell_x(g.res(), m),
                cell_y(g.res(), m),
                cell_z(g.res(), m),
                e,
            ) ==> has_key(
                march_cells(g, th, st0, n).keys,
                cell_edge_key(cell_x(g.res(), m), cell_y(g.res(), m), cell_z(g.res(), m), e),
            ),
    decreases n,
{
    if n > 0 {
        lemma_march_cells_wf(g, th, st0, (n - 1) as nat);
        let prev = march_cells(g, th, st0, (n - 1) as nat);
        let res = g.res();
        lemma_cell_coords_range(res, n - 1);
        let x = cell_x(res, n - 1);
        let y = cell_y(res, n - 1);
        let z = cell_z(res, n - 1);
        lemma_march_cell_wf(g, th, x, y, z, prev);
        let r = march_cells(g, th, st0, n);
        assert(r == march_cell(g, th, x, y, z, prev));
        assert forall|m: int, e: int|
            0 <= m < n && 0 <= e < 12 && #[trigger] edge_crossed(
                g,
                th,
                cell_x(res, m),
                cell_y(res, m),
                cell_z(res, m),
                e,
            ) implies has_key(
            r.keys,
            cell_edge_key(cell_x(res, m), cell_y(res, m), cell_z(res, m), e),
        ) by {
            if m < n - 1 {
                assert(has_key(prev.keys, cell_edge_key(cell_x(res, m), cell_y(res, m), cell_z(res, m), e)));
            }
        }
    }
}

/// The welding law: in a complete extraction every vertex lies on a distinct
/// crossed lattice edge, its position is the crossing point of that edge
/// alone (so the same vertex appears no matter which neighbouring cell
/// reaches the edge first), and every crossed edge of every cell is
/// represented.  Hence the vertex count equals the number of distinct
/// crossed lattice edges, not the number of (cell, edge) visits.
pub proof fn lemma_edge_welding(g: SampleGrid, th: int)
    requires
        g.wf(),
    ensures
        ({
            let st = spec_extract(g, th);
            &&& st.verts.len() == st.keys.len()
            &&& forall|i: int, j: int|
                0 <= i < j < st.keys.len() ==> #[trigger] st.keys[i] != #[trigger] st.keys[j]
            &&& forall|i: int|
                0 <= i < st.keys.len() ==> valid_key(g.res(), #[trigger] st.keys[i]) && key_crossed(
                    g,
                    th,
                    st.keys[i],
                ) && st.verts[i] == crossing_point(g, th, st.keys[i])
            &&& forall|x: int, y: int, z: int, e: int|
                0 <= x < g.res() && 0 <= y < g.res() && 0 <= z < g.res() && 0 <= e < 12
                    && #[trigger] edge_crossed(g, th, x, y, z, e) ==> has_key(
                    st.keys,
                    cell_edge_key(x, y, z, e),
                )
        }),
{
    let res = g.res();
    g.lemma_wf_bounds();
    assert(res * (res * res) == (res * res) * res && res * (res * res) >= 0) by (nonlinear_arith)
        requires
            res >= 0,
    ;
    let total = (res * (res * res)) as nat;
    lemma_march_cells_wf(g, th, empty_state(), total);
    let st = spec_extract(g, th);
    assert(st == march_cells(g, th, empty_state(), total));
    assert forall|x: int, y: int, z: int, e: int|
        0 <= x < res && 0 <= y < res && 0 <= z < res && 0 <= e < 12 && #[trigger] edge_crossed(
            g,
            th,
            x,
            y,
            z,
            e,
        ) implies has_key(st.keys, cell_edge_key(x, y, z, e)) by {
        let m = (x * res + y) * res + z;
        assert(0 <= m < res * (res * res)) by (nonlinear_arith)
            requires
                0 <= x < res,
                0 <= y < res,
                0 <= z < res,
                m == (x * res + y) * res + z,
        ;
        crate::march::lemma_cell_coords(res, x, y, z);
        assert(edge_crossed(g, th, cell_x(res, m), cell_y(res, m), cell_z(res, m), e));
    }
}

/// A grid whose samples all sit on one side of the threshold.
pub open spec fn grid_one_sided(g: SampleGrid, th: int) -> bool {
    ||| forall|i: int, j: int, k: int|
        g.in_grid(i, j, k) ==> #[trigger] g.sample(i, j, k) < th
    ||| forall|i: int, j: int, k: int|
        g.in_grid(i, j, k) ==> #[trigger] g.sample(i, j, k) >= th
}

/// Every cell of a one-sided grid is uniform.
proof fn lemma_one_sided_cell_uniform(g: SampleGrid, th: int, x: int, y: int, z: int)
    requires
        g.wf(),
        grid_one_sided(g, th),
        0 <= x < g.res(),
        0 <= y < g.res(),
        0 <= z < g.res(),
    ensures
        cell_uniform(g, th, x, y, z),
{
    assert forall|c: int| 0 <= c < 8 implies #[trigger] corner_above(g, th, x, y, z, c)
        == corner_above(g, th, x, y, z, 0) by {
        lemma_corner_offset_bounds(c);
        lemma_corner_offset_bounds(0);
        let o = corner_offset(c);
        let o0 = corner_offset(0);
        assert(g.in_grid(x + o.0, y + o.1, z + o.2));
        assert(g.in_grid(x + o0.0, y + o0.1, z + o0.2));
    }
}

/// A threshold outside the grid's sample range — above every sample, or at
/// or below every sample — yields the empty extraction: no vertices, no
/// triangles.
pub proof fn lemma_one_sided_threshold_empty(g: SampleGrid, th: int)
    requires
        g.wf(),
        grid_one_sided(g, th),
    ensures
        spec_extract(g, th) == empty_state(),
{
    let res = g.res();
    g.lemma_wf_bounds();
    assert((res * res) * res >= 0) by (nonlinear_arith)
        requires
            res >= 0,
    ;
    lemma_one_sided_cells(g, th, ((res * res) * res) as nat);
}

/// Marching any number of cells of a one-sided grid leaves the empty state.
proof fn lemma_one_sided_cells(g: SampleGrid, th: int, n: nat)
    requires
        g.wf(),
        grid_one_sided(g, th),
        n <= (g.res() * g.res()) * g.res(),
    ensures
        march_cells(g, th, empty_state(), n) == empty_state(),
    decreases n,
{
    if n > 0 {
        lemma_one_sided_cells(g, th, (n - 1) as nat);
        let res = g.res();
        assert(res * (res * res) == (res * res) * res) by (nonlinear_arith);
        lemma_cell_coords_range(res, n - 1);
        lemma_one_sided_cell_uniform(
            g,
            th,
            cell_x(res, n - 1),
            cell_y(res, n - 1),
            cell_z(res, n - 1),
        );
        lemma_uniform_cell_skipped(
            g,
            th,
            cell_x(res, n - 1),
            cell_y(res, n - 1),
            cell_z(res, n - 1),
            empty_state(),
        );
    }
}

/// Extraction is deterministic: two result meshes for the same grid and
/// threshold hold identical buffers.
pub proof fn lemma_extraction_deterministic(g: SampleGrid, th: int, r1: GridData, r2: GridData)
    requires
        is_extraction_of(r1, g, th),
        is_extraction_of(r2, g, th),
    ensures
        r1.vertices_view() == r2.vertices_view(),
        r1.indices_view() == r2.indices_view(),
{
    let st = spec_extract(g, th);
    assert forall|n: int| 0 <= n < r1.vertices_view().len() implies r1.vertices_view()[n]
        == r2.vertices_view()[n] by {
        lemma_fundamental_div_mod(n, 3);
        lemma_mod_bound(n, 3);
        lemma_div_pos_is_pos(n, 3);
        let i = n / 3;
        assert(3 * i <= n < 3 * i + 3);
        assert(i < st.verts.len()) by (nonlinear_arith)
            requires
                n == 3 * i + n % 3,
                0 <= n % 3 < 3,
                n < 3 * st.verts.len(),
        ;
        assert(st.verts[i] == (
            r1.vertices_view()[3 * i] as int,
            r1.vertices_view()[3 * i + 1] as int,
            r1.vertices_view()[3 * i + 2] as int,
        ));
        assert(st.verts[i] == (
            r2.vertices_view()[3 * i] as int,
            r2.vertices_view()[3 * i + 1] as int,
            r2.vertices_view()[3 * i + 2] as int,
        ));
        assert(n == 3 * i || n == 3 * i + 1 || n == 3 * i + 2);
    }
    assert(r1.vertices_view() =~= r2.vertices_view());
    assert forall|n: int| 0 <= n < r1.indices_view().len() implies r1.indices_view()[n]
        == r2.indices_view()[n] by {
        assert(r1.indices_view()[n] as int == st.tris[n]);
        assert(r2.indices_view()[n] as int == st.tris[n]);
    }
    assert(r1.indices_view() =~= r2.indices_view());
}

/// The set of lattice edges of the grid whose endpoint samples straddle the
/// threshold.
pub open spec fn crossed_edge_set(g: SampleGrid, th: int) -> Set<(int, int, int, int)> {
    Set::new(|k: (int, int, int, int)| valid_key(g.res(), k) && key_crossed(g, th, k))
}

/// Every valid lattice edge belongs to at least one cell of the grid.
proof fn lemma_valid_key_has_cell(res: int, k: (int, int, int, int))
    requires
        valid_key(res, k),
    ensures
        exists|x: int, y: int, z: int, e: int|
            0 <= x < res && 0 <= y < res && 0 <= z < res && 0 <= e < 12 && #[trigger] cell_edge_key(
                x,
                y,
                z,
                e,
            ) == k,
{
    let a = k.3;
    let x = if a != 0 && k.0 == res {
        k.0 - 1
    } else {
        k.0
    };
    let y = if a != 1 && k.1 == res {
        k.1 - 1
    } else {
        k.1
    };
    let z = if a != 2 && k.2 == res {
        k.2 - 1
    } else {
        k.2
    };
    let dx = k.0 - x;
    let dy = k.1 - y;
    let dz = k.2 - z;
    let e = if a == 0 {
        if dy == 0 && dz == 0 {
            0int
        } else if dy == 1 && dz == 0 {
            2int
        } else if dy == 0 && dz == 1 {
            4int
        } else {
            6int
        }
    } else if a == 1 {
        if dx == 0 && dz == 0 {
            3int
        } else if dx == 1 && dz == 0 {
            1int
        } else if dx == 0 && dz == 1 {
            7int
        } else {
            5int
        }
    } else {
        if dx == 0 && dy == 0 {
            8int
        } else if dx == 1 && dy == 0 {
            9int
        } else if dx == 0 && dy == 1 {
            11int
        } else {
            10int
        }
    };
    assert(0 <= x < res && 0 <= y < res && 0 <= z < res && 0 <= e < 12 && cell_edge_key(x, y, z, e)
        == k);
}

/// The welded vertex list enumerates the crossed-edge set without
/// repetition: the vertex count equals the number of distinct crossed
/// lattice edges.
pub proof fn lemma_vertex_count_is_crossed_edge_count(g: SampleGrid, th: int)
    requires
        g.wf(),
    ensures
        spec_extract(g, th).keys.to_set() == crossed_edge_set(g, th),
        spec_extract(g, th).verts.len() == crossed_edge_set(g, th).len(),
{
    lemma_edge_welding(g, th);
    let st = spec_extract(g, th);
    let cs = crossed_edge_set(g, th);
    assert forall|k: (int, int, int, int)| st.keys.to_set().contains(k) implies cs.contains(
        k,
    ) by {
        let i = choose|i: int| 0 <= i < st.keys.len() && st.keys[i] == k;
        assert(valid_key(g.res(), st.keys[i]) && key_crossed(g, th, st.keys[i]));
    }
    assert forall|k: (int, int, int, int)| cs.contains(k) implies st.keys.to_set().contains(
        k,
    ) by {
        lemma_valid_key_has_cell(g.res(), k);
        let (x, y, z, e) = choose|x: int, y: int, z: int, e: int|
            0 <= x < g.res() && 0 <= y < g.res() && 0 <= z < g.res() && 0 <= e < 12
                && #[trigger] cell_edge_key(x, y, z, e) == k;
        assert(edge_crossed(g, th, x, y, z, e));
        assert(has_key(st.keys, k));
        let i = crate::march::key_index(st.keys, k);
        assert(0 <= i < st.keys.len() && st.keys[i] == k);
        assert(st.keys.contains(k));
    }
    assert(st.keys.to_set() =~= cs);
    assert(st.keys.no_duplicates());
    st.keys.unique_seq_to_set();
}

} // verus!

