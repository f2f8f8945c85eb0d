//! The cell-marching core: classification of each grid cell against the
//! threshold, fixed-point interpolation of crossed cube edges, welding of
//! vertices on edges shared between cells, and triangle emission.
//!
//! The whole pass is specified by `spec_extract`, a fold over the cells in
//! marching order; the executable code is proved to produce exactly that
//! state.

use vstd::arithmetic::div_mod::{
    lemma_div_is_ordered,
    lemma_div_multiples_vanish,
    lemma_div_pos_is_pos,
    lemma_fundamental_div_mod_converse,
};
use vstd::prelude::*;

use crate::grid::{lattice_index, lemma_lattice_index_bounds, SampleGrid, FIELD_LIMIT, POS_SCALE};
use crate::tables::{corner_offset, edge_axis, edge_offset, tri_row, tri_table_row};

verus! {

/// Outcome of marching a sequence of cells: vertex positions, the canonical
/// key of the cube edge each vertex lies on, and triangle indices, all in
/// emission order.
pub ghost struct MarchState {
    pub verts: Seq<(int, int, int)>,
    pub keys: Seq<(int, int, int, int)>,
    pub tris: Seq<int>,
}

/// The state before any cell has been marched.
pub open spec fn empty_state() -> MarchState {
    MarchState { verts: Seq::empty(), keys: Seq::empty(), tris: Seq::empty() }
}

/// Whether corner `c` of cell `(x, y, z)` lies on or above the threshold.
pub open spec fn corner_above(g: SampleGrid, th: int, x: int, y: int, z: int, c: int) -> bool {
    let o = corner_offset(c);
    g.sample(x + o.0, y + o.1, z + o.2) >= th
}

/// Eight-bit classification of cell `(x, y, z)`: bit `c` is set exactly when
/// corner `c` lies on or above the threshold.
pub open spec fn cell_config(g: SampleGrid, th: int, x: int, y: int, z: int) -> int {
    (if corner_above(g, th, x, y, z, 0) { 1int } else { 0int }) + (if corner_above(
        g,
        th,
        x,
        y,
        z,
        1,
    ) { 2int } else { 0int }) + (if corner_above(g, th, x, y, z, 2) { 4int } else { 0int }) + (
    if corner_above(g, th, x, y, z, 3) { 8int } else { 0int }) + (if corner_above(
        g,
        th,
        x,
        y,
        z,
        4,
    ) { 16int } else { 0int }) + (if corner_above(g, th, x, y, z, 5) { 32int } else { 0int }) + (
    if corner_above(g, th, x, y, z, 6) { 64int } else { 0int }) + (if corner_above(
        g,
        th,
        x,
        y,
        z,
        7,
    ) { 128int } else { 0int })
}

/// Canonical identity of cube edge `e` of cell `(x, y, z)`: the lattice
/// coordinates of its minimum endpoint plus its axis.  All cells bordering
/// the same lattice edge produce the same key.
pub open spec fn cell_edge_key(x: int, y: int, z: int, e: int) -> (int, int, int, int) {
    let o = edge_offset(e);
    (x + o.0, y + o.1, z + o.2, edge_axis(e))
}

/// The high endpoint of an edge key: one lattice step along the key's axis.
pub open spec fn key_step(key: (int, int, int, int)) -> (int, int, int) {
    if key.3 == 0 {
        (key.0 + 1, key.1, key.2)
    } else if key.3 == 1 {
        (key.0, key.1 + 1, key.2)
    } else {
        (key.0, key.1, key.2 + 1)
    }
}

/// Sample at the low endpoint of an edge key.
pub open spec fn key_low_sample(g: SampleGrid, key: (int, int, int, int)) -> int {
    g.sample(key.0, key.1, key.2)
}

/// Sample at the high endpoint of an edge key.
pub open spec fn key_high_sample(g: SampleGrid, key: (int, int, int, int)) -> int {
    let s = key_step(key);
    g.sample(s.0, s.1, s.2)
}

/// Whether the two endpoint samples of the edge straddle the threshold.
pub open spec fn key_crossed(g: SampleGrid, th: int, key: (int, int, int, int)) -> bool {
    (key_low_sample(g, key) >= th) != (key_high_sample(g, key) >= th)
}

/// Whether cube edge `e` of cell `(x, y, z)` is crossed.
pub open spec fn edge_crossed(g: SampleGrid, th: int, x: int, y: int, z: int, e: int) -> bool {
    key_crossed(g, th, cell_edge_key(x, y, z, e))
}

/// A key that can arise from a cell of a grid with `res` cells per axis: both
/// endpoints lie on the lattice and the axis is one of the three directions.
pub open spec fn valid_key(res: int, key: (int, int, int, int)) -> bool {
    &&& 0 <= key.3 < 3
    &&& 0 <= key.0 <= res && 0 <= key.1 <= res && 0 <= key.2 <= res
    &&& (if key.3 == 0 {
        key.0 < res
    } else if key.3 == 1 {
        key.1 < res
    } else {
        key.2 < res
    })
}

/// Fixed-point parameter of the threshold crossing between samples `va` at
/// the low end and `vb` at the high end of an edge, measured from the low end
/// and scaled by `POS_SCALE`.
pub open spec fn interp_param(va: int, vb: int, th: int) -> int {
    if vb > va {
        (th - va) * POS_SCALE / (vb - va)
    } else {
        (va - th) * POS_SCALE / (va - vb)
    }
}

/// Fixed-point position of the crossing vertex on edge `key`.
pub open spec fn crossing_point(g: SampleGrid, th: int, key: (int, int, int, int)) -> (
    int,
    int,
    int,
) {
    let t = interp_param(key_low_sample(g, key), key_high_sample(g, key), th);
    (
        key.0 * POS_SCALE + if key.3 == 0 {
            t
        } else {
            0int
        },
        key.1 * POS_SCALE + if key.3 == 1 {
            t
        } else {
            0int
        },
        key.2 * POS_SCALE + if key.3 == 2 {
            t
        } else {
            0int
        },
    )
}

/// Whether `k` already occurs in the key list.
pub open spec fn has_key(keys: Seq<(int, int, int, int)>, k: (int, int, int, int)) -> bool {
    exists|i: int| 0 <= i < keys.len() && keys[i] == k
}

/// Index of `k` in the key list; unique when the list has no repeats.
pub open spec fn key_index(keys: Seq<(int, int, int, int)>, k: (int, int, int, int)) -> int {
    choose|i: int| 0 <= i < keys.len() && keys[i] == k
}

/// Marching one cube edge: a crossed edge yields the vertex index the cell
/// will refer to, reusing the vertex if the edge was already visited from a
/// neighbouring cell and appending a new one otherwise.
pub open spec fn march_edge(
    g: SampleGrid,
    th: int,
    x: int,
    y: int,
    z: int,
    e: int,
    st: MarchState,
) -> (MarchState, Option<int>) {
    if !edge_crossed(g, th, x, y, z, e) {
        (st, Option::<int>::None)
    } else {
        let k = cell_edge_key(x, y, z, e);
        if has_key(st.keys, k) {
            (st, Option::Some(key_index(st.keys, k)))
        } else {
            (
                MarchState {
                    verts: st.verts.push(crossing_point(g, th, k)),
                    keys: st.keys.push(k),
                    tris: st.tris,
                },
                Option::Some(st.keys.len() as int),
            )
        }
    }
}

/// Marching the first `e` cube edges of one cell, collecting the per-edge
/// vertex indices.
pub open spec fn march_edges(
    g: SampleGrid,
    th: int,
    x: int,
    y: int,
    z: int,
    st0: MarchState,
    e: nat,
) -> (MarchState, Seq<Option<int>>)
    decreases e,
{
    if e == 0 {
        (st0, Seq::<Option<int>>::empty())
    } else {
        let prev = march_edges(g, th, x, y, z, st0, (e - 1) as nat);
        let step = march_edge(g, th, x, y, z, e - 1, prev.0);
        (step.0, prev.1.push(step.1))
    }
}

/// Nibble `pos` of a packed triangulation row.
pub open spec fn nib_of(p: u64, pos: int) -> int {
    ((p >> ((4 * pos) as u64)) & 0xF) as int
}

/// Whether triple `j` of the row is emitted: its three entries must name
/// distinct edges of the cell that all carry a vertex.
pub open spec fn triple_emitted(p: u64, ev: Seq<Option<int>>, j: int) -> bool {
    let e0 = nib_of(p, 3 * j);
    let e1 = nib_of(p, 3 * j + 1);
    let e2 = nib_of(p, 3 * j + 2);
    &&& e0 < 12 && e1 < 12 && e2 < 12
    &&& e0 != e1 && e0 != e2 && e1 != e2
    &&& ev[e0] is Some && ev[e1] is Some && ev[e2] is Some
}

/// Index triple emitted for row triple `j`, in reversed entry order.
pub open spec fn emitted_triple(p: u64, ev: Seq<Option<int>>, j: int) -> Seq<int> {
    seq![ev[nib_of(p, 3 * j + 2)]->0, ev[nib_of(p, 3 * j + 1)]->0, ev[nib_of(p, 3 * j)]->0]
}

/// Emitting the first `j` triples of a packed triangulation row.
pub open spec fn march_tris(p: u64, ev: Seq<Option<int>>, tris0: Seq<int>, j: nat) -> Seq<int>
    decreases j,
{
    if j == 0 {
        tris0
    } else {
        let prev = march_tris(p, ev, tris0, (j - 1) as nat);
        if triple_emitted(p, ev, j - 1) {
            prev + emitted_triple(p, ev, j - 1)
        } else {
            prev
        }
    }
}

/// Marching one cell: classify it, march its twelve edges, then emit the
/// triangles of the classification's table row.  A cell entirely below or
/// entirely above the threshold contributes nothing.
pub open spec fn march_cell(
    g: SampleGrid,
    th: int,
    x: int,
    y: int,
    z: int,
    st: MarchState,
) -> MarchState {
    let cfg = cell_config(g, th, x, y, z);
    if cfg == 0 || cfg == 255 {
        st
    } else {
        let me = march_edges(g, th, x, y, z, st, 12);
        MarchState {
            verts: me.0.verts,
            keys: me.0.keys,
            tris: march_tris(tri_table_row(cfg), me.1, me.0.tris, 5),
        }
    }
}

/// Coordinates of cell number `n` in marching order (`z` varies fastest).
pub open spec fn cell_x(res: int, n: int) -> int {
    n / (res * res)
}

/// Coordinates of cell number `n` in marching order (`z` varies fastest).
pub open spec fn cell_y(res: int, n: int) -> int {
    (n % (res * res)) / res
}

/// Coordinates of cell number `n` in marching order (`z` varies fastest).
pub open spec fn cell_z(res: int, n: int) -> int {
    (n % (res * res)) % res
}

/// Marching the first `n` cells of the grid in order.
pub open spec fn march_cells(g: SampleGrid, th: int, st0: MarchState, n: nat) -> MarchState
    decreases n,
{
    if n == 0 {
        st0
    } else {
        let prev = march_cells(g, th, st0, (n - 1) as nat);
        march_cell(
            g,
            th,
            cell_x(g.res(), n - 1),
            cell_y(g.res(), n - 1),
            cell_z(g.res(), n - 1),
            prev,
        )
    }
}

/// The complete extraction for a grid and threshold.
pub open spec fn spec_extract(g: SampleGrid, th: int) -> MarchState {
    march_cells(g, th, empty_state(), (g.res() * g.res() * g.res()) as nat)
}

/// The three indices of triangle `m` are pairwise distinct.
pub open spec fn triple_distinct(tris: Seq<int>, m: int) -> bool {
    &&& tris[3 * m] != tris[3 * m + 1]
    &&& tris[3 * m] != tris[3 * m + 2]
    &&& tris[3 * m + 1] != tris[3 * m + 2]
}

/// Everything the marching pass guarantees of its accumulated state: one
/// position per key, keys valid, crossed and pairwise distinct, positions
/// determined by their key alone, and triangles in complete triples of
/// distinct in-range indices.
pub open spec fn state_wf(g: SampleGrid, th: int, st: MarchState) -> bool {
    &&& st.verts.len() == st.keys.len()
    &&& forall|i: int|
        0 <= i < st.keys.len() ==> valid_key(g.res(), #[trigger] st.keys[i]) && key_crossed(
            g,
            th,
            st.keys[i],
        ) && st.verts[i] == crossing_point(g, th, st.keys[i])
    &&& forall|i: int, j: int|
        0 <= i < j < st.keys.len() ==> #[trigger] st.keys[i] != #[trigger] st.keys[j]
    &&& st.tris.len() % 3 == 0
    &&& forall|i: int| 0 <= i < st.tris.len() ==> 0 <= #[trigger] st.tris[i] < st.verts.len()
    &&& forall|m: int| 0 <= m < st.tris.len() / 3 ==> #[trigger] triple_distinct(st.tris, m)
}

/// Executable fixed-point interpolation along one crossed edge, agreeing with
/// `interp_param` and always landing in `[0, POS_SCALE]`.
fn interp_crossing(va: i64, vb: i64, th: i64) -> (t: i64)
    requires
        -FIELD_LIMIT <= va <= FIELD_LIMIT,
        -FIELD_LIMIT <= vb <= FIELD_LIMIT,
        -FIELD_LIMIT <= th <= FIELD_LIMIT,
        (va >= th) != (vb >= th),
    ensures
        t == interp_param(va as int, vb as int, th as int),
        0 <= t <= POS_SCALE,
{
    let (num, den) = if vb > va {
        (th - va, vb - va)
    } else {
        (va - th, va - vb)
    };
    proof {
        lemma_div_pos_is_pos((num as int) * (POS_SCALE as int), den as int);
        lemma_div_is_ordered(
            (num as int) * (POS_SCALE as int),
            (den as int) * (POS_SCALE as int),
            den as int,
        );
        lemma_div_multiples_vanish(POS_SCALE as int, den as int);
    }
    ((num as u64) * (POS_SCALE as u64) / (den as u64)) as i64
}

/// Executable crossing vertex on the edge with key `(ki, kj, kk, axis)`,
/// agreeing with `crossing_point`.
fn crossing_vertex(g: &SampleGrid, th: i64, ki: usize, kj: usize, kk: usize, axis: usize) -> (r:
    (i64, i64, i64))
    requires
        g.wf(),
        -FIELD_LIMIT <= th <= FIELD_LIMIT,
        valid_key(g.res(), (ki as int, kj as int, kk as int, axis as int)),
        key_crossed(*g, th as int, (ki as int, kj as int, kk as int, axis as int)),
    ensures
        (r.0 as int, r.1 as int, r.2 as int) == crossing_point(
            *g,
            th as int,
            (ki as int, kj as int, kk as int, axis as int),
        ),
{
    proof {
        g.lemma_wf_bounds();
    }
    let va = g.value_at(ki, kj, kk);
    let vb = if axis == 0 {
        g.value_at(ki + 1, kj, kk)
    } else if axis == 1 {
        g.value_at(ki, kj + 1, kk)
    } else {
        g.value_at(ki, kj, kk + 1)
    };
    let t = interp_crossing(va, vb, th);
    (
        (ki as i64) * POS_SCALE + if axis == 0 {
            t
        } else {
            0
        },
        (kj as i64) * POS_SCALE + if axis == 1 {
            t
        } else {
            0
        },
        (kk as i64) * POS_SCALE + if axis == 2 {
            t
        } else {
            0
        },
    )
}

/// Dense slot of a valid edge key in the welding store: three slots per
/// lattice point, one per axis.
spec fn key_pack(res: int, key: (int, int, int, int)) -> int {
    lattice_index(res, key.0, key.1, key.2) * 3 + key.3
}

/// The slot of a valid key lies within the welding store.
proof fn lemma_key_pack_bounds(res: int, key: (int, int, int, int))
    requires
        valid_key(res, key),
    ensures
        0 <= key_pack(res, key) < 3 * ((res + 1) * (res + 1) * (res + 1)),
{
    lemma_lattice_index_bounds(res, key.0, key.1, key.2);
}

/// Distinct valid keys occupy distinct slots of the welding store.
proof fn lemma_key_pack_injective(res: int, k1: (int, int, int, int), k2: (int, int, int, int))
    requires
        valid_key(res, k1),
        valid_key(res, k2),
        key_pack(res, k1) == key_pack(res, k2),
    ensures
        k1 == k2,
{
    let l1 = lattice_index(res, k1.0, k1.1, k1.2);
    let l2 = lattice_index(res, k2.0, k2.1, k2.2);
    lemma_fundamental_div_mod_converse(key_pack(res, k1), 3, l1, k1.3);
    lemma_fundamental_div_mod_converse(key_pack(res, k2), 3, l2, k2.3);
    let q1 = k1.0 * (res + 1) + k1.1;
    let q2 = k2.0 * (res + 1) + k2.1;
    lemma_fundamental_div_mod_converse(l1, res + 1, q1, k1.2);
    lemma_fundamental_div_mod_converse(l2, res + 1, q2, k2.2);
    lemma_fundamental_div_mod_converse(q1, res + 1, k1.0, k1.1);
    lemma_fundamental_div_mod_converse(q2, res + 1, k2.0, k2.1);
}

/// Executable welding-store slot of a valid key, agreeing with `key_pack`.
fn pack_key(res: usize, ki: usize, kj: usize, kk: usize, axis: usize) -> (p: usize)
    requires
        res <= 512,
        valid_key(res as int, (ki as int, kj as int, kk as int, axis as int)),
    ensures
        p as int == key_pack(res as int, (ki as int, kj as int, kk as int, axis as int)),
{
    let side = res + 1;
    assert(ki * side <= 512 * 513 && ki * side + kj <= 513 * 513 && (ki * side + kj) * side <= 513
        * 513 * 513 && ((ki * side + kj) * side + kk) * 3 <= 3 * (513 * 513 * 513))
        by (nonlinear_arith)
        requires
            side <= 513,
            ki < side,
            kj < side,
            kk < side,
    ;
    ((ki * side + kj) * side + kk) * 3 + axis
}

/// Spec value of a per-edge vertex slot.
spec fn opt_index(r: Option<u32>) -> Option<int> {
    match r {
        Option::Some(v) => Option::Some(v as int),
        Option::None => Option::None,
    }
}

/// Working buffers of one marching pass: flat vertex positions, triangle
/// indices, the dense edge-to-vertex welding store (`u32::MAX` marking an
/// unused slot), the number of vertices so far, and the ghost list of edge
/// keys in emission order.
struct MarchBufs {
    res: usize,
    verts: Vec<i64>,
    tris: Vec<u32>,
    emap: Vec<u32>,
    count: u32,
    keys: Ghost<Seq<(int, int, int, int)>>,
}

impl MarchBufs {
    /// The mathematical state these buffers represent.
    spec fn view(&self) -> MarchState {
        MarchState {
            verts: Seq::new(
                self.keys@.len(),
                |i: int|
                    (
                        self.verts@[3 * i] as int,
                        self.verts@[3 * i + 1] as int,
                        self.verts@[3 * i + 2] as int,
                    ),
            ),
            keys: self.keys@,
            tris: self.tris@.map(|i: int, v: u32| v as int),
        }
    }

    /// Representation invariant tying the buffers to the state they stand
    /// for: counters agree, the welding store matches the key list exactly,
    /// and the represented state is well formed.
    spec fn wf(&self, g: SampleGrid, th: int) -> bool {
        &&& self.res as int == g.res()
        &&& state_wf(g, th, self.view())
        &&& self.verts@.len() == 3 * self.keys@.len()
        &&& self.count as int == self.keys@.len()
        &&& self.emap@.len() == 3 * ((g.res() + 1) * (g.res() + 1) * (g.res() + 1))
        &&& forall|i: int|
            0 <= i < self.keys@.len() ==> #[trigger] self.emap@[key_pack(g.res(), self.keys@[i])]
                == i as u32
        &&& forall|p: int|
            0 <= p < self.emap@.len() && #[trigger] self.emap@[p] != u32::MAX ==> {
                &&& (self.emap@[p] as int) < self.keys@.len()
                &&& key_pack(g.res(), self.keys@[self.emap@[p] as int]) == p
            }
    }

}

/// Marches cube edge `e` of cell `(x, y, z)`: decides whether the edge is
/// crossed, welds onto the vertex of an already visited shared edge, or
/// interpolates and appends a new vertex, exactly as `march_edge` describes.
fn process_edge(
    g: &SampleGrid,
    th: i64,
    x: usize,
    y: usize,
    z: usize,
    e: usize,
    bufs: &mut MarchBufs,
) -> (r: Option<u32>)
    requires
        g.wf(),
        -FIELD_LIMIT <= th <= FIELD_LIMIT,
        (x as int) < g.res(),
        (y as int) < g.res(),
        (z as int) < g.res(),
        e < 12,
        old(bufs).wf(*g, th as int),
        old(bufs).keys@.len() < 0x6000_0000,
    ensures
        final(bufs).wf(*g, th as int),
        final(bufs).res == old(bufs).res,
        (final(bufs).view(), opt_index(r)) == march_edge(
            *g,
            th as int,
            x as int,
            y as int,
            z as int,
            e as int,
            old(bufs).view(),
        ),
        final(bufs).keys@.len() <= old(bufs).keys@.len() + 1,
        final(bufs).tris@ == old(bufs).tris@,
{
    proof {
        g.lemma_wf_bounds();
    }
    let ghost key = cell_edge_key(x as int, y as int, z as int, e as int);
    let ghost st0 = old(bufs).view();
    let (ox, oy, oz, axis) = crate::tables::edge_shape(e);
    let ki = x + ox;
    let kj = y + oy;
    let kk = z + oz;
    proof {
        assert(key == (ki as int, kj as int, kk as int, axis as int));
        assert(valid_key(g.res(), key));
    }
    let va = g.value_at(ki, kj, kk);
    let vb = if axis == 0 {
        g.value_at(ki + 1, kj, kk)
    } else if axis == 1 {
        g.value_at(ki, kj + 1, kk)
    } else {
        g.value_at(ki, kj, kk + 1)
    };
    proof {
        assert(va as int == key_low_sample(*g, key));
        assert(vb as int == key_high_sample(*g, key));
    }
    if (va >= th) == (vb >= th) {
        proof {
            assert(!key_crossed(*g, th as int, key));
        }
        return Option::None;
    }
    let p = pack_key(bufs.res, ki, kj, kk, axis);
    proof {
        lemma_key_pack_bounds(g.res(), key);
    }
    let cur = bufs.emap[p];
    if cur != u32::MAX {
        proof {
            let i = cur as int;
            assert(i < bufs.keys@.len() && key_pack(g.res(), bufs.keys@[i]) == p as int);
            lemma_key_pack_injective(g.res(), bufs.keys@[i], key);
            assert(bufs.keys@[i] == key);
            assert(has_key(st0.keys, key));
            let ci = key_index(st0.keys, key);
            assert(0 <= ci < st0.keys.len() && st0.keys[ci] == key);
            assert(ci == i);
        }
        return Option::Some(cur);
    }
    proof {
        if has_key(st0.keys, key) {
            let i = key_index(st0.keys, key);
            assert(0 <= i < st0.keys.len() && st0.keys[i] == key);
            assert(bufs.emap@[key_pack(g.res(), bufs.keys@[i])] == i as u32);
            assert(false);
        }
    }
    let v = crossing_vertex(g, th, ki, kj, kk, axis);
    let idx = bufs.count;
    bufs.verts.push(v.0);
    bufs.verts.push(v.1);
    bufs.verts.push(v.2);
    bufs.emap.set(p, idx);
    bufs.count = idx + 1;
    proof {
        bufs.keys@ = bufs.keys@.push(key);
    }
    proof {
        let stn = bufs.view();
        let target = march_edge(
            *g,
            th as int,
            x as int,
            y as int,
            z as int,
            e as int,
            st0,
        ).0;
        assert(stn.keys =~= target.keys);
        assert forall|i: int| 0 <= i < stn.verts.len() implies stn.verts[i] == target.verts[i] by {
            if i < st0.keys.len() {
                assert(stn.verts[i] == st0.verts[i]);
            } else {
                assert(stn.verts[i] == crossing_point(*g, th as int, key));
            }
        }
        assert(stn.verts =~= target.verts);
        assert(stn.tris =~= target.tris);
        assert(stn =~= target);
        // welding store still matches the key list
        assert forall|i: int| 0 <= i < bufs.keys@.len() implies #[trigger] bufs.emap@[key_pack(
            g.res(),
            bufs.keys@[i],
        )] == i as u32 by {
            if i < st0.keys.len() {
                assert(bufs.keys@[i] == st0.keys[i]);
                assert(valid_key(g.res(), bufs.keys@[i]));
                lemma_key_pack_bounds(g.res(), bufs.keys@[i]);
                if key_pack(g.res(), bufs.keys@[i]) == p as int {
                    lemma_key_pack_injective(g.res(), bufs.keys@[i], key);
                    assert(st0.keys[i] == key);
                    assert(has_key(st0.keys, key));
                    assert(false);
                }
                assert(old(bufs).emap@[key_pack(g.res(), st0.keys[i])] == i as u32);
                assert(bufs.emap@[key_pack(g.res(), bufs.keys@[i])] == i as u32);
            } else {
                assert(i == st0.keys.len());
                assert(bufs.keys@[i] == key);
                assert(bufs.emap@[p as int] == idx);
            }
        }
        assert forall|q: int|
            0 <= q < bufs.emap@.len() && #[trigger] bufs.emap@[q] != u32::MAX implies {
            &&& (bufs.emap@[q] as int) < bufs.keys@.len()
            &&& key_pack(g.res(), bufs.keys@[bufs.emap@[q] as int]) == q
        } by {
            if q != p as int {
                assert(old(bufs).emap@[q] == bufs.emap@[q]);
            }
        }
        assert(state_wf(*g, th as int, bufs.view())) by {
            let stv = bufs.view();
            assert forall|i: int| 0 <= i < stv.keys.len() implies valid_key(
                g.res(),
                #[trigger] stv.keys[i],
            ) && key_crossed(*g, th as int, stv.keys[i]) && stv.verts[i] == crossing_point(
                *g,
                th as int,
                stv.keys[i],
            ) by {
                if i < st0.keys.len() {
                    assert(stv.keys[i] == st0.keys[i]);
                    assert(stv.verts[i] == st0.verts[i]);
                }
            }
            assert forall|i: int| 0 <= i < stv.tris.len() implies 0 <= #[trigger] stv.tris[i]
                < stv.verts.len() by {
                assert(stv.tris[i] == st0.tris[i]);
                assert(st0.tris[i] < st0.verts.len());
            }
            assert forall|m: int| 0 <= m < stv.tris.len() / 3 implies #[trigger] triple_distinct(
                stv.tris,
                m,
            ) by {
                assert(triple_distinct(st0.tris, m));
                assert(stv.tris =~= st0.tris);
            }
        }
    }
    Option::Some(idx)
}


/// Two distinct edges of the same cell have distinct canonical keys.
pub proof fn lemma_cell_edge_key_injective(x: int, y: int, z: int, e1: int, e2: int)
    requires
        0 <= e1 < 12,
        0 <= e2 < 12,
        cell_edge_key(x, y, z, e1) == cell_edge_key(x, y, z, e2),
    ensures
        e1 == e2,
{
    crate::tables::lemma_edge_identity_injective(e1, e2);
}

/// What marching the first `e` edges of a cell guarantees: the state only
/// grows (existing vertices, keys and triangles are untouched), at most one
/// key is added per edge, and each collected slot names the vertex of exactly
/// its edge's key, present exactly when the edge is crossed.
pub proof fn lemma_march_edges_slots(
    g: SampleGrid,
    th: int,
    x: int,
    y: int,
    z: int,
    st0: MarchState,
    e: nat,
)
    ensures
        ({
            let r = march_edges(g, th, x, y, z, st0, e);
            &&& r.1.len() == e
            &&& st0.keys.len() <= r.0.keys.len() <= st0.keys.len() + e
            &&& r.0.verts.len() - st0.verts.len() == r.0.keys.len() - st0.keys.len()
            &&& forall|i: int|
                0 <= i < st0.keys.len() ==> #[trigger] r.0.keys[i] == st0.keys[i]
            &&& forall|i: int|
                0 <= i < st0.verts.len() ==> #[trigger] r.0.verts[i] == st0.verts[i]
            &&& r.0.tris == st0.tris
            &&& forall|i: int|
                st0.keys.len() <= i < r.0.keys.len() ==> exists|m: int|
                    0 <= m < e && #[trigger] r.0.keys[i] == cell_edge_key(x, y, z, m)
            &&& forall|m: int|
                0 <= m < e ==> (#[trigger] r.1[m] is Some <==> edge_crossed(g, th, x, y, z, m))
            &&& forall|m: int|
                0 <= m < e && #[trigger] r.1[m] is Some ==> {
                    let i = r.1[m]->0;
                    &&& 0 <= i < r.0.keys.len()
                    &&& r.0.keys[i] == cell_edge_key(x, y, z, m)
                }
        }),
    decreases e,
{
    if e > 0 {
        lemma_march_edges_slots(g, th, x, y, z, st0, (e - 1) as nat);
        let prev = march_edges(g, th, x, y, z, st0, (e - 1) as nat);
        let step = march_edge(g, th, x, y, z, e - 1, prev.0);
        let r = march_edges(g, th, x, y, z, st0, e);
        assert(r.0 == step.0 && r.1 == prev.1.push(step.1));
        if edge_crossed(g, th, x, y, z, e - 1) {
            let k = cell_edge_key(x, y, z, e - 1);
            if has_key(prev.0.keys, k) {
                let i = key_index(prev.0.keys, k);
                assert(0 <= i < prev.0.keys.len() && prev.0.keys[i] == k);
            }
        }
    }
}

/// Marches one cell exactly as `march_cell` describes: classification, the
/// twelve edges, then the triangles of the table row.
fn process_cell(g: &SampleGrid, th: i64, x: usize, y: usize, z: usize, bufs: &mut MarchBufs)
    requires
        g.wf(),
        -FIELD_LIMIT <= th <= FIELD_LIMIT,
        (x as int) < g.res(),
        (y as int) < g.res(),
        (z as int) < g.res(),
        old(bufs).wf(*g, th as int),
        old(bufs).keys@.len() + 12 <= 0x6000_0000,
    ensures
        final(bufs).wf(*g, th as int),
        final(bufs).view() == march_cell(
            *g,
            th as int,
            x as int,
            y as int,
            z as int,
            old(bufs).view(),
        ),
        final(bufs).keys@.len() <= old(bufs).keys@.len() + 12,
{
    proof {
        g.lemma_wf_bounds();
    }
    let ghost st1 = bufs.view();
    let mut cfg: u16 = 0;
    if g.value_at(x, y, z) >= th {
        cfg += 1;
    }
    if g.value_at(x + 1, y, z) >= th {
        cfg += 2;
    }
    if g.value_at(x + 1, y + 1, z) >= th {
        cfg += 4;
    }
    if g.value_at(x, y + 1, z) >= th {
        cfg += 8;
    }
    if g.value_at(x, y, z + 1) >= th {
        cfg += 16;
    }
    if g.value_at(x + 1, y, z + 1) >= th {
        cfg += 32;
    }
    if g.value_at(x + 1, y + 1, z + 1) >= th {
        cfg += 64;
    }
    if g.value_at(x, y + 1, z + 1) >= th {
        cfg += 128;
    }
    proof {
        assert(cfg as int == cell_config(*g, th as int, x as int, y as int, z as int));
    }
    if cfg == 0 || cfg == 255 {
        return ;
    }
    let mut ev: Vec<Option<u32>> = Vec::new();
    let mut e: usize = 0;
    while e < 12
        invariant
            g.wf(),
            -FIELD_LIMIT <= th <= FIELD_LIMIT,
            (x as int) < g.res(),
            (y as int) < g.res(),
            (z as int) < g.res(),
            e <= 12,
            ev@.len() == e,
            bufs.wf(*g, th as int),
            st1.keys.len() + 12 <= 0x6000_0000,
            bufs.keys@.len() <= st1.keys.len() + e,
            bufs.view() == march_edges(*g, th as int, x as int, y as int, z as int, st1, e as nat).0,
            ev@.map(|i: int, o: Option<u32>| opt_index(o)) == march_edges(
                *g,
                th as int,
                x as int,
                y as int,
                z as int,
                st1,
                e as nat,
            ).1,
        decreases 12 - e,
    {
        let ghost evm_before = ev@.map(|i: int, o: Option<u32>| opt_index(o));
        let r = process_edge(g, th, x, y, z, e, bufs);
        ev.push(r);
        e += 1;
        proof {
            let target = march_edges(*g, th as int, x as int, y as int, z as int, st1, e as nat);
            assert(ev@.map(|i: int, o: Option<u32>| opt_index(o)) =~= evm_before.push(opt_index(r)));
            assert(ev@.map(|i: int, o: Option<u32>| opt_index(o)) =~= target.1);
        }
    }
    let ghost me = march_edges(*g, th as int, x as int, y as int, z as int, st1, 12);
    let ghost evm = ev@.map(|i: int, o: Option<u32>| opt_index(o));
    proof {
        lemma_march_edges_slots(
            *g,
            th as int,
            x as int,
            y as int,
            z as int,
            st1,
            12,
        );
    }
    let packed = tri_row(cfg as u8);
    let ghost st2 = bufs.view();
    let mut j: usize = 0;
    while j < 5
        invariant
            j <= 5,
            ev@.len() == 12,
            evm == ev@.map(|i: int, o: Option<u32>| opt_index(o)),
            evm == me.1,
            me.0 == st2,
            state_wf(*g, th as int, st2),
            packed == tri_table_row(
                cell_config(*g, th as int, x as int, y as int, z as int),
            ),
            g.wf(),
            -FIELD_LIMIT <= th <= FIELD_LIMIT,
            (x as int) < g.res(),
            (y as int) < g.res(),
            (z as int) < g.res(),
            bufs.wf(*g, th as int),
            bufs.keys@ == st2.keys,
            bufs.view().verts == st2.verts,
            bufs.view().tris == march_tris(packed, evm, st2.tris, j as nat),
            forall|m: int|
                0 <= m < 12 && #[trigger] evm[m] is Some ==> {
                    let i = evm[m]->0;
                    &&& 0 <= i < st2.keys.len()
                    &&& st2.keys[i] == cell_edge_key(x as int, y as int, z as int, m)
                },
        decreases 5 - j,
    {
        let sh0: u64 = (12 * j) as u64;
        let m0: u64 = (packed >> sh0) & 0xF;
        let m1: u64 = (packed >> (sh0 + 4)) & 0xF;
        let m2: u64 = (packed >> (sh0 + 8)) & 0xF;
        proof {
            assert((packed >> sh0) & 0xF < 16 && (packed >> (sh0 + 4)) & 0xF < 16 && (packed >> (
            sh0 + 8)) & 0xF < 16) by (bit_vector);
        }
        let n0 = m0 as usize;
        let n1 = m1 as usize;
        let n2 = m2 as usize;
        proof {
            assert(n0 as int == nib_of(packed, 3 * (j as int)));
            assert(n1 as int == nib_of(packed, 3 * (j as int) + 1));
            assert(n2 as int == nib_of(packed, 3 * (j as int) + 2));
        }
        let ghost tris_before = bufs.view().tris;
        if n0 < 12 && n1 < 12 && n2 < 12 && n0 != n1 && n0 != n2 && n1 != n2 {
            let s0 = ev[n0];
            let s1 = ev[n1];
            let s2 = ev[n2];
            if s0.is_some() && s1.is_some() && s2.is_some() {
                let a = s0.unwrap();
                let b = s1.unwrap();
                let c = s2.unwrap();
                proof {
                    assert(evm[n0 as int] == opt_index(s0));
                    assert(evm[n1 as int] == opt_index(s1));
                    assert(evm[n2 as int] == opt_index(s2));
                    assert(triple_emitted(packed, evm, j as int));
                    let ka = st2.keys[a as int];
                    let kb = st2.keys[b as int];
                    let kc = st2.keys[c as int];
                    if a == b {
                        lemma_cell_edge_key_injective(
                            x as int,
                            y as int,
                            z as int,
                            n0 as int,
                            n1 as int,
                        );
                    }
                    if a == c {
                        lemma_cell_edge_key_injective(
                            x as int,
                            y as int,
                            z as int,
                            n0 as int,
                            n2 as int,
                        );
                    }
                    if b == c {
                        lemma_cell_edge_key_injective(
                            x as int,
                            y as int,
                            z as int,
                            n1 as int,
                            n2 as int,
                        );
                    }
                    assert(a != b && a != c && b != c);
                }
                bufs.tris.push(c);
                bufs.tris.push(b);
                bufs.tris.push(a);
                proof {
                    let stv = bufs.view();
                    assert(stv.tris =~= tris_before + emitted_triple(packed, evm, j as int));
                    assert(stv.keys == st2.keys);
                    assert(stv.verts =~= st2.verts) by {
                        assert(stv.verts.len() == st2.verts.len());
                        assert forall|i: int| 0 <= i < stv.verts.len() implies stv.verts[i]
                            == st2.verts[i] by {}
                    }
                    let n = tris_before.len();
                    assert(state_wf(*g, th as int, stv)) by {
                        assert(stv.tris.len() == n + 3 && n % 3 == 0);
                        assert forall|i: int| 0 <= i < stv.tris.len() implies 0 <= #[trigger] stv
                            .tris[i] < stv.verts.len() by {
                            if i < n {
                                assert(stv.tris[i] == tris_before[i]);
                            }
                        }
                        assert forall|m: int| 0 <= m < stv.tris.len() / 3 implies
                            #[trigger] triple_distinct(stv.tris, m) by {
                            if m < n / 3 {
                                assert(triple_distinct(tris_before, m));
                                assert(stv.tris[3 * m] == tris_before[3 * m]);
                                assert(stv.tris[3 * m + 1] == tris_before[3 * m + 1]);
                                assert(stv.tris[3 * m + 2] == tris_before[3 * m + 2]);
                            } else {
                                assert(m == n / 3);
                                assert(stv.tris[3 * m] == c as int);
                                assert(stv.tris[3 * m + 1] == b as int);
                                assert(stv.tris[3 * m + 2] == a as int);
                            }
                        }
                    }
                }
            } else {
                proof {
                    assert(!triple_emitted(packed, evm, j as int));
                }
            }
        } else {
            proof {
                assert(!triple_emitted(packed, evm, j as int));
            }
        }
        j += 1;
        proof {
            assert(bufs.view().tris =~= march_tris(packed, evm, st2.tris, j as nat));
        }
    }
    proof {
        let target = march_cell(*g, th as int, x as int, y as int, z as int, st1);
        assert(bufs.view() =~= target);
    }
}


/// Cell number `(x * res + y) * res + z` unflattens to cell `(x, y, z)`.
pub proof fn lemma_cell_coords(res: int, x: int, y: int, z: int)
    requires
        0 <= x < res,
        0 <= y < res,
        0 <= z < res,
    ensures
        cell_x(res, (x * res + y) * res + z) == x,
        cell_y(res, (x * res + y) * res + z) == y,
        cell_z(res, (x * res + y) * res + z) == z,
{
    let n = (x * res + y) * res + z;
    assert(n == x * (res * res) + (y * res + z) && 0 <= y * res + z < res * res)
        by (nonlinear_arith)
        requires
            0 <= x < res,
            0 <= y < res,
            0 <= z < res,
            n == (x * res + y) * res + z,
    ;
    lemma_fundamental_div_mod_converse(n, res * res, x, y * res + z);
    lemma_fundamental_div_mod_converse(y * res + z, res, y, z);
}

/// The extracted mesh: flat fixed-point vertex positions, three per vertex,
/// and triangle indices, three per triangle, each triple in fixed winding
/// order.
pub struct GridData {
    vertices: Vec<i64>,
    indices: Vec<u32>,
}

impl GridData {
    /// The flat vertex-position buffer.
    pub closed spec fn vertices_view(&self) -> Seq<i64> {
        self.vertices@
    }

    /// The triangle-index buffer.
    pub closed spec fn indices_view(&self) -> Seq<u32> {
        self.indices@
    }

    /// Number of vertices held by the position buffer.
    pub open spec fn vertex_count(&self) -> int {
        self.vertices_view().len() as int / 3
    }

    /// A copy of the flat vertex-position buffer.
    pub fn vertices(&self) -> (r: Vec<i64>)
        ensures
            r@ == self.vertices_view(),
    {
        self.vertices.clone()
    }

    /// A copy of the triangle-index buffer.
    pub fn indices(&self) -> (r: Vec<u32>)
        ensures
            r@ == self.indices_view(),
    {
        self.indices.clone()
    }
}

/// Whether mesh buffers `m` hold exactly the vertices and triangles of
/// marching state `st`.
pub open spec fn mesh_matches_state(m: GridData, st: MarchState) -> bool {
    &&& m.vertices_view().len() == 3 * st.verts.len()
    &&& forall|i: int|
        0 <= i < st.verts.len() ==> #[trigger] st.verts[i] == (
            m.vertices_view()[3 * i] as int,
            m.vertices_view()[3 * i + 1] as int,
            m.vertices_view()[3 * i + 2] as int,
        )
    &&& m.indices_view().len() == st.tris.len()
    &&& forall|i: int|
        0 <= i < st.tris.len() ==> #[trigger] m.indices_view()[i] as int == st.tris[i]
}

/// Whether `m` is the extraction the grid and threshold determine.
pub open spec fn is_extraction_of(m: GridData, g: SampleGrid, th: int) -> bool {
    mesh_matches_state(m, spec_extract(g, th))
}

/// Runs the marching-cubes pass over a sampled grid: every cell is
/// classified, crossed edges are interpolated once each thanks to welding,
/// and triangles are emitted per the lookup table.  The resulting buffers are
/// a function of the grid and threshold alone, the index buffer holds whole
/// triangles, and every triangle references three distinct existing vertices.
pub fn marching_cubes(g: &SampleGrid, threshold: i64) -> (r: GridData)
    requires
        g.wf(),
        -FIELD_LIMIT <= threshold <= FIELD_LIMIT,
    ensures
        is_extraction_of(r, *g, threshold as int),
        r.vertices_view().len() % 3 == 0,
        r.indices_view().len() % 3 == 0,
        forall|i: int|
            0 <= i < r.indices_view().len() ==> (#[trigger] r.indices_view()[i] as int)
                < r.vertex_count(),
        forall|m: int|
            0 <= m < r.indices_view().len() / 3 ==> {
                &&& #[trigger] r.indices_view()[3 * m] != r.indices_view()[3 * m + 1]
                &&& r.indices_view()[3 * m] != r.indices_view()[3 * m + 2]
                &&& r.indices_view()[3 * m + 1] != r.indices_view()[3 * m + 2]
            },
{
    proof {
        g.lemma_wf_bounds();
    }
    let ghost th = threshold as int;
    let res = g.resolution();
    let side = res + 1;
    assert(side * side <= 513 * 513 && 3 * (side * side * side) <= 3 * (513 * 513 * 513))
        by (nonlinear_arith)
        requires
            side <= 513,
    ;
    let cap = 3 * ((side * side) * side);
    let mut emap: Vec<u32> = Vec::new();
    let mut n: usize = 0;
    while n < cap
        invariant
            n <= cap,
            emap@.len() == n,
            forall|q: int| 0 <= q < n ==> emap@[q] == u32::MAX,
        decreases cap - n,
    {
        emap.push(u32::MAX);
        n += 1;
    }
    let mut bufs = MarchBufs {
        res,
        verts: Vec::new(),
        tris: Vec::new(),
        emap,
        count: 0,
        keys: Ghost(Seq::empty()),
    };
    proof {
        assert(bufs.view().verts =~= empty_state().verts);
        assert(bufs.view().tris =~= empty_state().tris);
        assert(bufs.view() =~= empty_state());
        assert(bufs.wf(*g, th));
    }
    let mut x: usize = 0;
    while x < res
        invariant
            g.wf(),
            -FIELD_LIMIT <= threshold <= FIELD_LIMIT,
            th == threshold as int,
            x <= res,
            res as int == g.res(),
            res <= 512,
            bufs.wf(*g, th),
            bufs.res == res,
            bufs.view() == march_cells(*g, th, empty_state(), ((x * res) * res) as nat),
            bufs.keys@.len() <= 12 * ((x * res) * res),
            (x * res) * res <= res * (res * res),
        decreases res - x,
    {
        assert((x * res) * res <= 512 * (512 * 512) && ((x + 1) * res) * res <= res * (res * res)
            && x * res <= res * res) by (nonlinear_arith)
            requires
                x < res,
                res <= 512,
        ;
        let mut y: usize = 0;
        while y < res
            invariant
                g.wf(),
                -FIELD_LIMIT <= threshold <= FIELD_LIMIT,
                th == threshold as int,
                x < res,
                y <= res,
                res as int == g.res(),
                res <= 512,
                bufs.wf(*g, th),
                bufs.res == res,
                bufs.view() == march_cells(*g, th, empty_state(), (x * res + y) as nat * res as nat),
                bufs.keys@.len() <= 12 * ((x * res + y) * res),
                x * res + y <= res * res,
                (x * res + y) * res <= res * (res * res),
            decreases res - y,
        {
            assert(x * res + y < res * res && x * res + (y + 1) <= res * res && (x * res + y) * res
                + res <= res * (res * res) && (x * res + (y + 1)) * res == (x * res + y) * res
                + res) by (nonlinear_arith)
                requires
                    x < res,
                    y < res,
                    res <= 512,
            ;
            let mut z: usize = 0;
            while z < res
                invariant
                    g.wf(),
                    -FIELD_LIMIT <= threshold <= FIELD_LIMIT,
                    th == threshold as int,
                    x < res,
                    y < res,
                    z <= res,
                    res as int == g.res(),
                    res <= 512,
                    bufs.wf(*g, th),
                    bufs.res == res,
                    bufs.view() == march_cells(
                        *g,
                        th,
                        empty_state(),
                        ((x * res + y) * res + z) as nat,
                    ),
                    bufs.keys@.len() <= 12 * ((x * res + y) * res + z),
                    (x * res + y) * res + res <= res * (res * res),
                decreases res - z,
            {
                let ghost ncell = ((x * res + y) * res + z) as int;
                proof {
                    assert(ncell + 12 * ncell <= 13 * (res * (res * res)));
                    assert(12 * ncell + 12 <= 12 * (res * (res * res))) by (nonlinear_arith)
                        requires
                            ncell < res * (res * res),
                    ;
                    assert(12 * (res * (res * res)) <= 0x6000_0000) by (nonlinear_arith)
                        requires
                            res <= 512,
                    ;
                    lemma_cell_coords(res as int, x as int, y as int, z as int);
                }
                process_cell(g, threshold, x, y, z, &mut bufs);
                z += 1;
            }
            y += 1;
        }
        x += 1;
        proof {
            assert(((x * res) * res) == (((x - 1) * res + res) * res)) by (nonlinear_arith)
                requires
                    1 <= x,
            ;
        }
    }
    proof {
        assert((res * res) * res == res * (res * res)) by (nonlinear_arith);
        assert(bufs.view() == spec_extract(*g, th));
    }
    let r = GridData { vertices: bufs.verts, indices: bufs.tris };
    proof {
        let st = spec_extract(*g, th);
        assert(mesh_matches_state(r, st)) by {
            assert forall|i: int| 0 <= i < st.tris.len() implies #[trigger] r.indices_view()[i]
                as int == st.tris[i] by {}
        }
        assert(r.vertices_view().len() % 3 == 0);
        vstd::arithmetic::div_mod::lemma_div_multiples_vanish(st.verts.len() as int, 3);
        assert(r.vertex_count() == st.verts.len());
        assert forall|m: int| 0 <= m < r.indices_view().len() / 3 implies {
            &&& #[trigger] r.indices_view()[3 * m] != r.indices_view()[3 * m + 1]
            &&& r.indices_view()[3 * m] != r.indices_view()[3 * m + 2]
            &&& r.indices_view()[3 * m + 1] != r.indices_view()[3 * m + 2]
        } by {
            assert(triple_distinct(st.tris, m));
            assert(r.indices_view()[3 * m] as int == st.tris[3 * m]);
            assert(r.indices_view()[3 * m + 1] as int == st.tris[3 * m + 1]);
            assert(r.indices_view()[3 * m + 2] as int == st.tris[3 * m + 2]);
        }
    }
    r
}


} // verus!
