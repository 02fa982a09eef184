//! A UV sphere: the tessellation of the unit sphere by `sub_u` longitude
//! steps and `sub_v` colatitude steps, produced both as a lazy stream of
//! polygons and as a deduplicated shared-vertex / indexed-polygon table.
//!
//! Every vertex this module hands out is a grid point `(a, b)`: longitude
//! step `a` out of `sub_u` and colatitude step `b` out of `sub_v`. The
//! position such a point names on the unit sphere is
//! `(cos(2πa/sub_u)·sin(πb/sub_v), sin(2πa/sub_u)·sin(πb/sub_v), cos(πb/sub_v))`;
//! computing it is floating-point work left to the consumer. Two grid points
//! name the same position exactly when [`same_position`] holds of them: they
//! share a row, and the row is a pole row (where the longitude angle is
//! irrelevant) or their longitude steps agree modulo `sub_u` (the angles then
//! differ by whole turns).

use vstd::prelude::*;

verus! {

use crate::poly::{EmitVertices, MapVertex, Polygon, PolygonSource, Quad, Triangle};

/// A vertex of the sphere's parameter grid: `(longitude step, colatitude step)`.
pub type GridVertex = (usize, usize);

/// The polygon the streaming generator yields at grid cell `(u, v)`: row 0
/// collapses the degenerate top edge to a triangle, the last row collapses
/// the bottom edge, and every interior row yields a full quad. The corners
/// are `x = (u, v)`, `y = (u, v+1)`, `z = (u+1, v+1)`, `w = (u+1, v)`.
pub open spec fn sphere_streamed_polygon(sub_v: usize, u: usize, v: usize) -> Polygon<GridVertex> {
    let x = (u, v);
    let y = (u, (v + 1) as usize);
    let z = ((u + 1) as usize, (v + 1) as usize);
    let w = ((u + 1) as usize, v);
    if v == 0 {
        Polygon::PolyTri(Triangle { x, y, z })
    } else if v == sub_v - 1 {
        Polygon::PolyTri(Triangle { x: z, y: w, z: x })
    } else {
        Polygon::PolyQuad(Quad { x, y, z, w })
    }
}

/// Everything a full streaming run of the generator yields, in order:
/// `sub_u · sub_v` polygons, row by row from the north pole, with the
/// longitude step increasing inside each row.
pub open spec fn sphere_polygons(sub_u: usize, sub_v: usize) -> Seq<Polygon<GridVertex>> {
    Seq::new(
        (sub_u * sub_v) as nat,
        |i: int|
            sphere_streamed_polygon(
                sub_v,
                (i % (sub_u as int)) as usize,
                (i / (sub_u as int)) as usize,
            ),
    )
}

/// The size of the deduplicated shared-vertex table: one entry per interior
/// grid point (`sub_v - 1` rows of `sub_u` points), plus a single entry for
/// each pole.
pub open spec fn spec_shared_vertex_count(sub_u: usize, sub_v: usize) -> int {
    (sub_v - 1) * sub_u + 2
}

/// The grid point stored at `idx` of the shared-vertex table: entry 0 is
/// the north pole `(0, 0)`, the last entry is the south pole `(0, sub_v)`,
/// and the entries between walk the interior rows `b = 1 .. sub_v`, `sub_u`
/// points each.
pub open spec fn spec_shared_vertex(sub_u: usize, sub_v: usize, idx: usize) -> GridVertex {
    if idx == 0 {
        (0usize, 0usize)
    } else if idx == spec_shared_vertex_count(sub_u, sub_v) - 1 {
        (0usize, sub_v)
    } else {
        (
            (((idx - 1) as int) % (sub_u as int)) as usize,
            ((((idx - 1) as int) / (sub_u as int)) + 1) as usize,
        )
    }
}

/// The shared-vertex table index that grid point `(a, b)` collapses to:
/// every point of row 0 maps to the north pole entry, every point of row
/// `sub_v` to the south pole entry, and an interior point to its row entry
/// with the longitude step wrapped modulo `sub_u` (stitching the seam).
pub open spec fn spec_corner_index(sub_u: usize, sub_v: usize, a: usize, b: usize) -> int {
    if b == 0 {
        0
    } else if b == sub_v {
        (sub_v - 1) * sub_u + 1
    } else {
        (b - 1) * sub_u + (a as int) % (sub_u as int) + 1
    }
}

/// The indexed form of polygon `idx`: the same grid cell and winding as the
/// streamed polygon at `idx`, with every corner replaced by its
/// shared-vertex table index.
pub open spec fn sphere_indexed_polygon(sub_u: usize, sub_v: usize, idx: usize) -> Polygon<
    usize,
> {
    let u = ((idx as int) % (sub_u as int)) as usize;
    let v = ((idx as int) / (sub_u as int)) as usize;
    let i00 = spec_corner_index(sub_u, sub_v, u, v) as usize;
    let i01 = spec_corner_index(sub_u, sub_v, u, (v + 1) as usize) as usize;
    let i11 = spec_corner_index(sub_u, sub_v, (u + 1) as usize, (v + 1) as usize) as usize;
    let i10 = spec_corner_index(sub_u, sub_v, (u + 1) as usize, v) as usize;
    if v == 0 {
        Polygon::PolyTri(Triangle { x: i00, y: i01, z: i11 })
    } else if v == sub_v - 1 {
        Polygon::PolyTri(Triangle { x: i11, y: i10, z: i00 })
    } else {
        Polygon::PolyQuad(Quad { x: i00, y: i01, z: i11, w: i10 })
    }
}

/// Whether two grid points name the same position on the unit sphere: the
/// same row, and either a pole row (both poles collapse all longitudes to
/// one point) or longitude steps equal modulo `sub_u` (angles that differ
/// by whole turns).
pub open spec fn same_position(
    sub_u: usize,
    sub_v: usize,
    p: GridVertex,
    q: GridVertex,
) -> bool {
    p.1 == q.1 && (p.1 == 0 || p.1 == sub_v || (p.0 as int) % (sub_u as int) == (q.0 as int) % (
    sub_u as int))
}

/// A sphere with radius 1 centered at the origin, tessellated by `sub_u`
/// points around the equator and `sub_v` points from pole to pole. The
/// generator streams one polygon per call to `next`; the shared-vertex and
/// indexed-polygon tables describe the same surface in deduplicated,
/// random-access form, independent of the streaming cursor.
pub struct SphereUV {
    u: usize,
    v: usize,
    sub_u: usize,
    sub_v: usize,
}

impl SphereUV {
    /// Every generator keeps its cursor inside the parameter rectangle, its
    /// resolution positive, and its table sizes representable; once the
    /// longitude cursor sits at the wrap point there is a row left to wrap
    /// into.
    #[verifier::type_invariant]
    spec fn wf(self) -> bool {
        &&& 1 <= self.sub_u
        &&& 1 <= self.sub_v
        &&& self.u <= self.sub_u
        &&& self.v <= self.sub_v
        &&& (self.u == self.sub_u ==> self.v < self.sub_v)
        &&& self.sub_u * self.sub_v + 2 <= usize::MAX
    }

    /// The number of points across the equator, fixed at construction.
    pub closed spec fn sub_u(self) -> usize {
        self.sub_u
    }

    /// The number of points from pole to pole, fixed at construction.
    pub closed spec fn sub_v(self) -> usize {
        self.sub_v
    }

    /// Create a new sphere generator. `u` is the number of points across
    /// the equator; `v` is the number of points from pole to pole. A
    /// degenerate resolution (a zero count) is left out, as is one whose
    /// vertex table would not be addressable.
    pub fn new(u: usize, v: usize) -> (r: SphereUV)
        requires
            1 <= u,
            1 <= v,
            u * v + 2 <= usize::MAX,
        ensures
            r.sub_u() == u,
            r.sub_v() == v,
            r.remaining() == sphere_polygons(u, v),
            r.remaining().len() == u * v,
    {
        let r = SphereUV { u: 0, v: 0, sub_u: u, sub_v: v };
        proof {
            assert(r.remaining() =~= sphere_polygons(u, v));
        }
        r
    }
}

impl SphereUV {
    /// Produce the next polygon of the streaming decomposition, or `None`
    /// once every cell has been produced; an exhausted generator stays
    /// exhausted. Row 0 yields triangles fanned from the north pole, the
    /// last row triangles fanned from the south pole, interior rows quads.
    pub fn next(&mut self) -> (r: Option<Polygon<GridVertex>>)
        ensures
            final(self).sub_u() == old(self).sub_u(),
            final(self).sub_v() == old(self).sub_v(),
            match r {
                Some(p) => old(self).remaining().len() > 0 && p == old(self).remaining()[0]
                    && final(self).remaining() == old(self).remaining().drop_first(),
                None => old(self).remaining().len() == 0 && final(self).remaining() == old(
                    self,
                ).remaining(),
            },
    {
        proof {
            use_type_invariant(&*self);
        }
        if self.u == self.sub_u {
            self.u = 0;
            self.v = self.v + 1;
            proof {
                assert(self.remaining() =~= old(self).remaining());
            }
        }
        if self.v >= self.sub_v {
            proof {
                let su = self.sub_u as int;
                let sv = self.sub_v as int;
                vstd::arithmetic::mul::lemma_mul_inequality(sv, self.v as int, su);
                assert(sv * su == su * sv) by (nonlinear_arith);
                if self.v * self.sub_u + self.u <= su * sv {
                    assert(self.remaining() =~= Seq::<Polygon<GridVertex>>::empty());
                }
            }
            return None;
        }
        let x = (self.u, self.v);
        let y = (self.u, self.v + 1);
        let z = (self.u + 1, self.v + 1);
        let w = (self.u + 1, self.v);
        let u = self.u;
        let v = self.v;
        let ghost mid = *self;
        self.u = self.u + 1;
        let p = if v == 0 {
            Polygon::PolyTri(Triangle::new(x, y, z))
        } else if v == self.sub_v - 1 {
            Polygon::PolyTri(Triangle::new(z, w, x))
        } else {
            Polygon::PolyQuad(Quad::new(x, y, z, w))
        };
        proof {
            let su = self.sub_u as int;
            let sv = self.sub_v as int;
            let k = v * su + u;
            vstd::arithmetic::mul::lemma_mul_inequality(v + 1, sv, su);
            assert((v + 1) * su == v * su + su) by (nonlinear_arith);
            assert(k < su * sv) by {
                assert(sv * su == su * sv) by (nonlinear_arith);
            }
            vstd::arithmetic::div_mod::lemma_fundamental_div_mod_converse(k, su, v as int, u as int);
            assert(mid.remaining() == sphere_polygons(self.sub_u, self.sub_v).skip(k));
            assert(sphere_polygons(self.sub_u, self.sub_v)[k] == sphere_streamed_polygon(
                self.sub_v,
                u,
                v,
            ));
            assert(p == mid.remaining()[0]);
            assert(self.remaining() =~= mid.remaining().drop_first());
        }
        Some(p)
    }
}

impl SphereUV {
    /// The number of entries in the shared-vertex table: one per interior
    /// grid point plus a single entry for each pole.
    pub fn shared_vertex_count(&self) -> (r: usize)
        ensures
            r == spec_shared_vertex_count(self.sub_u(), self.sub_v()),
    {
        proof {
            use_type_invariant(self);
            assert((self.sub_v - 1) * self.sub_u == self.sub_u * self.sub_v - self.sub_u)
                by (nonlinear_arith);
        }
        (self.sub_v - 1) * self.sub_u + 2
    }

    /// Look up an entry of the shared-vertex table, as the grid point whose
    /// position it stores: entry 0 is the north pole, the last entry the
    /// south pole, and the entries between walk the interior rows in order.
    pub fn shared_vertex(&self, idx: usize) -> (r: GridVertex)
        requires
            idx < spec_shared_vertex_count(self.sub_u(), self.sub_v()),
        ensures
            r == spec_shared_vertex(self.sub_u(), self.sub_v(), idx),
    {
        proof {
            use_type_invariant(self);
        }
        if idx == 0 {
            (0, 0)
        } else if idx == self.shared_vertex_count() - 1 {
            (0, self.sub_v)
        } else {
            // the poles hold single entries, so the interior rows start at
            // entry 1
            let idx = idx - 1;
            let u = idx % self.sub_u;
            let v = idx / self.sub_u;
            proof {
                let su = self.sub_u as int;
                let sv = self.sub_v as int;
                let i = idx as int;
                vstd::arithmetic::div_mod::lemma_mod_bound(i, su);
                vstd::arithmetic::div_mod::lemma_div_pos_is_pos(i, su);
                assert(i < (sv - 1) * su);
                assert((sv - 1) * su - 1 == (sv - 2) * su + (su - 1)) by (nonlinear_arith);
                vstd::arithmetic::div_mod::lemma_fundamental_div_mod_converse(
                    (sv - 1) * su - 1,
                    su,
                    sv - 2,
                    su - 1,
                );
                vstd::arithmetic::div_mod::lemma_div_is_ordered(i, (sv - 1) * su - 1, su);
            }
            (u, v + 1)
        }
    }

    /// The number of polygons in the indexed representation; the streaming
    /// form yields exactly as many over a full run.
    pub fn indexed_polygon_count(&self) -> (r: usize)
        ensures
            r == self.sub_u() * self.sub_v(),
    {
        proof {
            use_type_invariant(self);
            assert(self.sub_v * self.sub_u == self.sub_u * self.sub_v) by (nonlinear_arith);
        }
        self.sub_v * self.sub_u
    }

    /// The shared-vertex table index that grid corner `(a, b)` collapses
    /// to. This is the corner-index function of the indexed form; see
    /// [`spec_corner_index`].
    fn corner_index(&self, a: usize, b: usize) -> (r: usize)
        requires
            b <= self.sub_v(),
        ensures
            r == spec_corner_index(self.sub_u(), self.sub_v(), a, b),
            r < spec_shared_vertex_count(self.sub_u(), self.sub_v()),
    {
        proof {
            use_type_invariant(self);
            lemma_corner_index_bounds(self.sub_u, self.sub_v, a, b);
        }
        if b == 0 {
            0
        } else if self.sub_v == b {
            (self.sub_v - 1) * self.sub_u + 1
        } else {
            (b - 1) * self.sub_u + (a % self.sub_u) + 1
        }
    }

    /// Build polygon `idx` of the indexed form: the same grid cell, shape
    /// and winding as the streamed polygon at `idx`, each corner replaced
    /// by its shared-vertex table index.
    pub fn indexed_polygon(&self, idx: usize) -> (r: Polygon<usize>)
        requires
            idx < self.sub_u() * self.sub_v(),
        ensures
            r == sphere_indexed_polygon(self.sub_u(), self.sub_v(), idx),
    {
        proof {
            use_type_invariant(self);
        }
        let u = idx % self.sub_u;
        let v = idx / self.sub_u;
        proof {
            let su = self.sub_u as int;
            let sv = self.sub_v as int;
            vstd::arithmetic::div_mod::lemma_mod_bound(idx as int, su);
            vstd::arithmetic::div_mod::lemma_div_pos_is_pos(idx as int, su);
            assert(su * sv - 1 == (sv - 1) * su + (su - 1)) by (nonlinear_arith);
            vstd::arithmetic::div_mod::lemma_fundamental_div_mod_converse(
                su * sv - 1,
                su,
                sv - 1,
                su - 1,
            );
            vstd::arithmetic::div_mod::lemma_div_is_ordered(idx as int, su * sv - 1, su);
        }
        if v == 0 {
            Polygon::PolyTri(
                Triangle::new(
                    self.corner_index(u, v),
                    self.corner_index(u, v + 1),
                    self.corner_index(u + 1, v + 1),
                ),
            )
        } else if self.sub_v - 1 == v {
            Polygon::PolyTri(
                Triangle::new(
                    self.corner_index(u + 1, v + 1),
                    self.corner_index(u + 1, v),
                    self.corner_index(u, v),
                ),
            )
        } else {
            Polygon::PolyQuad(
                Quad::new(
                    self.corner_index(u, v),
                    self.corner_index(u, v + 1),
                    self.corner_index(u + 1, v + 1),
                    self.corner_index(u + 1, v),
                ),
            )
        }
    }
}

/// The corner-index function stays inside the shared-vertex table: every
/// grid corner of every cell collapses to one of its entries.
proof fn lemma_corner_index_bounds(sub_u: usize, sub_v: usize, a: usize, b: usize)
    requires
        1 <= sub_u,
        1 <= sub_v,
        sub_u * sub_v + 2 <= usize::MAX,
        b <= sub_v,
    ensures
        0 <= spec_corner_index(sub_u, sub_v, a, b) < spec_shared_vertex_count(sub_u, sub_v),
        spec_shared_vertex_count(sub_u, sub_v) <= usize::MAX,
{
    let su = sub_u as int;
    let sv = sub_v as int;
    assert((sv - 1) * su == su * sv - su) by (nonlinear_arith);
    if b == 0 {
    } else if b == sub_v {
    } else {
        vstd::arithmetic::div_mod::lemma_mod_bound(a as int, su);
        vstd::arithmetic::mul::lemma_mul_inequality(b - 1, sv - 2, su);
        assert((sv - 2) * su + su == (sv - 1) * su) by (nonlinear_arith);
    }
}

/// Law: the shared-vertex table begins at the north pole and ends at the
/// south pole, whatever the longitude resolution: entry 0 holds grid point
/// `(0, 0)` and the last entry holds `(0, sub_v)`.
pub proof fn lemma_shared_vertex_poles(sub_u: usize, sub_v: usize)
    requires
        1 <= sub_u,
        1 <= sub_v,
        sub_u * sub_v + 2 <= usize::MAX,
    ensures
        spec_shared_vertex(sub_u, sub_v, 0) == (0usize, 0usize),
        spec_shared_vertex(
            sub_u,
            sub_v,
            (spec_shared_vertex_count(sub_u, sub_v) - 1) as usize,
        ) == (0usize, sub_v),
{
    assert((sub_v - 1) * (sub_u as int) >= 0) by (nonlinear_arith)
        requires
            1 <= sub_u,
            1 <= sub_v,
    ;
    assert((sub_v - 1) * (sub_u as int) == (sub_u as int) * (sub_v as int) - sub_u)
        by (nonlinear_arith);
}

/// Law: looking the corner-index of any grid corner up in the shared-vertex
/// table yields a grid point at the same position on the sphere as the
/// corner itself — the table index is in range, and the pole collapse and
/// the seam wrap lose no geometry.
pub proof fn lemma_corner_round_trip(sub_u: usize, sub_v: usize, a: usize, b: usize)
    requires
        1 <= sub_u,
        1 <= sub_v,
        sub_u * sub_v + 2 <= usize::MAX,
        b <= sub_v,
    ensures
        0 <= spec_corner_index(sub_u, sub_v, a, b) < spec_shared_vertex_count(sub_u, sub_v),
        same_position(
            sub_u,
            sub_v,
            spec_shared_vertex(sub_u, sub_v, spec_corner_index(sub_u, sub_v, a, b) as usize),
            (a, b),
        ),
{
    let su = sub_u as int;
    let sv = sub_v as int;
    lemma_corner_index_bounds(sub_u, sub_v, a, b);
    let k = spec_corner_index(sub_u, sub_v, a, b);
    if b == 0 {
    } else if b == sub_v {
        assert((sv - 1) * su >= 0) by (nonlinear_arith)
            requires
                1 <= su,
                1 <= sv,
        ;
    } else {
        vstd::arithmetic::div_mod::lemma_mod_bound(a as int, su);
        let m = (a as int) % su;
        // the interior entries stop short of the south pole entry
        vstd::arithmetic::mul::lemma_mul_inequality(b - 1, sv - 2, su);
        assert((sv - 2) * su + su == (sv - 1) * su) by (nonlinear_arith);
        assert(k <= (sv - 1) * su);
        assert(k != spec_shared_vertex_count(sub_u, sub_v) - 1);
        // recover row and column from the entry number
        vstd::arithmetic::div_mod::lemma_fundamental_div_mod_converse(
            (b - 1) * su + m,
            su,
            b - 1,
            m,
        );
        vstd::arithmetic::div_mod::lemma_small_mod(m as nat, su as nat);
        assert(spec_shared_vertex(sub_u, sub_v, k as usize).1 == b);
    }
}

/// Law: the streamed polygon of a cell is a triangle exactly on the two
/// pole rows (the first and the last), and a quad on every interior row —
/// so a full run yields `2·sub_u` triangles and `sub_u·(sub_v − 2)` quads
/// whenever `sub_v >= 2`.
pub proof fn lemma_sphere_row_shapes(sub_u: usize, sub_v: usize, idx: usize)
    requires
        1 <= sub_u,
        idx < sub_u * sub_v,
    ensures
        ({
            let row = (idx as int) / (sub_u as int);
            (sphere_polygons(sub_u, sub_v)[idx as int] is PolyTri) <==> (row == 0 || row == sub_v
                - 1)
        }),
{
    let su = sub_u as int;
    let sv = sub_v as int;
    vstd::arithmetic::div_mod::lemma_mod_bound(idx as int, su);
    vstd::arithmetic::div_mod::lemma_div_pos_is_pos(idx as int, su);
    assert(su * sv - 1 == (sv - 1) * su + (su - 1)) by (nonlinear_arith);
    vstd::arithmetic::div_mod::lemma_fundamental_div_mod_converse(
        su * sv - 1,
        su,
        sv - 1,
        su - 1,
    );
    vstd::arithmetic::div_mod::lemma_div_is_ordered(idx as int, su * sv - 1, su);
}

/// Law: the indexed form describes exactly as many polygons as a full
/// streaming run yields — `sub_u · sub_v`, the length of the polygon stream
/// a fresh generator starts with.
pub proof fn lemma_indexed_count_matches_stream(sub_u: usize, sub_v: usize)
    ensures
        sphere_polygons(sub_u, sub_v).len() == sub_u * sub_v,
{
}

/// Law: the indexed form references the same geometry as the streaming
/// form. For every cell, the indexed polygon has the shape and winding of
/// the streamed polygon, every corner index lies inside the shared-vertex
/// table, and looking a corner index up yields a grid point at the same
/// position as the grid corner the streamed polygon carries in that slot.
pub proof fn lemma_indexed_matches_streamed(sub_u: usize, sub_v: usize, idx: usize)
    requires
        1 <= sub_u,
        1 <= sub_v,
        sub_u * sub_v + 2 <= usize::MAX,
        idx < sub_u * sub_v,
    ensures
        sphere_polygons(sub_u, sub_v)[idx as int].same_shape(
            sphere_indexed_polygon(sub_u, sub_v, idx),
        ),
        sphere_indexed_polygon(sub_u, sub_v, idx).vertex_seq().len() == sphere_polygons(
            sub_u,
            sub_v,
        )[idx as int].vertex_seq().len(),
        forall|j: int|
            0 <= j < sphere_indexed_polygon(sub_u, sub_v, idx).vertex_seq().len() ==> {
                let slot = #[trigger] sphere_indexed_polygon(sub_u, sub_v, idx).vertex_seq()[j];
                &&& slot < spec_shared_vertex_count(sub_u, sub_v)
                &&& same_position(
                    sub_u,
                    sub_v,
                    spec_shared_vertex(sub_u, sub_v, slot),
                    sphere_polygons(sub_u, sub_v)[idx as int].vertex_seq()[j],
                )
            },
{
    let su = sub_u as int;
    let sv = sub_v as int;
    let u = ((idx as int) % su) as usize;
    let v = ((idx as int) / su) as usize;
    vstd::arithmetic::div_mod::lemma_mod_bound(idx as int, su);
    vstd::arithmetic::div_mod::lemma_div_pos_is_pos(idx as int, su);
    assert(su * sv - 1 == (sv - 1) * su + (su - 1)) by (nonlinear_arith);
    vstd::arithmetic::div_mod::lemma_fundamental_div_mod_converse(
        su * sv - 1,
        su,
        sv - 1,
        su - 1,
    );
    vstd::arithmetic::div_mod::lemma_div_is_ordered(idx as int, su * sv - 1, su);
    assert(u < sub_u && v < sub_v);
    lemma_corner_round_trip(sub_u, sub_v, u, v);
    lemma_corner_round_trip(sub_u, sub_v, u, (v + 1) as usize);
    lemma_corner_round_trip(sub_u, sub_v, (u + 1) as usize, (v + 1) as usize);
    lemma_corner_round_trip(sub_u, sub_v, (u + 1) as usize, v);
    let sp = sphere_polygons(sub_u, sub_v)[idx as int];
    let ip = sphere_indexed_polygon(sub_u, sub_v, idx);
    assert(sp == sphere_streamed_polygon(sub_v, u, v));
    assert(sp.same_shape(ip));
}

impl PolygonSource for SphereUV {
    type Poly = Polygon<GridVertex>;

    /// The polygons a full run from the current cursor still yields: the
    /// tail of [`sphere_polygons`] that starts at the cursor's cell.
    closed spec fn remaining(self) -> Seq<Polygon<GridVertex>> {
        let total = (self.sub_u * self.sub_v) as int;
        let k = if self.u == self.sub_u {
            (self.v + 1) * self.sub_u
        } else {
            self.v * self.sub_u + self.u
        };
        if 0 <= k <= total {
            sphere_polygons(self.sub_u, self.sub_v).skip(k)
        } else {
            Seq::empty()
        }
    }

    fn next(&mut self) -> (r: Option<Polygon<GridVertex>>) {
        SphereUV::next(self)
    }
}

} // verus!
