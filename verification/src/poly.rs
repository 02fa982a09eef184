//! Polygon shapes and the capabilities they share: emitting the vertices a
//! shape holds, in a fixed order, and rebuilding a shape of the same kind
//! with every vertex transformed.

use vstd::prelude::*;

verus! {

use core::marker::PhantomData;

/// A polygon with 4 points, stored in fan/winding order.
#[derive(Clone, Copy, Debug, PartialEq, Eq)]
pub struct Quad<T> {
    /// the first point of the quad
    pub x: T,
    /// the second point of the quad
    pub y: T,
    /// the third point of the quad
    pub z: T,
    /// the fourth point of the quad
    pub w: T,
}

impl<T> Quad<T> {
    /// Create a new `Quad` from the supplied vertices, in order.
    pub fn new(v0: T, v1: T, v2: T, v3: T) -> (r: Quad<T>)
        ensures
            r.x == v0,
            r.y == v1,
            r.z == v2,
            r.w == v3,
    {
        Quad { x: v0, y: v1, z: v2, w: v3 }
    }
}

/// A polygon with 3 points, stored in winding order.
#[derive(Clone, Copy, Debug, PartialEq, Eq)]
pub struct Triangle<T> {
    /// the first point of the triangle
    pub x: T,
    /// the second point of the triangle
    pub y: T,
    /// the third point of the triangle
    pub z: T,
}

impl<T> Triangle<T> {
    /// Create a new `Triangle` from the supplied vertices, in order.
    pub fn new(v0: T, v1: T, v2: T) -> (r: Triangle<T>)
        ensures
            r.x == v0,
            r.y == v1,
            r.z == v2,
    {
        Triangle { x: v0, y: v1, z: v2 }
    }
}

/// Either kind of polygon. Generators that mix shapes (such as a sphere with
/// triangular caps and quad bands) return this uniform type.
#[derive(Clone, Copy, Debug, PartialEq, Eq)]
pub enum Polygon<T> {
    /// a wrapped triangle
    PolyTri(Triangle<T>),
    /// a wrapped quad
    PolyQuad(Quad<T>),
}

/// The capability of taking a polygon apart: a shape is consumed and each of
/// its vertices lands in the sink, oldest vertex first, in the shape's fixed
/// declaration order.
pub trait EmitVertices<T>: Sized {
    /// The vertices this shape holds, in emission order.
    spec fn vertex_seq(self) -> Seq<T>;

    /// Consume the shape and append each of its vertices to `sink`, in order.
    fn emit_vertices(self, sink: &mut Vec<T>)
        ensures
            final(sink)@ == old(sink)@ + self.vertex_seq(),
    ;
}

impl<T> EmitVertices<T> for Triangle<T> {
    open spec fn vertex_seq(self) -> Seq<T> {
        seq![self.x, self.y, self.z]
    }

    fn emit_vertices(self, sink: &mut Vec<T>) {
        let Triangle { x, y, z } = self;
        sink.push(x);
        sink.push(y);
        sink.push(z);
        assert(sink@ =~= old(sink)@ + self.vertex_seq());
    }
}

impl<T> EmitVertices<T> for Quad<T> {
    open spec fn vertex_seq(self) -> Seq<T> {
        seq![self.x, self.y, self.z, self.w]
    }

    fn emit_vertices(self, sink: &mut Vec<T>) {
        let Quad { x, y, z, w } = self;
        sink.push(x);
        sink.push(y);
        sink.push(z);
        sink.push(w);
        assert(sink@ =~= old(sink)@ + self.vertex_seq());
    }
}

impl<T> EmitVertices<T> for Polygon<T> {
    open spec fn vertex_seq(self) -> Seq<T> {
        match self {
            Polygon::PolyTri(p) => p.vertex_seq(),
            Polygon::PolyQuad(p) => p.vertex_seq(),
        }
    }

    fn emit_vertices(self, sink: &mut Vec<T>) {
        match self {
            Polygon::PolyTri(p) => p.emit_vertices(sink),
            Polygon::PolyQuad(p) => p.emit_vertices(sink),
        }
    }
}

/// The capability of rebuilding a shape with every vertex transformed: the
/// result is a shape of the identical kind, with `f` applied to each vertex
/// slot independently, emission order preserved slot for slot.
pub trait MapVertex<T, U>: EmitVertices<T> {
    /// The kind of shape that mapping produces (always the same kind as
    /// `Self`, with the vertex type changed).
    type Output: EmitVertices<U>;

    /// Whether `out` is the same kind of shape as `self` (for `Polygon`, the
    /// variant tag is unchanged; for the fixed-arity shapes this is trivial).
    spec fn same_shape(self, out: Self::Output) -> bool;

    /// Consume the shape and apply `f` to each vertex, producing a shape of
    /// the same kind whose vertex at each slot is an output of `f` on the
    /// input's vertex at that slot.
    fn map_vertex<F: Fn(T) -> U>(self, f: F) -> (r: Self::Output)
        requires
            forall|i: int|
                0 <= i < self.vertex_seq().len() ==> call_requires(f, (self.vertex_seq()[i],)),
        ensures
            self.same_shape(r),
            r.vertex_seq().len() == self.vertex_seq().len(),
            forall|i: int|
                0 <= i < self.vertex_seq().len() ==> call_ensures(
                    f,
                    (self.vertex_seq()[i],),
                    #[trigger] r.vertex_seq()[i],
                ),
    ;
}

impl<T, U> MapVertex<T, U> for Triangle<T> {
    type Output = Triangle<U>;

    open spec fn same_shape(self, out: Triangle<U>) -> bool {
        true
    }

    fn map_vertex<F: Fn(T) -> U>(self, f: F) -> (r: Triangle<U>) {
        proof {
            assert(call_requires(f, (self.vertex_seq()[0],)));
            assert(call_requires(f, (self.vertex_seq()[1],)));
            assert(call_requires(f, (self.vertex_seq()[2],)));
        }
        let Triangle { x, y, z } = self;
        Triangle { x: f(x), y: f(y), z: f(z) }
    }
}

impl<T, U> MapVertex<T, U> for Quad<T> {
    type Output = Quad<U>;

    open spec fn same_shape(self, out: Quad<U>) -> bool {
        true
    }

    fn map_vertex<F: Fn(T) -> U>(self, f: F) -> (r: Quad<U>) {
        proof {
            assert(call_requires(f, (self.vertex_seq()[0],)));
            assert(call_requires(f, (self.vertex_seq()[1],)));
            assert(call_requires(f, (self.vertex_seq()[2],)));
            assert(call_requires(f, (self.vertex_seq()[3],)));
        }
        let Quad { x, y, z, w } = self;
        Quad { x: f(x), y: f(y), z: f(z), w: f(w) }
    }
}

impl<T, U> MapVertex<T, U> for Polygon<T> {
    type Output = Polygon<U>;

    open spec fn same_shape(self, out: Polygon<U>) -> bool {
        match (self, out) {
            (Polygon::PolyTri(_), Polygon::PolyTri(_)) => true,
            (Polygon::PolyQuad(_), Polygon::PolyQuad(_)) => true,
            _ => false,
        }
    }

    fn map_vertex<F: Fn(T) -> U>(self, f: F) -> (r: Polygon<U>) {
        match self {
            Polygon::PolyTri(p) => {
                proof {
                    assert forall|i: int| 0 <= i < p.vertex_seq().len() implies call_requires(
                        f,
                        (p.vertex_seq()[i],),
                    ) by {
                        assert(call_requires(f, (self.vertex_seq()[i],)));
                    }
                }
                Polygon::PolyTri(p.map_vertex(f))
            },
            Polygon::PolyQuad(p) => {
                proof {
                    assert forall|i: int| 0 <= i < p.vertex_seq().len() implies call_requires(
                        f,
                        (p.vertex_seq()[i],),
                    ) by {
                        assert(call_requires(f, (self.vertex_seq()[i],)));
                    }
                }
                Polygon::PolyQuad(p.map_vertex(f))
            },
        }
    }
}

/// A pull-based, lazy, finite sequence of polygons: each call to `next`
/// hands out the next polygon of `remaining`, or signals exhaustion once
/// nothing is left. Generators such as [`crate::sphere::SphereUV`] implement
/// this, and the iterator adapters below consume it.
pub trait PolygonSource: Sized {
    /// The kind of polygon this source produces.
    type Poly;

    /// The polygons this source has not yet handed out, in order.
    spec fn remaining(self) -> Seq<Self::Poly>;

    /// Hand out the next polygon, oldest first, or `None` once exhausted.
    /// A source that has answered `None` stays exhausted.
    fn next(&mut self) -> (r: Option<Self::Poly>)
        ensures
            match r {
                Some(p) => old(self).remaining().len() > 0 && p == old(self).remaining()[0]
                    && final(self).remaining() == old(self).remaining().drop_first(),
                None => old(self).remaining().len() == 0 && final(self).remaining()
                    == old(self).remaining(),
            },
    ;
}

/// A vector is the simplest polygon source: it hands its elements out in
/// order, front first, and is exhausted when empty.
impl<P> PolygonSource for Vec<P> {
    type Poly = P;

    open spec fn remaining(self) -> Seq<P> {
        self@
    }

    fn next(&mut self) -> (r: Option<P>) {
        if self.len() > 0 {
            let p = self.remove(0);
            proof {
                assert(self@ =~= old(self)@.drop_first());
            }
            Some(p)
        } else {
            None
        }
    }
}

/// An adapter that breaks a source of polygons down into the flat sequence
/// of their individual vertices: each polygon's vertices come out oldest
/// polygon first, in that polygon's emission order, with no reordering or
/// batching across polygons.
pub struct VerticesIterator<SRC, V> {
    source: SRC,
    buffer: Vec<V>,
}

impl<SRC, V> VerticesIterator<SRC, V> where
    SRC: PolygonSource,
    SRC::Poly: EmitVertices<V>,
 {
    /// The wrapped source.
    pub closed spec fn src(self) -> SRC {
        self.source
    }

    /// Vertices already emitted by a pulled polygon but not yet handed out.
    pub closed spec fn buffered(self) -> Seq<V> {
        self.buffer@
    }

    /// Every vertex this iterator has still to produce, in order: the
    /// buffered vertices of the current polygon, then the vertices of each
    /// remaining polygon in emission order.
    pub open spec fn vertex_stream(self) -> Seq<V> {
        self.buffered() + self.src().remaining().map_values(
            |p: SRC::Poly| p.vertex_seq(),
        ).flatten()
    }

    /// Produce the next vertex of the stream, or `None` once the source is
    /// exhausted and the buffer is empty.
    pub fn next(&mut self) -> (r: Option<V>)
        ensures
            match r {
                Some(v) => old(self).vertex_stream().len() > 0 && v == old(
                    self,
                ).vertex_stream()[0] && final(self).vertex_stream() == old(
                    self,
                ).vertex_stream().drop_first(),
                None => old(self).vertex_stream().len() == 0 && final(self).vertex_stream()
                    == old(self).vertex_stream(),
            },
    {
        loop
            invariant
                self.vertex_stream() == old(self).vertex_stream(),
            decreases self.src().remaining().len(),
        {
            if self.buffer.len() > 0 {
                let ghost pre = *self;
                let v = self.buffer.remove(0);
                proof {
                    assert(pre.vertex_stream().len() > 0);
                    assert(v == pre.vertex_stream()[0]);
                    assert(self.vertex_stream() =~= pre.vertex_stream().drop_first());
                }
                return Some(v);
            }
            let ghost pre = *self;
            match self.source.next() {
                Some(p) => {
                    proof {
                        let emit = |q: SRC::Poly| q.vertex_seq();
                        assert(pre.src().remaining().map_values(emit).drop_first()
                            =~= self.src().remaining().map_values(emit));
                        assert(pre.src().remaining().map_values(emit).len() > 0);
                        assert(pre.src().remaining().map_values(emit)[0] == p.vertex_seq());
                    }
                    p.emit_vertices(&mut self.buffer);
                    proof {
                        assert(self.vertex_stream() =~= pre.vertex_stream());
                    }
                },
                None => {
                    return None;
                },
            }
        }
    }
}

/// Wrapping a polygon source into a [`VerticesIterator`]. Implemented for
/// every polygon source whose polygons can be taken apart.
pub trait Vertices<V>: PolygonSource where Self::Poly: EmitVertices<V> {
    /// Wrap this source; the new iterator starts with an empty buffer, so
    /// its vertex stream is exactly the flattened emission of `self`.
    fn vertices(self) -> (r: VerticesIterator<Self, V>)
        ensures
            r.src() == self,
            r.buffered() == Seq::<V>::empty(),
            r.vertex_stream() == vertices_of::<Self::Poly, V>(self.remaining()),
    ;
}

impl<V, SRC> Vertices<V> for SRC where SRC: PolygonSource, SRC::Poly: EmitVertices<V> {
    fn vertices(self) -> (r: VerticesIterator<SRC, V>) {
        let r = VerticesIterator { source: self, buffer: Vec::new() };
        proof {
            assert(r.vertex_stream() =~= vertices_of::<SRC::Poly, V>(r.src().remaining()));
        }
        r
    }
}

/// An adapter that pulls polygons from a source and hands each one on with
/// its vertices transformed by the wrapped function: a one-to-one, lazy,
/// shape-preserving rebuild of the source sequence, much like a vertex
/// shader.
pub struct MapToVerticesIter<SRC, F, T, U> {
    src: SRC,
    f: F,
    _marker: PhantomData<(T, U)>,
}

impl<SRC, F, T, U> MapToVerticesIter<SRC, F, T, U> where
    SRC: PolygonSource,
    SRC::Poly: MapVertex<T, U>,
    F: Fn(T) -> U + Copy,
 {
    /// The wrapped source.
    pub closed spec fn source(self) -> SRC {
        self.src
    }

    /// The wrapped transform, applied to every vertex of every polygon.
    pub closed spec fn func(self) -> F {
        self.f
    }

    /// Pull one polygon from the source and return it with every vertex
    /// transformed, or `None` once the source is exhausted. The result is
    /// the same kind of shape, each of its vertex slots an output of the
    /// transform on the source polygon's vertex at that slot.
    pub fn next(&mut self) -> (r: Option<<SRC::Poly as MapVertex<T, U>>::Output>)
        requires
            old(self).source().remaining().len() > 0 ==> forall|i: int|
                0 <= i < old(self).source().remaining()[0].vertex_seq().len() ==> call_requires(
                    old(self).func(),
                    (old(self).source().remaining()[0].vertex_seq()[i],),
                ),
        ensures
            final(self).func() == old(self).func(),
            match r {
                Some(q) => {
                    &&& old(self).source().remaining().len() > 0
                    &&& final(self).source().remaining() == old(
                        self,
                    ).source().remaining().drop_first()
                    &&& old(self).source().remaining()[0].same_shape(q)
                    &&& q.vertex_seq().len() == old(self).source().remaining()[0].vertex_seq().len()
                    &&& forall|i: int|
                        0 <= i < q.vertex_seq().len() ==> call_ensures(
                            old(self).func(),
                            (old(self).source().remaining()[0].vertex_seq()[i],),
                            #[trigger] q.vertex_seq()[i],
                        )
                },
                None => {
                    &&& old(self).source().remaining().len() == 0
                    &&& final(self).source().remaining() == old(self).source().remaining()
                },
            },
    {
        let f = self.f;
        match self.src.next() {
            Some(p) => Some(p.map_vertex(f)),
            None => None,
        }
    }
}

/// The flat vertex sequence of a whole polygon sequence: each polygon's
/// vertices in emission order, polygons oldest first. This is exactly the
/// stream a [`VerticesIterator`] produces over the sequence.
pub open spec fn vertices_of<P: EmitVertices<V>, V>(ps: Seq<P>) -> Seq<V> {
    ps.map_values(|p: P| p.vertex_seq()).flatten()
}

/// The sum of the arities of a polygon sequence (3 per triangle, 4 per
/// quad, and in general the length of each polygon's emission order).
pub open spec fn total_vertex_count<P: EmitVertices<V>, V>(ps: Seq<P>) -> nat
    decreases ps.len(),
{
    if ps.len() == 0 {
        0
    } else {
        ps[0].vertex_seq().len() + total_vertex_count(ps.drop_first())
    }
}

/// Law: the vertex stream of a polygon sequence splits as the head
/// polygon's emission order followed by the stream of the rest — so the
/// stream is exactly the concatenation of the emission orders, in source
/// order.
pub proof fn lemma_vertices_of_decompose<P: EmitVertices<V>, V>(ps: Seq<P>)
    requires
        ps.len() > 0,
    ensures
        vertices_of(ps) == ps[0].vertex_seq() + vertices_of(ps.drop_first()),
{
    let emit = |p: P| p.vertex_seq();
    assert(ps.map_values(emit).drop_first() =~= ps.drop_first().map_values(emit));
    assert(vertices_of(ps) =~= ps[0].vertex_seq() + vertices_of(ps.drop_first()));
}

/// Law: the total number of vertices that come out of decomposing a polygon
/// sequence equals the sum of the polygons' arities.
pub proof fn lemma_vertices_total_count<P: EmitVertices<V>, V>(ps: Seq<P>)
    ensures
        vertices_of(ps).len() == total_vertex_count(ps),
    decreases ps.len(),
{
    let emit = |p: P| p.vertex_seq();
    if ps.len() == 0 {
        assert(ps.map_values(emit) =~= Seq::<Seq<V>>::empty());
        assert(vertices_of(ps) =~= Seq::<V>::empty());
    } else {
        lemma_vertices_of_decompose(ps);
        lemma_vertices_total_count(ps.drop_first());
    }
}

/// A per-vertex map over a polygon, at the specification level: the same
/// kind of shape, with `f` applied to each vertex slot.
pub open spec fn map_polygon<T, U>(p: Polygon<T>, f: spec_fn(T) -> U) -> Polygon<U> {
    match p {
        Polygon::PolyTri(t) => Polygon::PolyTri(Triangle { x: f(t.x), y: f(t.y), z: f(t.z) }),
        Polygon::PolyQuad(q) => Polygon::PolyQuad(
            Quad { x: f(q.x), y: f(q.y), z: f(q.z), w: f(q.w) },
        ),
    }
}

/// Law: mapping then emitting equals emitting then mapping element-wise —
/// the emission order of a mapped polygon is `f` applied pointwise to the
/// original emission order.
pub proof fn lemma_map_emit_commute<T, U>(p: Polygon<T>, f: spec_fn(T) -> U)
    ensures
        map_polygon(p, f).vertex_seq() == p.vertex_seq().map_values(f),
{
    match p {
        Polygon::PolyTri(t) => {
            assert(map_polygon(p, f).vertex_seq() =~= p.vertex_seq().map_values(f));
        },
        Polygon::PolyQuad(q) => {
            assert(map_polygon(p, f).vertex_seq() =~= p.vertex_seq().map_values(f));
        },
    }
}

/// Law: when a transform is deterministic, the relational contract of
/// [`MapVertex::map_vertex`] pins its output down completely — any polygon
/// whose shape matches and whose vertex slots are the transform of the
/// input's slots is the spec-level [`map_polygon`].
pub proof fn lemma_map_vertex_deterministic<T, U>(p: Polygon<T>, q: Polygon<U>, g: spec_fn(T) -> U)
    requires
        p.same_shape(q),
        q.vertex_seq().len() == p.vertex_seq().len(),
        forall|i: int|
            0 <= i < p.vertex_seq().len() ==> #[trigger] q.vertex_seq()[i] == g(p.vertex_seq()[i]),
    ensures
        q == map_polygon(p, g),
{
    match (p, q) {
        (Polygon::PolyTri(tp), Polygon::PolyTri(tq)) => {
            assert(tq.x == g(tp.x) && tq.y == g(tp.y) && tq.z == g(tp.z));
        },
        (Polygon::PolyQuad(qp), Polygon::PolyQuad(qq)) => {
            assert(qq.x == g(qp.x) && qq.y == g(qp.y) && qq.z == g(qp.z) && qq.w == g(qp.w));
        },
        _ => {
            assert(false);
        },
    }
}

/// Wrapping a polygon source into a [`MapToVerticesIter`]. Implemented for
/// every polygon source whose polygons support per-vertex mapping.
pub trait MapToVertices<T, U>: PolygonSource where Self::Poly: MapVertex<T, U> {
    /// Wrap this source, so that every vertex of every polygon it produces
    /// is transformed by `map`.
    fn vertex<F: Fn(T) -> U + Copy>(self, map: F) -> (r: MapToVerticesIter<Self, F, T, U>)
        ensures
            r.source() == self,
            r.func() == map,
    ;
}

impl<T, U, SRC> MapToVertices<T, U> for SRC where SRC: PolygonSource, SRC::Poly: MapVertex<T, U> {
    fn vertex<F: Fn(T) -> U + Copy>(self, map: F) -> (r: MapToVerticesIter<SRC, F, T, U>) {
        MapToVerticesIter { src: self, f: map, _marker: PhantomData }
    }
}

} // verus!
