use genmesh::{
    EmitVertices, MapToVertices, MapVertex, Polygon, PolygonSource, Quad, Triangle, Vertices,
};

#[test]
fn emit_triangle_order() {
    let t = Triangle::new(1, 2, 3);
    let mut sink: Vec<i32> = Vec::new();
    t.emit_vertices(&mut sink);
    assert_eq!(sink, vec![1, 2, 3]);
}

#[test]
fn emit_quad_order() {
    let q = Quad::new(1, 2, 3, 4);
    let mut sink: Vec<i32> = Vec::new();
    q.emit_vertices(&mut sink);
    assert_eq!(sink, vec![1, 2, 3, 4]);
}

#[test]
fn emit_polygon_delegates() {
    let mut sink: Vec<i32> = Vec::new();
    Polygon::PolyTri(Triangle::new(7, 8, 9)).emit_vertices(&mut sink);
    Polygon::PolyQuad(Quad::new(10, 11, 12, 13)).emit_vertices(&mut sink);
    assert_eq!(sink, vec![7, 8, 9, 10, 11, 12, 13]);
}

#[test]
fn map_triangle_values() {
    let t = Triangle::new(1u32, 2, 3).map_vertex(|x| x * 10);
    assert_eq!(t, Triangle::new(10, 20, 30));
}

#[test]
fn map_quad_values() {
    let q = Quad::new(1u32, 2, 3, 4).map_vertex(|x| x + 5);
    assert_eq!(q, Quad::new(6, 7, 8, 9));
}

#[test]
fn map_preserves_shape() {
    let p = Polygon::PolyTri(Triangle::new(1u32, 2, 3)).map_vertex(|x| x as f32);
    assert!(matches!(p, Polygon::PolyTri(_)));
    let p = Polygon::PolyQuad(Quad::new(1u32, 2, 3, 4)).map_vertex(|x| x as f32);
    assert!(matches!(p, Polygon::PolyQuad(_)));
}

#[test]
fn map_then_emit_commutes_with_emit_then_map() {
    let polys = [
        Polygon::PolyTri(Triangle::new(3u32, 1, 4)),
        Polygon::PolyQuad(Quad::new(1u32, 5, 9, 2)),
    ];
    let f = |x: u32| x * x + 1;
    for p in polys {
        let mut mapped_then_emitted: Vec<u32> = Vec::new();
        p.map_vertex(f).emit_vertices(&mut mapped_then_emitted);

        let mut emitted: Vec<u32> = Vec::new();
        p.emit_vertices(&mut emitted);
        let emitted_then_mapped: Vec<u32> = emitted.into_iter().map(f).collect();

        assert_eq!(mapped_then_emitted, emitted_then_mapped);
    }
}

#[test]
fn vertices_iterator_flattens_in_order() {
    let polys = vec![
        Polygon::PolyTri(Triangle::new(1, 2, 3)),
        Polygon::PolyQuad(Quad::new(4, 5, 6, 7)),
        Polygon::PolyTri(Triangle::new(8, 9, 10)),
    ];
    let mut it = polys.vertices();
    let mut out: Vec<i32> = Vec::new();
    while let Some(v) = it.next() {
        out.push(v);
    }
    // 3 + 4 + 3 vertices, in source-then-emission order
    assert_eq!(out, vec![1, 2, 3, 4, 5, 6, 7, 8, 9, 10]);
}

#[test]
fn vertices_iterator_stays_exhausted() {
    let polys: Vec<Polygon<i32>> = vec![Polygon::PolyTri(Triangle::new(1, 2, 3))];
    let mut it = polys.vertices();
    assert_eq!(it.next(), Some(1));
    assert_eq!(it.next(), Some(2));
    assert_eq!(it.next(), Some(3));
    assert_eq!(it.next(), None);
    assert_eq!(it.next(), None);
}

#[test]
fn empty_source_yields_no_vertices() {
    let polys: Vec<Polygon<i32>> = Vec::new();
    let mut it = polys.vertices();
    assert_eq!(it.next(), None);
}

#[test]
fn map_to_vertices_iterator_is_one_to_one() {
    let polys = vec![
        Polygon::PolyTri(Triangle::new(1u32, 2, 3)),
        Polygon::PolyQuad(Quad::new(4u32, 5, 6, 7)),
    ];
    let mut it = polys.vertex(|x: u32| x * 2);
    assert_eq!(it.next(), Some(Polygon::PolyTri(Triangle::new(2, 4, 6))));
    assert_eq!(it.next(), Some(Polygon::PolyQuad(Quad::new(8, 10, 12, 14))));
    assert_eq!(it.next(), None);
}

#[test]
fn vec_source_hands_out_front_first() {
    let mut polys = vec![
        Polygon::PolyTri(Triangle::new(1, 2, 3)),
        Polygon::PolyQuad(Quad::new(4, 5, 6, 7)),
    ];
    assert_eq!(polys.next(), Some(Polygon::PolyTri(Triangle::new(1, 2, 3))));
    assert_eq!(polys.next(), Some(Polygon::PolyQuad(Quad::new(4, 5, 6, 7))));
    assert_eq!(polys.next(), None);
}

#[test]
fn constructors_store_in_order() {
    let t = Triangle::new("a", "b", "c");
    assert_eq!((t.x, t.y, t.z), ("a", "b", "c"));
    let q = Quad::new("a", "b", "c", "d");
    assert_eq!((q.x, q.y, q.z, q.w), ("a", "b", "c", "d"));
}
