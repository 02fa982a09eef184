use genmesh::{EmitVertices, MapToVertices, Polygon, Quad, SphereUV, Triangle, Vertices};

/// The position on the unit sphere that grid point `(a, b)` names.
fn vert(sub_u: usize, sub_v: usize, a: usize, b: usize) -> (f32, f32, f32) {
    let u = (a as f32 / sub_u as f32) * std::f32::consts::TAU;
    let v = (b as f32 / sub_v as f32) * std::f32::consts::PI;
    (u.cos() * v.sin(), u.sin() * v.sin(), v.cos())
}

fn close(p: (f32, f32, f32), q: (f32, f32, f32)) -> bool {
    (p.0 - q.0).abs() < 1e-5 && (p.1 - q.1).abs() < 1e-5 && (p.2 - q.2).abs() < 1e-5
}

fn collect_streamed(sub_u: usize, sub_v: usize) -> Vec<Polygon<(usize, usize)>> {
    let mut s = SphereUV::new(sub_u, sub_v);
    let mut out = Vec::new();
    while let Some(p) = s.next() {
        out.push(p);
    }
    out
}

#[test]
fn sphere_4x4_row_shapes() {
    let polys = collect_streamed(4, 4);
    assert_eq!(polys.len(), 16);
    let mut triangles = 0;
    let mut quads = 0;
    for (i, p) in polys.iter().enumerate() {
        match p {
            Polygon::PolyTri(_) => {
                triangles += 1;
                // rows 0 and 3 are the pole rows
                assert!(i < 4 || i >= 12);
            }
            Polygon::PolyQuad(_) => {
                quads += 1;
                assert!((4..12).contains(&i));
            }
        }
    }
    assert_eq!(triangles, 8);
    assert_eq!(quads, 8);
}

#[test]
fn sphere_first_and_last_polygons() {
    let polys = collect_streamed(2, 3);
    assert_eq!(polys.len(), 6);
    // north row triangle at u = 0: corners (0,0), (0,1), (1,1)
    assert_eq!(polys[0], Polygon::PolyTri(Triangle::new((0, 0), (0, 1), (1, 1))));
    // interior row quad at u = 0: corners (0,1), (0,2), (1,2), (1,1)
    assert_eq!(polys[2], Polygon::PolyQuad(Quad::new((0, 1), (0, 2), (1, 2), (1, 1))));
    // south row triangle at u = 1: corners z, w, x of cell (1,2)
    assert_eq!(polys[5], Polygon::PolyTri(Triangle::new((2, 3), (2, 2), (1, 2))));
}

#[test]
fn sphere_stays_exhausted() {
    let mut s = SphereUV::new(2, 2);
    for _ in 0..4 {
        assert!(s.next().is_some());
    }
    assert_eq!(s.next(), None);
    assert_eq!(s.next(), None);
    assert_eq!(s.next(), None);
}

#[test]
fn shared_vertex_count_formula() {
    assert_eq!(SphereUV::new(4, 4).shared_vertex_count(), 14);
    assert_eq!(SphereUV::new(2, 2).shared_vertex_count(), 4);
    assert_eq!(SphereUV::new(6, 3).shared_vertex_count(), 14);
    assert_eq!(SphereUV::new(5, 7).shared_vertex_count(), 32);
}

#[test]
fn shared_vertex_poles() {
    for sub_u in [2, 3, 4, 7] {
        let s = SphereUV::new(sub_u, 4);
        let count = s.shared_vertex_count();
        assert_eq!(s.shared_vertex(0), (0, 0));
        assert_eq!(s.shared_vertex(count - 1), (0, 4));
        // the pole positions do not depend on the longitude resolution
        assert!(close(vert(sub_u, 4, 0, 0), (0.0, 0.0, 1.0)));
        assert!(close(vert(sub_u, 4, 0, 4), (0.0, 0.0, -1.0)));
    }
}

#[test]
fn shared_vertex_interior_rows() {
    let s = SphereUV::new(4, 4);
    // entries 1..=4 walk row 1, entries 5..=8 row 2, entries 9..=12 row 3
    assert_eq!(s.shared_vertex(1), (0, 1));
    assert_eq!(s.shared_vertex(4), (3, 1));
    assert_eq!(s.shared_vertex(5), (0, 2));
    assert_eq!(s.shared_vertex(12), (3, 3));
}

#[test]
fn indexed_polygon_values() {
    let s = SphereUV::new(4, 4);
    // north cap cell (0,0)
    assert_eq!(s.indexed_polygon(0), Polygon::PolyTri(Triangle::new(0, 1, 2)));
    // the seam wraps: cell (3,0) stitches back to entry 1
    assert_eq!(s.indexed_polygon(3), Polygon::PolyTri(Triangle::new(0, 4, 1)));
    // interior cell (0,1)
    assert_eq!(s.indexed_polygon(4), Polygon::PolyQuad(Quad::new(1, 5, 6, 2)));
    // south cap cell (0,3): all of row 4 collapses to the last entry, 13
    assert_eq!(s.indexed_polygon(12), Polygon::PolyTri(Triangle::new(13, 10, 9)));
}

#[test]
fn indexed_count_matches_streamed_count() {
    for (sub_u, sub_v) in [(4, 4), (2, 2), (3, 2), (5, 3), (1, 1)] {
        let s = SphereUV::new(sub_u, sub_v);
        assert_eq!(s.indexed_polygon_count(), sub_u * sub_v);
        assert_eq!(collect_streamed(sub_u, sub_v).len(), sub_u * sub_v);
    }
}

#[test]
fn degenerate_two_rows_all_triangles() {
    let polys = collect_streamed(3, 2);
    assert_eq!(polys.len(), 6);
    assert!(polys.iter().all(|p| matches!(p, Polygon::PolyTri(_))));
}

#[test]
fn indexed_lookup_agrees_with_streamed_positions() {
    for (sub_u, sub_v) in [(4, 4), (5, 3), (3, 2)] {
        let s = SphereUV::new(sub_u, sub_v);
        let streamed = collect_streamed(sub_u, sub_v);
        assert_eq!(streamed.len(), s.indexed_polygon_count());
        for (i, sp) in streamed.into_iter().enumerate() {
            let ip = s.indexed_polygon(i);
            let mut grid: Vec<(usize, usize)> = Vec::new();
            sp.emit_vertices(&mut grid);
            let mut indices: Vec<usize> = Vec::new();
            ip.emit_vertices(&mut indices);
            assert_eq!(grid.len(), indices.len());
            for (g, idx) in grid.into_iter().zip(indices) {
                assert!(idx < s.shared_vertex_count());
                let shared = s.shared_vertex(idx);
                let direct = vert(sub_u, sub_v, g.0, g.1);
                let via_table = vert(sub_u, sub_v, shared.0, shared.1);
                assert!(close(direct, via_table));
            }
        }
    }
}

#[test]
fn sphere_feeds_vertices_iterator() {
    let sphere = SphereUV::new(2, 2);
    let mut it = sphere.vertices();
    let mut count = 0;
    while let Some(_) = it.next() {
        count += 1;
    }
    // four triangles, three grid corners each
    assert_eq!(count, 12);
}

#[test]
fn sphere_positions_through_vertex_mapping() {
    let sub_u = 4;
    let sub_v = 4;
    let sphere = SphereUV::new(sub_u, sub_v);
    let mut it = sphere.vertex(move |g: (usize, usize)| vert(sub_u, sub_v, g.0, g.1));
    let first = it.next().expect("a first polygon");
    match first {
        Polygon::PolyTri(t) => {
            assert!(close(t.x, (0.0, 0.0, 1.0)));
            assert!(close(t.y, vert(4, 4, 0, 1)));
            assert!(close(t.z, vert(4, 4, 1, 1)));
        }
        Polygon::PolyQuad(_) => panic!("the north row must yield triangles"),
    }
}
