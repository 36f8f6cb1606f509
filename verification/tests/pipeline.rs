use image_polygonizer::PolygonizerError;
use image_polygonizer::geom::Point;
use image_polygonizer::greet;
use image_polygonizer::mask::build_mask;
use image_polygonizer::poly::PolygonizerAlgorithm;
use image_polygonizer::simplify::simplify_contour;
use image_polygonizer::trace::trace_contours;

fn transparent(w: usize, h: usize) -> Vec<u8> {
    vec![0u8; w * h * 4]
}

fn fill_rect(data: &mut Vec<u8>, w: usize, x0: usize, y0: usize, x1: usize, y1: usize) {
    for y in y0..y1 {
        for x in x0..x1 {
            data[4 * (y * w + x) + 3] = 255;
        }
    }
}

fn decode(flat: &[i64]) -> Vec<Vec<(i64, i64)>> {
    let mut polys = Vec::new();
    let mut i = 0usize;
    while i < flat.len() {
        let n = flat[i] as usize;
        i += 1;
        let mut p = Vec::new();
        for _ in 0..n {
            p.push((flat[i], flat[i + 1]));
            i += 2;
        }
        polys.push(p);
    }
    polys
}

/// Twice the signed area; positive for clockwise rings in image coordinates.
fn shoelace(p: &[(i64, i64)]) -> i64 {
    let n = p.len();
    let mut s = 0i64;
    for i in 0..n {
        let (x0, y0) = p[i];
        let (x1, y1) = p[(i + 1) % n];
        s += x0 * y1 - x1 * y0;
    }
    s
}

#[test]
fn config_validation() {
    let p = PolygonizerAlgorithm::new(3, 0).unwrap();
    assert_eq!(p.max_vertices(), 3);
    assert_eq!(p.tolerance(), 0);
    let p = PolygonizerAlgorithm::new(64, 1500).unwrap();
    assert_eq!(p.max_vertices(), 64);
    assert_eq!(p.tolerance(), 1500);
    assert_eq!(
        PolygonizerAlgorithm::new(2, 0).unwrap_err(),
        PolygonizerError::InvalidConfig
    );
    assert_eq!(
        PolygonizerAlgorithm::new(0, 10).unwrap_err(),
        PolygonizerError::InvalidConfig
    );
    assert_eq!(
        PolygonizerAlgorithm::new(10, -1).unwrap_err(),
        PolygonizerError::InvalidConfig
    );
}

#[test]
fn transparent_image_yields_no_polygons() {
    let p = PolygonizerAlgorithm::new(8, 0).unwrap();
    let data = transparent(8, 6);
    let out = p.process(8, 6, &data).unwrap();
    assert!(out.is_empty());
}

#[test]
fn empty_image_yields_no_polygons() {
    let p = PolygonizerAlgorithm::new(8, 0).unwrap();
    let data: Vec<u8> = Vec::new();
    assert!(p.process(0, 0, &data).unwrap().is_empty());
    assert!(p.process(0, 7, &data).unwrap().is_empty());
}

#[test]
fn opaque_block_single_polygon() {
    let mut data = transparent(20, 20);
    fill_rect(&mut data, 20, 5, 5, 15, 15);
    let p = PolygonizerAlgorithm::new(8, 0).unwrap();
    let out = p.process(20, 20, &data).unwrap();
    let polys = decode(&out);
    assert_eq!(polys.len(), 1);
    assert!(polys[0].len() <= 8);
    assert!(polys[0].len() >= 3);
    // Twice the area of the 10 x 10 block, traced clockwise.
    assert_eq!(shoelace(&polys[0]), 200);
}

#[test]
fn opaque_block_corners() {
    let mut data = transparent(20, 20);
    fill_rect(&mut data, 20, 5, 5, 15, 15);
    let p = PolygonizerAlgorithm::new(4, 0).unwrap();
    let out = p.process(20, 20, &data).unwrap();
    let polys = decode(&out);
    assert_eq!(polys.len(), 1);
    let mut got = polys[0].clone();
    got.sort();
    assert_eq!(got, vec![(5, 5), (5, 15), (15, 5), (15, 15)]);
}

#[test]
fn ring_two_contours_opposite_orientation() {
    let mut data = transparent(20, 20);
    fill_rect(&mut data, 20, 4, 4, 16, 16);
    // Punch the hole back to transparent.
    for y in 8..12 {
        for x in 8..12 {
            data[4 * (y * 20 + x) + 3] = 0;
        }
    }
    let p = PolygonizerAlgorithm::new(100, 0).unwrap();
    let out = p.process(20, 20, &data).unwrap();
    let polys = decode(&out);
    assert_eq!(polys.len(), 2);
    let s0 = shoelace(&polys[0]);
    let s1 = shoelace(&polys[1]);
    assert!(s0 > 0, "outer boundary is clockwise in image coordinates");
    assert!(s1 < 0, "hole is counterclockwise in image coordinates");
    assert_eq!(s0, 2 * 144);
    assert_eq!(s1, -2 * 16);
}

#[test]
fn process_is_idempotent() {
    let mut data = transparent(16, 16);
    fill_rect(&mut data, 16, 2, 3, 11, 13);
    fill_rect(&mut data, 16, 12, 1, 15, 4);
    let p = PolygonizerAlgorithm::new(6, 2500).unwrap();
    let a = p.process(16, 16, &data).unwrap();
    let b = p.process(16, 16, &data).unwrap();
    assert_eq!(a, b);
}

#[test]
fn malformed_buffer_fails_with_invalid_input() {
    let p = PolygonizerAlgorithm::new(8, 0).unwrap();
    let data = vec![255u8; 10 * 10 * 4 - 1];
    assert_eq!(
        p.process(10, 10, &data).unwrap_err(),
        PolygonizerError::InvalidInput
    );
    let data = vec![255u8; 10 * 10 * 4 + 4];
    assert_eq!(
        p.process(10, 10, &data).unwrap_err(),
        PolygonizerError::InvalidInput
    );
}

#[test]
fn simplify_respects_vertex_budget() {
    let square: Vec<Point> = [
        (0, 0),
        (1, 0),
        (2, 0),
        (2, 1),
        (2, 2),
        (1, 2),
        (0, 2),
        (0, 1),
    ]
    .iter()
    .map(|&(x, y)| Point::new(x, y))
    .collect();
    let out = simplify_contour(&square, 0, 3).unwrap();
    assert_eq!(out.len(), 3);
    let out = simplify_contour(&square, 0, 5).unwrap();
    assert_eq!(out.len(), 5);
    // A huge tolerance still leaves a valid polygon of 3 vertices.
    let out = simplify_contour(&square, 50_000_000, 1000).unwrap();
    assert_eq!(out.len(), 3);
}

#[test]
fn simplify_zero_tolerance_keeps_contour() {
    let mut data = transparent(6, 6);
    fill_rect(&mut data, 6, 1, 1, 4, 3);
    let g = build_mask(6, 6, &data);
    let contours = trace_contours(&g).unwrap();
    assert_eq!(contours.len(), 1);
    let c = &contours[0];
    assert!(c.len() >= 3);
    let out = simplify_contour(c, 0, 100000).unwrap();
    assert_eq!(out, *c);
}

#[test]
fn degenerate_contour_rejected() {
    let two: Vec<Point> = vec![Point::new(0, 0), Point::new(1, 0)];
    assert_eq!(
        simplify_contour(&two, 0, 10).unwrap_err(),
        PolygonizerError::DegenerateResult
    );
}

#[test]
fn encoding_is_count_then_pairs() {
    let mut data = transparent(3, 3);
    fill_rect(&mut data, 3, 0, 0, 3, 3);
    let p = PolygonizerAlgorithm::new(4, 0).unwrap();
    let out = p.process(3, 3, &data).unwrap();
    assert_eq!(out, vec![4, 0, 0, 3, 0, 3, 3, 0, 3]);
}

#[test]
fn greet_reports_ready() {
    assert_eq!(greet("Ada"), "Hello, Ada! The image polygonizer is ready.");
}

#[test]
fn simplify_keeps_points_beyond_tolerance() {
    // A square ring with a 1-pixel inward bump at (2, 1).
    let bumped: Vec<Point> = [
        (0, 0),
        (2, 1),
        (4, 0),
        (4, 2),
        (4, 4),
        (2, 4),
        (0, 4),
        (0, 2),
    ]
    .iter()
    .map(|&(x, y)| Point::new(x, y))
    .collect();
    // Tolerance 0.5 px: the bump deviates by 1 px and must survive.
    let out = simplify_contour(&bumped, 500, 1000).unwrap();
    let got: Vec<(i64, i64)> = out.iter().map(|p| (p.x, p.y)).collect();
    assert_eq!(got, vec![(0, 0), (2, 1), (4, 0), (4, 4), (0, 4)]);
    // Tolerance 1.5 px: the bump deviates by less and is collapsed away.
    let out = simplify_contour(&bumped, 1500, 1000).unwrap();
    let got: Vec<(i64, i64)> = out.iter().map(|p| (p.x, p.y)).collect();
    assert_eq!(got, vec![(0, 0), (4, 0), (4, 4), (0, 4)]);
}
