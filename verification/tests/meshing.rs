use fractal_curves::benchmark;
use fractal_curves::curves::Curves;
use fractal_curves::geometry::Geometry;
use fractal_curves::mesh::{index, lines_as_triangles};
use fractal_curves::vec2::Vec2;
use fractal_curves::vertex::Vertex;

struct FloatGeometry;

fn fb(bits: u32) -> f32 {
    f32::from_bits(bits)
}

fn v2(x: f32, y: f32) -> Vec2 {
    Vec2 { x: x.to_bits(), y: y.to_bits() }
}

fn set_len(x: f32, y: f32, len: f32) -> (f32, f32) {
    let current = x.hypot(y);
    if current == len {
        (x, y)
    } else {
        ((x / current) * len, (y / current) * len)
    }
}

impl Geometry for FloatGeometry {
    fn koch_points(&self, a: Vec2, b: Vec2) -> (Vec2, Vec2, Vec2) {
        let (ax, ay) = (fb(a.x), fb(a.y));
        let (bx, by) = (fb(b.x), fb(b.y));
        let (vx, vy) = (bx - ax, by - ay);
        (
            v2(ax + vx / 3.0, ay + vy / 3.0),
            v2(ax + vx / 2.0 + vy / 4.0, ay + vy / 2.0 + (-vx) / 4.0),
            v2(bx + (-vx) / 3.0, by + (-vy) / 3.0),
        )
    }

    fn midpoint(&self, a: Vec2, b: Vec2) -> Vec2 {
        let (ax, ay) = (fb(a.x), fb(a.y));
        let (bx, by) = (fb(b.x), fb(b.y));
        v2(ax + (bx - ax) / 2.0, ay + (by - ay) / 2.0)
    }

    fn branch_tips(
        &self,
        top: Vec2,
        bottom: Vec2,
        left_steps: u8,
        right_steps: u8,
    ) -> (Vec2, Vec2) {
        let (tx, ty) = (fb(top.x), fb(top.y));
        let (vx, vy) = (tx - fb(bottom.x), ty - fb(bottom.y));
        let la = std::f32::consts::PI * (left_steps as f32 * 0.05);
        let ra = std::f32::consts::PI * (right_steps as f32 * 0.05);
        let ccw = (vx * la.cos() - vy * la.sin(), vx * la.sin() + vy * la.cos());
        let cw = (vx * ra.cos() + vy * ra.sin(), -(vx * ra.sin()) + vy * ra.cos());
        (
            v2(tx + ccw.0 * 0.675, ty + ccw.1 * 0.675),
            v2(tx + cw.0 * 0.675, ty + cw.1 * 0.675),
        )
    }

    fn widen_corners(&self, a: Vec2, b: Vec2, line_width: u32) -> (Vec2, Vec2, Vec2, Vec2) {
        let (ax, ay) = (fb(a.x), fb(a.y));
        let (bx, by) = (fb(b.x), fb(b.y));
        let (vx, vy) = (bx - ax, by - ay);
        let half = fb(line_width) / 2.0;
        let o1 = set_len(-vy, vx, half);
        let o2 = set_len(vy, -vx, half);
        (
            v2(ax + o1.0, ay + o1.1),
            v2(ax + o2.0, ay + o2.1),
            v2(bx + o1.0, by + o1.1),
            v2(bx + o2.0, by + o2.1),
        )
    }
}

fn vx(x: f32, y: f32, it: u32) -> Vertex {
    Vertex { position: v2(x, y), iteration: it }
}

fn key(v: &Vertex) -> (u32, u32, u32) {
    (v.position.x, v.position.y, v.iteration)
}

#[test]
fn reconstruction_is_exact() {
    let vertices = vec![
        vx(0.5, -0.5, 0),
        vx(0.25, 0.75, 1),
        vx(0.5, -0.5, 0),
        vx(-0.1, 0.3, 2),
        vx(0.25, 0.75, 1),
        vx(0.5, -0.5, 3),
    ];
    let (unique, indices) = index(&vertices);
    assert_eq!(indices.len(), vertices.len());
    assert_eq!(unique.len(), 4);
    for (i, v) in vertices.iter().enumerate() {
        assert_eq!(key(&unique[indices[i] as usize]), key(v));
    }
}

#[test]
fn unique_vertices_come_out_sorted_by_bit_pattern() {
    // a descending, duplicate-heavy input: if the parallel sort handed its
    // argument back unchanged, the unique array could not come out in
    // ascending key order
    let vertices = vec![
        vx(0.9, 0.0, 5),
        vx(0.8, 0.0, 4),
        vx(0.7, 0.0, 3),
        vx(0.8, 0.0, 4),
        vx(0.1, 0.0, 0),
        vx(0.9, 0.0, 5),
    ];
    let (unique, indices) = index(&vertices);
    assert_eq!(unique.len(), 4);
    for w in unique.windows(2) {
        assert!(key(&w[0]) < key(&w[1]));
    }
    for (i, v) in vertices.iter().enumerate() {
        assert_eq!(key(&unique[indices[i] as usize]), key(v));
    }
}

#[test]
fn deduplication_is_idempotent() {
    let vertices = vec![
        vx(0.5, -0.5, 0),
        vx(0.25, 0.75, 1),
        vx(0.5, -0.5, 0),
        vx(-0.1, 0.3, 2),
        vx(0.5, -0.5, 0),
    ];
    let (unique, _) = index(&vertices);
    let (unique2, indices2) = index(&unique);
    assert_eq!(unique2.len(), unique.len());
    for (a, b) in unique2.iter().zip(unique.iter()) {
        assert_eq!(key(a), key(b));
    }
    let expect: Vec<u32> = (0..unique.len() as u32).collect();
    assert_eq!(indices2, expect);
}

#[test]
fn signed_zero_and_nan_patterns_stay_distinct() {
    let nan1 = f32::NAN;
    let nan2 = f32::from_bits(f32::NAN.to_bits() ^ 1);
    let vertices = vec![
        vx(0.0, 1.0, 0),
        vx(-0.0, 1.0, 0),
        vx(nan1, 0.0, 0),
        vx(nan2, 0.0, 0),
        vx(nan1, 0.0, 0),
    ];
    let (unique, indices) = index(&vertices);
    // 0.0 and -0.0 differ in bits, as do the two NaN payloads
    assert_eq!(unique.len(), 4);
    for (i, v) in vertices.iter().enumerate() {
        assert_eq!(key(&unique[indices[i] as usize]), key(v));
    }
    assert_eq!(indices[2], indices[4]);
}

#[test]
fn same_position_different_tag_stays_distinct() {
    let vertices = vec![vx(0.5, 0.5, 0), vx(0.5, 0.5, 1)];
    let (unique, _) = index(&vertices);
    assert_eq!(unique.len(), 2);
}

#[test]
fn widening_a_single_segment_forms_a_rectangle() {
    let w = 0.5f32;
    let vertices = vec![vx(0.0, 0.0, 3), vx(1.0, 0.0, 7)];
    let out = lines_as_triangles(&FloatGeometry, &vertices, w.to_bits());
    assert_eq!(out.len(), 6);
    let p: Vec<(f32, f32)> = out.iter().map(|v| (fb(v.position.x), fb(v.position.y))).collect();
    // corners: both endpoints displaced by (0, 0.25) and (0, -0.25)
    let (a1, a2, b1, b2) = ((0.0, 0.25), (0.0, -0.25), (1.0, 0.25), (1.0, -0.25));
    assert_eq!(p, vec![a1, a2, b1, b1, a2, b2]);
    // two triangles whose union is the rectangle of width 2 * 0.25 = w
    // centered on the segment; the endpoint tags propagate unchanged
    let tags: Vec<u32> = out.iter().map(|v| v.iteration).collect();
    assert_eq!(tags, vec![3, 3, 7, 7, 3, 7]);
}

#[test]
fn widening_empty_input_gives_empty_output() {
    let out = lines_as_triangles(&FloatGeometry, &Vec::new(), 0.5f32.to_bits());
    assert!(out.is_empty());
}

#[test]
fn bench_line_width_bit_pattern() {
    assert_eq!(benchmark::BENCH_LINE_WIDTH, 0.005f32.to_bits());
}

#[test]
fn benchmark_pipeline_counts() {
    // Koch at the third level: 96 line vertices widened to 288, all indexed
    let (unique, indices) = benchmark::run(&FloatGeometry, 3, Curves::KochSnowflake);
    assert_eq!(indices.len(), 288);
    assert!(unique.len() <= indices.len());
    for w in unique.windows(2) {
        assert!(key(&w[0]) < key(&w[1]));
    }
    for ix in &indices {
        assert!((*ix as usize) < unique.len());
    }
    // Sierpinski needs no widening: 27 triangle vertices at its third level
    let (_, indices) = benchmark::run(&FloatGeometry, 4, Curves::SierpinskiTriangle);
    assert_eq!(indices.len(), 81);
}

#[test]
fn benchmark_runs_are_bit_identical() {
    let (u1, i1) = benchmark::run(&FloatGeometry, 4, Curves::Canopy);
    let (u2, i2) = benchmark::run(&FloatGeometry, 4, Curves::Canopy);
    assert_eq!(i1, i2);
    assert_eq!(u1.len(), u2.len());
    for (a, b) in u1.iter().zip(u2.iter()) {
        assert_eq!(key(a), key(b));
    }
}

#[test]
fn orthogonal_flips_exactly_the_sign_bit() {
    let v = v2(0.75, -0.45);
    let o = v.clockwise_orthogonal();
    assert_eq!(fb(o.x), -0.45);
    assert_eq!(fb(o.y), -0.75);
    // negation of a float is exactly a sign-bit flip
    assert_eq!(o.y, (-fb(v.x)).to_bits());
}
