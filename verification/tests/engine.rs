use fractal_curves::canopy::{ANGLE_STEPS_MAX, INITIAL_LEFT_STEPS, INITIAL_RIGHT_STEPS};
use fractal_curves::curves::Curves;
use fractal_curves::geometry::Geometry;
use fractal_curves::vec2::Vec2;
use fractal_curves::vertex::{Vertex, VertexFormat};

/// The pointwise f32 arithmetic of the subdivision rules, mirroring the
/// reference formulas: coordinates travel as exact bit patterns.
struct FloatGeometry;

fn fb(bits: u32) -> f32 {
    f32::from_bits(bits)
}

fn v2(x: f32, y: f32) -> Vec2 {
    Vec2 { x: x.to_bits(), y: y.to_bits() }
}

fn set_len(x: f32, y: f32, len: f32) -> (f32, f32) {
    let current = x.hypot(y);
    if current == len {
        (x, y)
    } else {
        ((x / current) * len, (y / current) * len)
    }
}

impl Geometry for FloatGeometry {
    fn koch_points(&self, a: Vec2, b: Vec2) -> (Vec2, Vec2, Vec2) {
        let (ax, ay) = (fb(a.x), fb(a.y));
        let (bx, by) = (fb(b.x), fb(b.y));
        let (vx, vy) = (bx - ax, by - ay);
        let third_a = v2(ax + vx / 3.0, ay + vy / 3.0);
        let third_b = v2(bx + (-vx) / 3.0, by + (-vy) / 3.0);
        // the clockwise orthogonal of (vx, vy) is (vy, -vx)
        let top = v2(ax + vx / 2.0 + vy / 4.0, ay + vy / 2.0 + (-vx) / 4.0);
        (third_a, top, third_b)
    }

    fn midpoint(&self, a: Vec2, b: Vec2) -> Vec2 {
        let (ax, ay) = (fb(a.x), fb(a.y));
        let (bx, by) = (fb(b.x), fb(b.y));
        v2(ax + (bx - ax) / 2.0, ay + (by - ay) / 2.0)
    }

    fn branch_tips(
        &self,
        top: Vec2,
        bottom: Vec2,
        left_steps: u8,
        right_steps: u8,
    ) -> (Vec2, Vec2) {
        let (tx, ty) = (fb(top.x), fb(top.y));
        let (vx, vy) = (tx - fb(bottom.x), ty - fb(bottom.y));
        let la = std::f32::consts::PI * (left_steps as f32 * 0.05);
        let ra = std::f32::consts::PI * (right_steps as f32 * 0.05);
        let ccw = (vx * la.cos() - vy * la.sin(), vx * la.sin() + vy * la.cos());
        let cw = (vx * ra.cos() + vy * ra.sin(), -(vx * ra.sin()) + vy * ra.cos());
        let factor = 0.675;
        (
            v2(tx + ccw.0 * factor, ty + ccw.1 * factor),
            v2(tx + cw.0 * factor, ty + cw.1 * factor),
        )
    }

    fn widen_corners(&self, a: Vec2, b: Vec2, line_width: u32) -> (Vec2, Vec2, Vec2, Vec2) {
        let (ax, ay) = (fb(a.x), fb(a.y));
        let (bx, by) = (fb(b.x), fb(b.y));
        let (vx, vy) = (bx - ax, by - ay);
        let half = fb(line_width) / 2.0;
        let o1 = set_len(-vy, vx, half);
        let o2 = set_len(vy, -vx, half);
        (
            v2(ax + o1.0, ay + o1.1),
            v2(ax + o2.0, ay + o2.1),
            v2(bx + o1.0, by + o1.1),
            v2(bx + o2.0, by + o2.1),
        )
    }
}

fn positions(vs: &[Vertex]) -> Vec<(f32, f32)> {
    vs.iter().map(|v| (fb(v.position.x), fb(v.position.y))).collect()
}

#[test]
fn koch_seed_bit_patterns_match_floats() {
    let mut c = Curves::KochSnowflake.new_instance();
    let seed = c.vertices(&FloatGeometry, 0).clone();
    assert_eq!(seed.len(), 6);
    let expect = [
        (-0.75f32, -0.45f32),
        (0.75, -0.45),
        (0.75, -0.45),
        (0.0, 0.75),
        (0.0, 0.75),
        (-0.75, -0.45),
    ];
    for (v, (ex, ey)) in seed.iter().zip(expect.iter()) {
        assert_eq!(v.position.x, ex.to_bits());
        assert_eq!(v.position.y, ey.to_bits());
        assert_eq!(v.iteration, 0);
    }
}

#[test]
fn canopy_and_sierpinski_seed_bit_patterns() {
    let mut c = Curves::Canopy.new_instance();
    let seed = c.vertices(&FloatGeometry, 0).clone();
    assert_eq!(positions(&seed), vec![(0.0, -0.25), (0.0, -0.75)]);
    assert!(seed.iter().all(|v| v.iteration == 0));

    let mut s = Curves::SierpinskiTriangle.new_instance();
    let seed = s.vertices(&FloatGeometry, 0).clone();
    assert_eq!(positions(&seed), vec![(0.0, 0.75), (-0.75, -0.75), (0.75, -0.75)]);
    assert!(seed.iter().all(|v| v.iteration == 0));
}

#[test]
fn koch_counts_and_format() {
    let mut c = Curves::KochSnowflake.new_instance();
    assert!(matches!(c.vertex_format(), VertexFormat::Lines));
    assert_eq!(c.vertices(&FloatGeometry, 0).len(), 6);
    assert_eq!(c.vertices(&FloatGeometry, 1).len(), 24);
    assert_eq!(c.vertices(&FloatGeometry, 2).len(), 96);
    assert_eq!(c.default_iteration(), 5);
}

#[test]
fn sierpinski_counts_and_format() {
    let mut c = Curves::SierpinskiTriangle.new_instance();
    assert!(matches!(c.vertex_format(), VertexFormat::Triangles));
    assert_eq!(c.vertices(&FloatGeometry, 0).len(), 3);
    assert_eq!(c.vertices(&FloatGeometry, 1).len(), 9);
    assert_eq!(c.vertices(&FloatGeometry, 2).len(), 27);
}

#[test]
fn canopy_counts_follow_recurrence() {
    let mut c = Curves::Canopy.new_instance();
    assert!(matches!(c.vertex_format(), VertexFormat::Lines));
    // 2, 6, 14, 30: each level adds four vertices per doubling tip count
    assert_eq!(c.vertices(&FloatGeometry, 0).len(), 2);
    assert_eq!(c.vertices(&FloatGeometry, 1).len(), 6);
    assert_eq!(c.vertices(&FloatGeometry, 2).len(), 14);
    assert_eq!(c.vertices(&FloatGeometry, 3).len(), 30);
    assert_eq!(c.default_iteration(), 11);
}

#[test]
fn koch_level_one_geometry() {
    let mut c = Curves::KochSnowflake.new_instance();
    let level = c.vertices(&FloatGeometry, 1).clone();
    // first input segment: a = (-0.75, -0.45), b = (0.75, -0.45)
    let (ax, ay) = (-0.75f32, -0.45f32);
    let (bx, by) = (0.75f32, -0.45f32);
    let (vx, vy) = (bx - ax, by - ay);
    let third_a = (ax + vx / 3.0, ay + vy / 3.0);
    let third_b = (bx + (-vx) / 3.0, by + (-vy) / 3.0);
    let top = (ax + vx / 2.0 + vy / 4.0, ay + vy / 2.0 + (-vx) / 4.0);
    let got = positions(&level[0..8]);
    assert_eq!(
        got,
        vec![(ax, ay), third_a, third_a, top, top, third_b, third_b, (bx, by)]
    );
    // the apex of the bottom edge points downward, away from the triangle
    assert!(top.1 < ay);
    // endpoint tags carried over, apex tagged with the current iteration
    let tags: Vec<u32> = level[0..8].iter().map(|v| v.iteration).collect();
    assert_eq!(tags, vec![0, 0, 0, 1, 1, 0, 0, 0]);
}

#[test]
fn sierpinski_level_one_geometry() {
    let mut c = Curves::SierpinskiTriangle.new_instance();
    let level = c.vertices(&FloatGeometry, 1).clone();
    let top = (0.0f32, 0.75f32);
    let left = (-0.75f32, -0.75f32);
    let right = (0.75f32, -0.75f32);
    let tl = (-0.375f32, 0.0f32);
    let tr = (0.375f32, 0.0f32);
    let bottom = (0.0f32, -0.75f32);
    assert_eq!(
        positions(&level),
        vec![top, tl, tr, tl, left, bottom, tr, bottom, right]
    );
    // the central triangle is discarded; every vertex carries the new tag
    assert!(level.iter().all(|v| v.iteration == 1));
}

#[test]
fn identical_runs_are_bit_identical() {
    for kind in [Curves::Canopy, Curves::KochSnowflake, Curves::SierpinskiTriangle] {
        let mut c1 = kind.new_instance();
        let mut c2 = kind.new_instance();
        let a = c1.vertices(&FloatGeometry, 6).clone();
        let b = c2.vertices(&FloatGeometry, 6).clone();
        assert_eq!(a.len(), b.len());
        for (x, y) in a.iter().zip(b.iter()) {
            assert_eq!(x.position.x, y.position.x);
            assert_eq!(x.position.y, y.position.y);
            assert_eq!(x.iteration, y.iteration);
        }
    }
}

#[test]
fn memoized_levels_are_reused_bitwise() {
    let mut c = Curves::KochSnowflake.new_instance();
    let first = c.vertices(&FloatGeometry, 3).clone();
    c.vertices(&FloatGeometry, 5);
    let again = c.vertices(&FloatGeometry, 3).clone();
    assert_eq!(first.len(), again.len());
    for (x, y) in first.iter().zip(again.iter()) {
        assert_eq!((x.position.x, x.position.y, x.iteration), (y.position.x, y.position.y, y.iteration));
    }
}

#[test]
fn angle_adjust_clamps_and_reports() {
    let mut c = Curves::Canopy.new_instance();
    // left angle starts at 4 steps; incrementing reaches the maximum of 10
    // after six successful changes, then keeps reporting no change
    let mut successes = 0;
    loop {
        match c.change_angle(true, true) {
            Some(true) => successes += 1,
            Some(false) => break,
            None => panic!("a canopy must answer angle adjustments"),
        }
        assert!(successes <= 32, "the clamp must stop the climb");
    }
    assert_eq!(successes, (ANGLE_STEPS_MAX - INITIAL_LEFT_STEPS) as i32);
    assert_eq!(c.change_angle(true, true), Some(false));
    assert_eq!(c.change_angle(true, true), Some(false));
    // the other direction still works, on the other angle as well
    assert_eq!(c.change_angle(false, true), Some(true));
    let mut successes = 0;
    loop {
        match c.change_angle(false, false) {
            Some(true) => successes += 1,
            Some(false) => break,
            None => panic!("a canopy must answer angle adjustments"),
        }
        assert!(successes <= 32, "the clamp must stop the descent");
    }
    assert_eq!(successes, (INITIAL_RIGHT_STEPS - 1) as i32);
}

#[test]
fn angle_adjust_resets_cache_to_seed() {
    let mut c = Curves::Canopy.new_instance();
    let seed = c.vertices(&FloatGeometry, 0).clone();
    c.vertices(&FloatGeometry, 4);
    assert_eq!(c.change_angle(true, true), Some(true));
    // the memo table was cut back to the seed; recomputation still works
    let seed_again = c.vertices(&FloatGeometry, 0).clone();
    assert_eq!(positions(&seed), positions(&seed_again));
    assert_eq!(c.vertices(&FloatGeometry, 2).len(), 14);
}

#[test]
fn non_canopy_curves_refuse_angle_adjust() {
    let mut k = Curves::KochSnowflake.new_instance();
    assert_eq!(k.change_angle(true, true), None);
    let mut s = Curves::SierpinskiTriangle.new_instance();
    assert_eq!(s.change_angle(false, false), None);
}

#[test]
fn kind_cycling_wraps_both_ways() {
    let mut k = Curves::Canopy;
    k.next();
    assert_eq!(k, Curves::KochSnowflake);
    k.next();
    assert_eq!(k, Curves::SierpinskiTriangle);
    k.next();
    assert_eq!(k, Curves::Canopy);
    k.prev();
    assert_eq!(k, Curves::SierpinskiTriangle);
    k.prev();
    assert_eq!(k, Curves::KochSnowflake);
    k.prev();
    assert_eq!(k, Curves::Canopy);
}

#[test]
fn canopy_keeps_old_segments_and_grows_tips() {
    let mut c = Curves::Canopy.new_instance();
    let level1 = c.vertices(&FloatGeometry, 1).clone();
    let level2 = c.vertices(&FloatGeometry, 2).clone();
    // the previous level survives, bitwise, as the tail of the next
    let tail = &level2[level2.len() - level1.len()..];
    for (x, y) in tail.iter().zip(level1.iter()) {
        assert_eq!((x.position.x, x.position.y, x.iteration), (y.position.x, y.position.y, y.iteration));
    }
    // new child segments are stored tip first and tagged with the pass
    assert_eq!(level2[0].iteration, 2);
    assert_eq!(level2[2].iteration, 2);
}
