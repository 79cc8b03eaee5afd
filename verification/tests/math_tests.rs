use arena_sim::bvh::SpatialIndex;
use arena_sim::bvh::Value;
use arena_sim::geom::Aabb;
use arena_sim::geom::Vec2i;
use arena_sim::trig::aim_velocity;
use arena_sim::trig::atan2_mrad;
use arena_sim::trig::isqrt;
use arena_sim::trig::sin_mrad;
use arena_sim::trig::vec_from_angle;

#[test]
fn isqrt_exact_values() {
    assert_eq!(isqrt(0), 0);
    assert_eq!(isqrt(1), 1);
    assert_eq!(isqrt(15), 3);
    assert_eq!(isqrt(16), 4);
    assert_eq!(isqrt(1_000_000), 1000);
    assert_eq!(isqrt(u64::MAX), 4_294_967_295);
}

#[test]
fn atan2_on_the_axes() {
    assert_eq!(atan2_mrad(0, 5), 0);
    assert_eq!(atan2_mrad(5, 0), 1571);
    assert_eq!(atan2_mrad(0, -5), 3142);
    assert_eq!(atan2_mrad(-5, 0), -1571);
    assert_eq!(atan2_mrad(0, 0), 0);
}

#[test]
fn atan2_stays_in_range() {
    let probes: [(i64, i64); 8] =
        [(3, 4), (-3, 4), (3, -4), (-3, -4), (1000, 1), (1, 1000), (-999, 998), (7, 7)];
    for (y, x) in probes {
        let a = atan2_mrad(y, x);
        assert!(-3142 <= a && a <= 3142);
    }
}

#[test]
fn unit_vector_from_angle() {
    assert_eq!(vec_from_angle(0), Vec2i { x: 0, y: 1000 });
    assert_eq!(vec_from_angle(1571), Vec2i { x: 1000, y: 0 });
    assert_eq!(sin_mrad(0), 0);
    assert_eq!(sin_mrad(1571), 1000);
    for a in [-4000i64, -1571, -100, 100, 3142, 5000] {
        let v = vec_from_angle(a);
        assert!(-1000 <= v.x && v.x <= 1000);
        assert!(-1000 <= v.y && v.y <= 1000);
    }
}

#[test]
fn aim_velocity_exact_on_axes_and_pythagorean() {
    let o = Vec2i { x: 0, y: 0 };
    assert_eq!(aim_velocity(o, Vec2i { x: 10, y: 0 }, 5), Vec2i { x: 5, y: 0 });
    assert_eq!(aim_velocity(o, Vec2i { x: -10, y: 0 }, 5), Vec2i { x: -5, y: 0 });
    assert_eq!(aim_velocity(o, Vec2i { x: 0, y: -10 }, 5), Vec2i { x: 0, y: -5 });
    assert_eq!(aim_velocity(o, o, 5), Vec2i { x: 0, y: 0 });
    // a 3-4-5 triangle scales exactly
    assert_eq!(
        aim_velocity(o, Vec2i { x: 3000, y: 4000 }, 1000),
        Vec2i { x: 600, y: 800 }
    );
}

fn boxed(min_x: i64, min_y: i64, max_x: i64, max_y: i64) -> Aabb {
    Aabb { min_x, min_y, max_x, max_y }
}

#[test]
fn empty_index_answers_every_query_with_nothing() {
    let idx = SpatialIndex::build(&Vec::new());
    let out = idx.query(&boxed(-1_000_000, -1_000_000, 1_000_000, 1_000_000));
    assert!(out.is_empty());
    let out2 = idx.query(&boxed(5, 5, 6, 6));
    assert!(out2.is_empty());
}

#[test]
fn index_query_returns_exactly_the_overlapping_entries() {
    let mut vs: Vec<Value> = Vec::new();
    vs.push(Value::new(boxed(0, 0, 10, 10), 0));
    vs.push(Value::new(boxed(100, 100, 110, 110), 1));
    vs.push(Value::new(boxed(5, 5, 20, 20), 2));
    let idx = SpatialIndex::build(&vs);
    let out = idx.query(&boxed(8, 8, 9, 9));
    let indices: Vec<u16> = out.iter().map(|v| v.index).collect();
    assert_eq!(indices, vec![0, 2]);
    let far = idx.query(&boxed(500, 500, 600, 600));
    assert!(far.is_empty());
}

#[test]
fn value_keeps_its_bound_and_margin_bound_equal() {
    let b = boxed(1, 2, 3, 4);
    let v = Value::new(b, 7);
    assert_eq!(*v.bound(), b);
    assert_eq!(v.get_bound_with_margin(), b);
    assert_eq!(v.index, 7);
}
