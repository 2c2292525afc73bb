use tabletop::geometry::{dot, dot_of_difference, intersect, Ray, Vec3, STEPS_PER_UNIT};

fn up() -> Vec3 {
    Vec3::new(0, 1, 0)
}

#[test]
fn plane_intersection_has_the_height_of_the_plane() {
    let ray = Ray { origin: Vec3::new(1000, 10000, 2000), direction: Vec3::new(1, -2, 0) };
    assert_eq!(intersect(ray, Vec3::new(0, 0, 0), up()), Some(Vec3::new(6000, 0, 2000)));
    assert_eq!(intersect(ray, Vec3::new(0, 375, 0), up()), Some(Vec3::new(5812, 375, 2000)));
}

#[test]
fn plane_intersection_height_is_exact_when_other_coordinates_round() {
    let ray = Ray { origin: Vec3::new(17, 1001, -29), direction: Vec3::new(3, -7, 5) };
    for height in [-500, -1, 0, 1, 375, 1000] {
        let hit = intersect(ray, Vec3::new(123, height, -456), up()).unwrap();
        assert_eq!(hit.y, height);
    }
}

#[test]
fn ray_parallel_to_plane_yields_no_intersection() {
    let ray = Ray { origin: Vec3::new(0, 5000, 0), direction: Vec3::new(3, 0, -4) };
    assert_eq!(intersect(ray, Vec3::new(0, 0, 0), up()), None);
}

#[test]
fn ray_inside_plane_yields_no_intersection() {
    let ray = Ray { origin: Vec3::new(0, 0, 0), direction: Vec3::new(1, 0, 0) };
    assert_eq!(intersect(ray, Vec3::new(0, 0, 0), up()), None);
}

#[test]
fn ray_without_direction_yields_no_intersection() {
    let ray = Ray { origin: Vec3::new(0, 5000, 0), direction: Vec3::new(0, 0, 0) };
    assert_eq!(intersect(ray, Vec3::new(0, 0, 0), up()), None);
}

#[test]
fn plane_behind_the_origin_is_not_hit() {
    let ray = Ray { origin: Vec3::new(0, 5000, 0), direction: Vec3::new(1, 2, 0) };
    assert_eq!(intersect(ray, Vec3::new(0, 0, 0), up()), None);
    let below = Ray { origin: Vec3::new(0, -5000, 0), direction: Vec3::new(1, -2, 0) };
    assert_eq!(intersect(below, Vec3::new(0, 0, 0), up()), None);
}

#[test]
fn ray_that_starts_on_the_plane_hits_at_its_origin() {
    let ray = Ray { origin: Vec3::new(40, 0, -70), direction: Vec3::new(1, -2, 3) };
    assert_eq!(intersect(ray, Vec3::new(0, 0, 0), up()), Some(Vec3::new(40, 0, -70)));
}

#[test]
fn ray_from_below_hits_the_plane_above() {
    let ray = Ray { origin: Vec3::new(0, -4000, 0), direction: Vec3::new(1, 2, -1) };
    assert_eq!(intersect(ray, Vec3::new(0, 0, 0), up()), Some(Vec3::new(2000, 0, -2000)));
}

#[test]
fn turning_the_normal_over_changes_nothing() {
    let ray = Ray { origin: Vec3::new(17, 1001, -29), direction: Vec3::new(3, -7, 5) };
    let down = Vec3::new(0, -1, 0);
    assert_eq!(
        intersect(ray, Vec3::new(0, 0, 0), up()),
        intersect(ray, Vec3::new(0, 0, 0), down)
    );
}

#[test]
fn length_of_direction_and_normal_do_not_matter() {
    let short = Ray { origin: Vec3::new(1000, 10000, 2000), direction: Vec3::new(1, -2, 0) };
    let long = Ray { origin: Vec3::new(1000, 10000, 2000), direction: Vec3::new(500, -1000, 0) };
    let far_normal = Vec3::new(0, 1000, 0);
    assert_eq!(intersect(short, Vec3::new(0, 0, 0), up()), Some(Vec3::new(6000, 0, 2000)));
    assert_eq!(intersect(long, Vec3::new(0, 0, 0), up()), Some(Vec3::new(6000, 0, 2000)));
    assert_eq!(intersect(short, Vec3::new(0, 0, 0), far_normal), Some(Vec3::new(6000, 0, 2000)));
}

#[test]
fn meeting_point_is_rounded_down() {
    let right = Ray { origin: Vec3::new(0, 3, 0), direction: Vec3::new(1, -2, 0) };
    assert_eq!(intersect(right, Vec3::new(0, 0, 0), up()), Some(Vec3::new(1, 0, 0)));
    let left = Ray { origin: Vec3::new(0, 3, 0), direction: Vec3::new(-1, -2, 0) };
    assert_eq!(intersect(left, Vec3::new(0, 0, 0), up()), Some(Vec3::new(-2, 0, 0)));
}

#[test]
fn tilted_plane_is_hit() {
    // The plane x + y = 10, met by a ray along x from the origin.
    let ray = Ray { origin: Vec3::new(0, 0, 0), direction: Vec3::new(1, 0, 0) };
    let hit = intersect(ray, Vec3::new(10, 0, 0), Vec3::new(1, 1, 0));
    assert_eq!(hit, Some(Vec3::new(10, 0, 0)));
}

#[test]
fn nearly_parallel_ray_that_meets_beyond_the_world_yields_no_intersection() {
    let ray = Ray {
        origin: Vec3::new(0, 2_000_000_000, 0),
        direction: Vec3::new(2_000_000_000, -1, 0),
    };
    assert_eq!(intersect(ray, Vec3::new(0, 0, 0), up()), None);
}

#[test]
fn intersect_takes_the_largest_coordinates() {
    let extremes = [i32::MIN, -1, 0, 1, i32::MAX];
    for &a in &extremes {
        for &b in &extremes {
            for &c in &extremes {
                let ray = Ray { origin: Vec3::new(a, b, c), direction: Vec3::new(c, a, b) };
                let hit = intersect(ray, Vec3::new(b, c, a), Vec3::new(a, c, b));
                if let Some(point) = hit {
                    // A hit never lies behind the origin, along the direction.
                    let along = dot_of_difference(point, ray.origin, ray.direction);
                    assert!(along >= 0 || ray.direction == Vec3::new(0, 0, 0));
                }
            }
        }
    }
}

#[test]
fn dot_product_is_exact() {
    assert_eq!(dot(Vec3::new(1, 2, 3), Vec3::new(4, -5, 6)), 12);
    assert_eq!(dot(Vec3::new(0, 0, 0), Vec3::new(4, -5, 6)), 0);
    let big = Vec3::new(i32::MIN, i32::MIN, i32::MIN);
    assert_eq!(dot(big, big), 3 * (1i128 << 62));
}

#[test]
fn dot_product_of_difference_is_exact() {
    let a = Vec3::new(5, 7, 9);
    let b = Vec3::new(1, 10, 9);
    assert_eq!(dot_of_difference(a, b, Vec3::new(2, 3, 4)), 8 - 9);
    let high = Vec3::new(i32::MAX, i32::MAX, i32::MAX);
    let low = Vec3::new(i32::MIN, i32::MIN, i32::MIN);
    assert_eq!(dot_of_difference(high, low, low), -3 * ((1i128 << 32) - 1) * (1i128 << 31));
}

#[test]
fn checked_add_adds_or_gives_up() {
    assert_eq!(Vec3::new(1, 2, 3).checked_add(Vec3::new(10, -20, 30)), Some(Vec3::new(11, -18, 33)));
    assert_eq!(Vec3::new(i32::MAX, 0, 0).checked_add(Vec3::new(1, 0, 0)), None);
    assert_eq!(Vec3::new(0, i32::MIN, 0).checked_add(Vec3::new(0, -1, 0)), None);
    assert_eq!(Vec3::new(0, 0, i32::MAX).checked_add(Vec3::new(0, 0, 1)), None);
    assert_eq!(
        Vec3::new(i32::MAX, i32::MIN, 0).checked_add(Vec3::new(0, 0, 0)),
        Some(Vec3::new(i32::MAX, i32::MIN, 0))
    );
}

#[test]
fn a_world_unit_has_a_thousand_steps() {
    assert_eq!(STEPS_PER_UNIT, 1000);
}
