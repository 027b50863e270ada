use raytracer::distance::Distance;
use raytracer::scene::{nearest_surface, shadowed, Surface};

fn met(value: f32) -> Option<Distance> {
    Some(Distance::from_bits(value.to_bits()).expect("a non-negative number"))
}

#[test]
fn nothing_met_is_no_hit() {
    assert_eq!(nearest_surface(None, &[None, None, None, None]), None);
    assert_eq!(nearest_surface(None, &[]), None);
}

#[test]
fn ground_alone_is_hit() {
    assert_eq!(nearest_surface(met(20f32), &[None, None, None, None]), Some(Surface::Ground));
    assert_eq!(nearest_surface(met(20f32), &[]), Some(Surface::Ground));
}

#[test]
fn ray_towards_the_first_sphere_hits_it() {
    // From the origin towards a centre at (-3, 0, -16) with radius 2 the ray
    // runs level, so the ground is never met, and it passes the other spheres.
    let length = (3f32 * 3f32 + 16f32 * 16f32).sqrt() - 2f32;
    assert_eq!(nearest_surface(None, &[met(length), None, None, None]), Some(Surface::Sphere(0)));
}

#[test]
fn nearest_sphere_wins_wherever_it_stands() {
    assert_eq!(
        nearest_surface(None, &[met(9f32), met(7f32), met(8f32), None]),
        Some(Surface::Sphere(1))
    );
    assert_eq!(
        nearest_surface(None, &[met(9f32), met(8f32), met(7.5f32), met(7f32)]),
        Some(Surface::Sphere(3))
    );
    assert_eq!(
        nearest_surface(None, &[met(1f32), met(8f32), met(7.5f32), met(7f32)]),
        Some(Surface::Sphere(0))
    );
}

#[test]
fn sphere_before_the_ground_hides_it() {
    assert_eq!(
        nearest_surface(met(15f32), &[None, met(12f32), None, None]),
        Some(Surface::Sphere(1))
    );
}

#[test]
fn ground_before_the_spheres_is_hit() {
    assert_eq!(
        nearest_surface(met(11f32), &[met(14f32), met(12f32), None, None]),
        Some(Surface::Ground)
    );
}

#[test]
fn equal_distances_keep_the_first_tried() {
    assert_eq!(nearest_surface(met(5f32), &[met(5f32), met(5f32)]), Some(Surface::Ground));
    assert_eq!(nearest_surface(None, &[met(5f32), met(5f32)]), Some(Surface::Sphere(0)));
    assert_eq!(
        nearest_surface(met(6f32), &[None, met(5f32), met(5f32)]),
        Some(Surface::Sphere(1))
    );
}

#[test]
fn nothing_counts_from_the_far_limit_on() {
    assert_eq!(nearest_surface(met(1000f32), &[None, None]), None);
    assert_eq!(nearest_surface(None, &[met(1000f32), met(2000f32)]), None);
    assert_eq!(nearest_surface(met(1e10f32), &[met(f32::INFINITY)]), None);
    assert_eq!(nearest_surface(met(999.9999f32), &[met(1000f32)]), Some(Surface::Ground));
    assert_eq!(nearest_surface(met(1000f32), &[met(999.9999f32)]), Some(Surface::Sphere(0)));
}

#[test]
fn light_behind_a_nearer_surface_is_shadowed() {
    let light = Distance::from_bits(30f32.to_bits()).unwrap();
    assert!(shadowed(met(4f32), light));
    assert!(shadowed(met(29.999f32), light));
}

#[test]
fn light_is_seen_where_nothing_is_nearer() {
    let light = Distance::from_bits(30f32.to_bits()).unwrap();
    assert!(!shadowed(None, light));
    assert!(!shadowed(met(30f32), light));
    assert!(!shadowed(met(31f32), light));
}
