use raytracer::ray::{Bounce, Ray, Shade};
use raytracer::scalar::{INFINITY, SHADOW_EPSILON};
use raytracer::vec::Vec3;

fn key(x: f64) -> i64 {
    let bits = x.to_bits();
    let mag = (bits & 0x7FFF_FFFF_FFFF_FFFF) as i64;
    if bits >> 63 == 1 {
        -mag
    } else {
        mag
    }
}

fn vec3(x: f64, y: f64, z: f64) -> Vec3 {
    Vec3::new((key(x), key(y), key(z)))
}

#[test]
fn ray_new_and_getters() {
    let r = Ray::new(vec3(1.0, 2.0, 3.0), vec3(0.0, -1.0, 0.5), key(0.25));
    assert_eq!(r.orig(), vec3(1.0, 2.0, 3.0));
    assert_eq!(r.direction(), vec3(0.0, -1.0, 0.5));
    assert_eq!(r.time(), key(0.25));
    assert_eq!(Ray::default(), Ray::new(vec3(0.0, 0.0, 0.0), vec3(0.0, 0.0, 0.0), key(0.0)));
}

#[test]
fn ray_mutable_parts() {
    let mut r = Ray::default();
    *r.orig_mut() = vec3(1.0, 1.0, 1.0);
    *r.direction_mut() = vec3(0.0, 0.0, -1.0);
    *r.time_mut() = key(0.5);
    assert_eq!(r, Ray::new(vec3(1.0, 1.0, 1.0), vec3(0.0, 0.0, -1.0), key(0.5)));
}

#[test]
fn path_range_starts_just_off_the_surface() {
    assert_eq!(Ray::path_range(), (key(0.001), key(f64::INFINITY)));
    assert_eq!(Ray::path_range(), (SHADOW_EPSILON, INFINITY));
}

#[test]
fn ray_color_by_depth_and_bounce() {
    for bounce in [Bounce::Miss, Bounce::Absorbed, Bounce::Scattered] {
        assert_eq!(Ray::ray_color(0, bounce), Shade::Black);
        assert_eq!(Ray::ray_color(-1, bounce), Shade::Black);
        assert_eq!(Ray::ray_color(isize::MIN, bounce), Shade::Black);
    }
    assert_eq!(Ray::ray_color(1, Bounce::Miss), Shade::Background);
    assert_eq!(Ray::ray_color(1, Bounce::Absorbed), Shade::Emitted);
    assert_eq!(Ray::ray_color(1, Bounce::Scattered), Shade::Scattered { depth: 0 });
    assert_eq!(Ray::ray_color(50, Bounce::Scattered), Shade::Scattered { depth: 49 });
    assert_eq!(Ray::ray_color(isize::MAX, Bounce::Scattered), Shade::Scattered { depth: isize::MAX - 1 });
}

#[test]
fn path_sends_no_more_rays_than_its_depth() {
    for depth in 0..6isize {
        let mut left = depth;
        let mut sent = 0;
        loop {
            match Ray::ray_color(left, Bounce::Scattered) {
                Shade::Scattered { depth: rest } => {
                    sent += 1;
                    left = rest;
                }
                Shade::Black => break,
                _ => panic!("a scattered ray neither ends the path nor misses"),
            }
        }
        assert_eq!(sent, depth);
    }
}

#[test]
fn path_is_exhausted_without_depth() {
    assert!(Ray::exhausted(0));
    assert!(Ray::exhausted(-3));
    assert!(!Ray::exhausted(1));
    assert!(!Ray::exhausted(50));
}
