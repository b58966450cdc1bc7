use raytracer::hittable::HitRecord;
use raytracer::material::{Dielectric, DiffuseLight, Isotropic, Lambertian, Material, Metal};
use raytracer::ray::{Bounce, Ray, Shade};
use raytracer::texture::{SolidColor, TextureRef};
use raytracer::vec::Vec3;

fn key(x: f64) -> i64 {
    let bits = x.to_bits();
    let mag = (bits & 0x7FFF_FFFF_FFFF_FFFF) as i64;
    if bits >> 63 == 1 {
        -mag
    } else {
        mag
    }
}

fn vec3(x: f64, y: f64, z: f64) -> Vec3 {
    Vec3::new((key(x), key(y), key(z)))
}

fn hit_record() -> HitRecord {
    let mut rec = HitRecord::default();
    rec.p = vec3(1.0, 2.0, 3.0);
    rec.normal = vec3(0.0, 1.0, 0.0);
    rec.t = key(4.5);
    rec.front_face = true;
    rec
}

fn incoming() -> Ray {
    Ray::new(vec3(0.0, 5.0, 0.0), vec3(0.3, -1.0, 0.2), key(0.75))
}

#[test]
fn lambertian_scatters_along_the_candidate() {
    let m = Lambertian::new(vec3(0.5, 0.6, 0.7));
    let mut attention = Vec3::default();
    let mut scattered = Ray::default();
    let ok = m.scatter(
        &incoming(),
        &hit_record(),
        &mut attention,
        &mut scattered,
        vec3(0.2, 1.4, -0.3),
        vec3(9.0, 9.0, 9.0),
    );
    assert!(ok);
    assert_eq!(attention, vec3(0.5, 0.6, 0.7));
    assert_eq!(scattered, Ray::new(vec3(1.0, 2.0, 3.0), vec3(0.2, 1.4, -0.3), key(0.75)));
}

#[test]
fn lambertian_falls_back_to_the_normal() {
    let m = Lambertian::new(vec3(0.5, 0.6, 0.7));
    let mut attention = Vec3::default();
    let mut scattered = Ray::default();
    for candidate in [vec3(0.0, 0.0, 0.0), vec3(1e-9, -1e-9, 5e-9), vec3(-0.0, 0.0, -9.9e-9)] {
        let ok = m.scatter(
            &incoming(),
            &hit_record(),
            &mut attention,
            &mut scattered,
            candidate,
            vec3(9.0, 9.0, 9.0),
        );
        assert!(ok);
        assert_eq!(scattered.direction(), vec3(0.0, 1.0, 0.0));
        assert!(!scattered.direction().near_zero());
    }
}

#[test]
fn lambertian_with_a_texture_takes_the_sample() {
    let m = Lambertian::with_texture(12);
    assert_eq!(m.albedo, TextureRef::Handle(12));
    let mut attention = Vec3::default();
    let mut scattered = Ray::default();
    m.scatter(
        &incoming(),
        &hit_record(),
        &mut attention,
        &mut scattered,
        vec3(0.2, 1.4, -0.3),
        vec3(0.9, 0.8, 0.1),
    );
    assert_eq!(attention, vec3(0.9, 0.8, 0.1));
}

#[test]
fn metal_clamps_the_fuzz() {
    assert_eq!(Metal::new(vec3(0.8, 0.8, 0.8), key(0.3)).fuzz, key(0.3));
    assert_eq!(Metal::new(vec3(0.8, 0.8, 0.8), key(1.7)).fuzz, key(1.0));
    assert_eq!(Metal::new(vec3(0.8, 0.8, 0.8), key(-0.4)).fuzz, key(0.0));
    assert_eq!(Metal::new(vec3(0.8, 0.7, 0.6), key(1.0)).albedo, vec3(0.8, 0.7, 0.6));
}

#[test]
fn metal_scatters_only_above_the_surface() {
    let m = Metal::new(vec3(0.8, 0.7, 0.6), key(0.1));
    let mut attention = Vec3::default();
    let mut scattered = Ray::default();
    let up = m.scatter(
        &incoming(),
        &hit_record(),
        &mut attention,
        &mut scattered,
        vec3(0.3, 1.0, 0.2),
        key(1.0),
    );
    assert!(up);
    assert_eq!(attention, vec3(0.8, 0.7, 0.6));
    assert_eq!(scattered, Ray::new(vec3(1.0, 2.0, 3.0), vec3(0.3, 1.0, 0.2), key(0.75)));
    let down = m.scatter(
        &incoming(),
        &hit_record(),
        &mut attention,
        &mut scattered,
        vec3(0.3, -0.1, 0.2),
        key(-0.1),
    );
    assert!(!down);
    let along = m.scatter(
        &incoming(),
        &hit_record(),
        &mut attention,
        &mut scattered,
        vec3(0.3, 0.0, 0.2),
        key(0.0),
    );
    assert!(!along);
}

#[test]
fn dielectric_picks_the_ratio_by_the_side() {
    let glass = Dielectric::new(key(1.5));
    assert_eq!(glass.ir, key(1.5));
    assert_eq!(glass.refraction_ratio(true, key(1.0 / 1.5)), key(1.0 / 1.5));
    assert_eq!(glass.refraction_ratio(false, key(1.0 / 1.5)), key(1.5));
}

#[test]
fn dielectric_reflects_when_it_cannot_refract_or_by_chance() {
    assert!(Dielectric::reflects(key(1.2), key(0.0), key(0.99)));
    assert!(Dielectric::reflects(key(0.5), key(0.6), key(0.59)));
    assert!(!Dielectric::reflects(key(0.5), key(0.6), key(0.6)));
    assert!(!Dielectric::reflects(key(1.0), key(0.04), key(0.5)));
}

#[test]
fn dielectric_of_index_one_passes_a_perpendicular_ray() {
    let ior: f64 = 1.0;
    let r0 = ((1.0 - ior) / (1.0 + ior)).powi(2);
    let cosine: f64 = 1.0;
    let reflectance = r0 + (1.0 - r0) * (1.0 - cosine).powi(5);
    let bend = ior * (1.0 - cosine * cosine).sqrt();
    for draw in [0.0, 0.25, 0.999] {
        assert!(!Dielectric::reflects(key(bend), key(reflectance), key(draw)));
    }
}

#[test]
fn dielectric_scatters_without_loss() {
    let glass = Dielectric::new(key(1.5));
    let mut attention = Vec3::default();
    let mut scattered = Ray::default();
    let ok = glass.scatter(
        &incoming(),
        &hit_record(),
        &mut attention,
        &mut scattered,
        vec3(0.1, -0.9, 0.1),
    );
    assert!(ok);
    assert_eq!(attention, vec3(1.0, 1.0, 1.0));
    assert_eq!(scattered, Ray::new(vec3(1.0, 2.0, 3.0), vec3(0.1, -0.9, 0.1), key(0.75)));
}

#[test]
fn diffuse_light_never_scatters() {
    let light = DiffuseLight::with_solid_color(vec3(7.0, 7.0, 7.0));
    let mut attention = vec3(0.1, 0.2, 0.3);
    let mut scattered = incoming();
    assert!(!light.scatter(&incoming(), &hit_record(), &mut attention, &mut scattered));
    assert_eq!(attention, vec3(0.1, 0.2, 0.3));
    assert_eq!(scattered, incoming());
}

#[test]
fn diffuse_light_emits_its_texture() {
    let solid = DiffuseLight::with_solid_color(vec3(7.0, 7.0, 7.0));
    assert_eq!(solid.emit, TextureRef::Solid(SolidColor::new(vec3(7.0, 7.0, 7.0))));
    assert_eq!(solid.emitted(vec3(0.0, 0.0, 0.0)), vec3(7.0, 7.0, 7.0));
    let textured = DiffuseLight::new(5);
    assert_eq!(textured.emit, TextureRef::Handle(5));
    assert_eq!(textured.emitted(vec3(4.0, 3.0, 2.0)), vec3(4.0, 3.0, 2.0));
}

#[test]
fn isotropic_always_scatters() {
    let m = Isotropic::from_color(vec3(0.9, 0.9, 0.9));
    let mut attention = Vec3::default();
    let mut scattered = Ray::default();
    let ok = m.scatter(
        &incoming(),
        &hit_record(),
        &mut attention,
        &mut scattered,
        vec3(-0.3, 0.2, 0.5),
        vec3(0.0, 0.0, 0.0),
    );
    assert!(ok);
    assert_eq!(attention, vec3(0.9, 0.9, 0.9));
    assert_eq!(scattered, Ray::new(vec3(1.0, 2.0, 3.0), vec3(-0.3, 0.2, 0.5), key(0.75)));
    assert_eq!(Isotropic::new(8).albedo, TextureRef::Handle(8));
}

#[test]
fn only_a_light_emits() {
    let sampled = vec3(0.4, 0.5, 0.6);
    let black = vec3(0.0, 0.0, 0.0);
    assert_eq!(Material::Lambertian(Lambertian::new(vec3(0.5, 0.5, 0.5))).emitted(sampled), black);
    assert_eq!(Material::Metal(Metal::new(vec3(0.5, 0.5, 0.5), key(0.0))).emitted(sampled), black);
    assert_eq!(Material::Dielectric(Dielectric::new(key(1.5))).emitted(sampled), black);
    assert_eq!(Material::Isotropic(Isotropic::new(1)).emitted(sampled), black);
    assert_eq!(Material::DiffuseLight(DiffuseLight::new(1)).emitted(sampled), sampled);
}

/// The colour of a path, added up by the host as the library's rule for each
/// ray says. `events` holds what becomes of each ray: none where it misses,
/// else what the surface emits and, where it scatters, its attenuation.
fn path_color(depth: isize, background: [f64; 3], events: &[Option<([f64; 3], Option<[f64; 3]>)>]) -> [f64; 3] {
    let mut total = [0.0; 3];
    let mut weight = [1.0; 3];
    let mut depth = depth;
    let mut at = 0;
    loop {
        let bounce = match events.get(at) {
            None | Some(None) => Bounce::Miss,
            Some(Some((_, None))) => Bounce::Absorbed,
            Some(Some((_, Some(_)))) => Bounce::Scattered,
        };
        match Ray::ray_color(depth, bounce) {
            Shade::Black => return total,
            Shade::Background => {
                for k in 0..3 {
                    total[k] += weight[k] * background[k];
                }
                return total;
            }
            Shade::Emitted => {
                let (emitted, _) = events[at].unwrap();
                for k in 0..3 {
                    total[k] += weight[k] * emitted[k];
                }
                return total;
            }
            Shade::Scattered { depth: rest } => {
                let (emitted, attenuation) = events[at].unwrap();
                let attenuation = attenuation.unwrap();
                for k in 0..3 {
                    total[k] += weight[k] * emitted[k];
                    weight[k] *= attenuation[k];
                }
                depth = rest;
                at += 1;
            }
        }
    }
}

#[test]
fn light_returns_its_emission_at_any_depth() {
    let light = DiffuseLight::with_solid_color(vec3(7.0, 7.0, 7.0));
    let mut attention = Vec3::default();
    let mut scattered = Ray::default();
    let scatters = light.scatter(&incoming(), &hit_record(), &mut attention, &mut scattered);
    assert!(!scatters);
    assert_eq!(light.emitted(vec3(0.0, 0.0, 0.0)), vec3(7.0, 7.0, 7.0));
    for depth in [1isize, 2, 50, isize::MAX] {
        assert_eq!(Ray::ray_color(depth, Bounce::Absorbed), Shade::Emitted);
        let c = path_color(depth, [0.2, 0.3, 0.4], &[Some(([7.0, 7.0, 7.0], None))]);
        assert_eq!(c, [7.0, 7.0, 7.0]);
    }
}

#[test]
fn ray_that_misses_returns_the_background() {
    for depth in [1isize, 3, 50] {
        assert_eq!(Ray::ray_color(depth, Bounce::Miss), Shade::Background);
        assert_eq!(path_color(depth, [0.0, 0.0, 0.0], &[None]), [0.0, 0.0, 0.0]);
        assert_eq!(path_color(depth, [0.7, 0.8, 1.0], &[None]), [0.7, 0.8, 1.0]);
    }
}

#[test]
fn diffuse_sphere_darkens_what_it_reflects() {
    let albedo = [0.5, 0.6, 0.7];
    let sky = [0.7, 0.8, 1.0];
    let once = path_color(50, sky, &[Some(([0.0; 3], Some(albedo))), None]);
    assert_eq!(once, [0.5 * 0.7, 0.6 * 0.8, 0.7 * 1.0]);
    for k in 0..3 {
        assert!(once[k] > 0.0 && once[k] < albedo[k] + 1e-12);
    }
    let twice = path_color(50, sky, &[Some(([0.0; 3], Some(albedo))), Some(([0.0; 3], Some(albedo))), None]);
    for k in 0..3 {
        assert!(twice[k] > 0.0 && twice[k] < once[k]);
    }
    let dark = path_color(50, [0.0; 3], &[Some(([0.0; 3], Some(albedo))), None]);
    assert_eq!(dark, [0.0, 0.0, 0.0]);
}

#[test]
fn path_ends_black_when_its_depth_is_used_up() {
    let albedo = [0.5, 0.5, 0.5];
    let bounce = Some(([0.0; 3], Some(albedo)));
    assert_eq!(path_color(2, [1.0; 3], &[bounce, bounce, bounce, None]), [0.0, 0.0, 0.0]);
    assert_eq!(path_color(3, [1.0; 3], &[bounce, bounce, None]), [0.25, 0.25, 0.25]);
    assert_eq!(path_color(0, [1.0; 3], &[None]), [0.0, 0.0, 0.0]);
    assert_eq!(path_color(-4, [1.0; 3], &[None]), [0.0, 0.0, 0.0]);
}
