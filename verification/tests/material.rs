use rayst::color::Color;
use rayst::hittable::Contact;
use rayst::material::{Dielectric, Isotropic, Lambertian, Metal};
use rayst::scalar::Scalar;
use rayst::texture::{CheckerTexture, SolidColor, Texture};
use rayst::vec3::{Point, Vec3};

fn s(x: f64) -> Scalar {
    Scalar::from_bits(x.to_bits())
}

fn f(x: Scalar) -> f64 {
    f64::from_bits(x.to_bits())
}

fn v(a: [f64; 3]) -> Vec3 {
    Vec3::new(s(a[0]), s(a[1]), s(a[2]))
}

fn a(p: Vec3) -> [f64; 3] {
    [f(p.x), f(p.y), f(p.z)]
}

fn rgb(c: Color) -> [f64; 3] {
    [f(c.r), f(c.g), f(c.b)]
}

fn color(c: [f64; 3]) -> Color {
    Color::new(s(c[0]), s(c[1]), s(c[2]))
}

fn contact() -> Contact {
    Contact {
        p: v([1.0, 2.0, 3.0]),
        normal: v([0.0, 1.0, 0.0]),
        t: s(4.0),
        u: s(0.25),
        v: s(0.75),
        front_face: true,
    }
}

/// A texture that shows where it is asked.
struct Probe;

impl Texture for Probe {
    fn value(&self, u: Scalar, v: Scalar, p: &Point) -> Color {
        Color::new(u, v, p.z)
    }
}

#[test]
fn a_diffuse_surface_scatters_about_its_normal() {
    let m = Lambertian::new(Probe);
    let (ray, attenuation) = m.scatter(&contact(), v([0.3, 1.4, -0.2]), s(0.5));
    assert_eq!((a(ray.orig), a(ray.dir), f(ray.time)), ([1.0, 2.0, 3.0], [0.3, 1.4, -0.2], 0.5));
    assert_eq!(rgb(attenuation), [0.25, 0.75, 3.0]);
    // a candidate that is as good as zero gives way to the normal
    let (ray, _) = m.scatter(&contact(), v([1e-9, -1e-10, 0.0]), s(0.5));
    assert_eq!(a(ray.dir), [0.0, 1.0, 0.0]);
    let flat = Lambertian::new(SolidColor::new(color([0.1, 0.2, 0.3])));
    assert_eq!(rgb(flat.scatter(&contact(), v([0.3, 1.4, -0.2]), s(0.5)).1), [0.1, 0.2, 0.3]);
}

#[test]
fn a_metal_absorbs_what_it_reflects_into_itself() {
    let m = Metal::new(color([0.8, 0.6, 0.2]), s(0.3));
    assert_eq!((rgb(m.albedo), f(m.fuzz)), ([0.8, 0.6, 0.2], 0.3));
    let (ray, attenuation) = m.scatter(&contact(), v([0.5, 0.5, 0.0]), s(0.5), s(0.25)).unwrap();
    assert_eq!((a(ray.orig), a(ray.dir), f(ray.time)), ([1.0, 2.0, 3.0], [0.5, 0.5, 0.0], 0.25));
    assert_eq!(rgb(attenuation), [0.8, 0.6, 0.2]);
    for facing in [0.0, -0.0, -0.5, f64::NAN] {
        assert!(m.scatter(&contact(), v([0.5, -0.5, 0.0]), s(facing), s(0.25)).is_none());
    }
}

#[test]
fn a_dielectric_reflects_or_refracts_and_absorbs_nothing() {
    let m = Dielectric::new(s(1.5));
    assert_eq!(f(m.ri), 1.5);
    // into the material the ratio is the reciprocal of the index, out of it the index
    assert_eq!(f(m.refraction_ratio(true, s(1.0 / 1.5))), 1.0 / 1.5);
    assert_eq!(f(m.refraction_ratio(false, s(1.0 / 1.5))), 1.5);
    let (reflected, refracted) = (v([0.0, 1.0, 0.0]), v([0.0, -1.0, 0.0]));
    let draws = std::cell::Cell::new(0);
    let draw = |u: f64| {
        let draws = &draws;
        move || {
            draws.set(draws.get() + 1);
            s(u)
        }
    };
    // a ray that cannot be refracted is reflected, and no number is drawn for it
    let (ray, attenuation) = m.scatter(&contact(), s(1.2), s(0.04), draw(0.9), reflected, refracted, s(0.5));
    assert_eq!((a(ray.orig), a(ray.dir), f(ray.time)), ([1.0, 2.0, 3.0], [0.0, 1.0, 0.0], 0.5));
    assert_eq!(rgb(attenuation), [1.0, 1.0, 1.0]);
    assert_eq!(draws.get(), 0);
    // a number below the reflectance reflects the ray
    let (ray, _) = m.scatter(&contact(), s(0.6), s(0.04), draw(0.01), reflected, refracted, s(0.5));
    assert_eq!(a(ray.dir), [0.0, 1.0, 0.0]);
    assert_eq!(draws.get(), 1);
    // any other number lets it through
    for u in [0.04, 0.9] {
        let (ray, attenuation) = m.scatter(&contact(), s(0.6), s(0.04), draw(u), reflected, refracted, s(0.5));
        assert_eq!(a(ray.dir), [0.0, -1.0, 0.0]);
        assert_eq!(rgb(attenuation), [1.0, 1.0, 1.0]);
    }
    assert_eq!(draws.get(), 3);
    // at the edge of total reflection the ray is still refracted
    let (ray, _) = m.scatter(&contact(), s(1.0), s(0.0), draw(0.5), reflected, refracted, s(0.5));
    assert_eq!(a(ray.dir), [0.0, -1.0, 0.0]);
}

#[test]
fn a_medium_scatters_in_the_given_direction() {
    let m = Isotropic::new(Probe);
    let (ray, attenuation) = m.scatter(&contact(), v([-0.1, 0.2, 0.3]), s(0.5));
    assert_eq!((a(ray.orig), a(ray.dir), f(ray.time)), ([1.0, 2.0, 3.0], [-0.1, 0.2, 0.3], 0.5));
    assert_eq!(rgb(attenuation), [0.25, 0.75, 3.0]);
}

#[test]
fn a_checker_shows_the_odd_texture_where_the_sines_are_negative() {
    let t = CheckerTexture::new(color([0.2, 0.3, 0.1]), color([0.9, 0.9, 0.9]));
    let p = v([1.0, 2.0, 3.0]);
    assert_eq!(rgb(t.value(s(-0.5), s(0.0), s(0.0), &p)), [0.2, 0.3, 0.1]);
    for sines in [0.5, 0.0, -0.0, f64::NAN] {
        assert_eq!(rgb(t.value(s(sines), s(0.0), s(0.0), &p)), [0.9, 0.9, 0.9]);
    }
    let mixed = CheckerTexture::new_with_texture(Probe, SolidColor::new_rgb(s(0.0), s(0.0), s(1.0)));
    assert_eq!(rgb(mixed.value(s(-1.0), s(0.25), s(0.5), &p)), [0.25, 0.5, 3.0]);
    assert_eq!(rgb(mixed.value(s(1.0), s(0.25), s(0.5), &p)), [0.0, 0.0, 1.0]);
}
