use rand::Rng as _;
use rayst::aabb::AABB;
use rayst::color::Color;
use rayst::hittable::{Contact, HitRecord, Hittable};
use rayst::hittable_list::HittableList;
use rayst::integrator::ray_color;
use rayst::interval::Interval;
use rayst::material::{diffuse_direction, Material};
use rayst::ray::Ray;
use rayst::scalar::Scalar;
use rayst::vec3::{Point, Vec3};
use rayst::{thread_rng, Rng};

fn s(x: f64) -> Scalar {
    Scalar::from_bits(x.to_bits())
}

fn f(x: Scalar) -> f64 {
    f64::from_bits(x.to_bits())
}

fn v(a: [f64; 3]) -> Vec3 {
    Vec3::new(s(a[0]), s(a[1]), s(a[2]))
}

fn a(p: Vec3) -> [f64; 3] {
    [f(p.x), f(p.y), f(p.z)]
}

fn dot(p: [f64; 3], q: [f64; 3]) -> f64 {
    p[0] * q[0] + p[1] * q[1] + p[2] * q[2]
}

/// A diffuse surface of one albedo.
#[derive(Clone, Copy)]
struct Matte(f64);

impl Material for Matte {
    fn scatter(&self, rng: &mut Rng, _r_in: &Ray, at: &Contact) -> Option<(Ray, Color)> {
        let n = a(at.normal);
        let offset = loop {
            let p = [rng.gen_range(-1.0..1.0), rng.gen_range(-1.0..1.0), rng.gen_range(-1.0..1.0)];
            if dot(p, p) < 1.0 {
                break p;
            }
        };
        let candidate = v([n[0] + offset[0], n[1] + offset[1], n[2] + offset[2]]);
        let direction = diffuse_direction(candidate, at.normal);
        Some((Ray::new(at.p, direction, s(0.0)), Color::new(s(self.0), s(self.0), s(self.0))))
    }

    fn emitted(&self, _u: Scalar, _v: Scalar, _p: &Point) -> Color {
        Color::default()
    }
}

struct Ball {
    center: [f64; 3],
    radius: f64,
    material: Matte,
}

impl Hittable for Ball {
    type Mat = Matte;

    fn hit(&self, r: &Ray, t_min: Scalar, t_max: Scalar) -> Option<HitRecord<Matte>> {
        let (o, d) = (a(r.orig), a(r.dir));
        let oc = [o[0] - self.center[0], o[1] - self.center[1], o[2] - self.center[2]];
        let qa = dot(d, d);
        let half_b = dot(oc, d);
        let c = dot(oc, oc) - self.radius * self.radius;
        let disc = half_b * half_b - qa * c;
        let sq = disc.sqrt();
        let near = (-half_b - sq) / qa;
        let far = (-half_b + sq) / qa;
        let root = f(Interval::new(t_min, t_max).first_root(s(disc), s(near), s(far))?);
        let p = [o[0] + root * d[0], o[1] + root * d[1], o[2] + root * d[2]];
        let n = [
            (p[0] - self.center[0]) / self.radius,
            (p[1] - self.center[1]) / self.radius,
            (p[2] - self.center[2]) / self.radius,
        ];
        Some(HitRecord::new(s(root), v(p), s(dot(d, n)), s(0.0), s(0.0), self.material, v(n)))
    }

    fn bounding_box(&self, _time0: Scalar, _time1: Scalar) -> Option<AABB> {
        let (c, r) = (self.center, self.radius);
        Some(AABB::new(v([c[0] - r, c[1] - r, c[2] - r]), v([c[0] + r, c[1] + r, c[2] + r])))
    }
}

const WIDTH: usize = 32;
const HEIGHT: usize = 18;

/// White at the horizon, light blue at the zenith.
fn sky(direction: [f64; 3]) -> [f64; 3] {
    let len = dot(direction, direction).sqrt();
    let t = 0.5 * (direction[1] / len + 1.0);
    [(1.0 - t) + t * 0.5, (1.0 - t) + t * 0.7, (1.0 - t) + t * 1.0]
}

fn encode(channel: f64) -> u8 {
    (256.0 * f(s(channel.sqrt()).clamp(s(0.0), s(0.999)))) as u8
}

/// The image of the two spheres, row by row from the top, three bytes a pixel.
fn render(depth: i32) -> Vec<u8> {
    let mut world = HittableList::new();
    world.add(Ball { center: [0.0, -100.5, -1.0], radius: 100.0, material: Matte(0.5) });
    world.add(Ball { center: [0.0, 0.0, -1.0], radius: 0.5, material: Matte(0.5) });
    let mut rng = thread_rng();
    // a camera at the origin that looks down the third axis, 90 degrees high, 16 to 9 wide
    let viewport = [2.0 * 16.0 / 9.0, 2.0];
    let mut bytes = Vec::new();
    for j in (0..HEIGHT).rev() {
        for i in 0..WIDTH {
            let pu = (i as f64 + 0.5) / WIDTH as f64;
            let pv = (j as f64 + 0.5) / HEIGHT as f64;
            let direction = [(pu - 0.5) * viewport[0], (pv - 0.5) * viewport[1], -1.0];
            let r = Ray::new(v([0.0, 0.0, 0.0]), v(direction), s(0.0));
            let background = sky(direction);
            let path = ray_color(
                &mut rng,
                &r,
                Color::new(s(background[0]), s(background[1]), s(background[2])),
                &world,
                depth,
            );
            let mut c = [f(path.radiance.r), f(path.radiance.g), f(path.radiance.b)];
            for k in &path.attenuations {
                c = [f(k.r) * c[0], f(k.g) * c[1], f(k.b) * c[2]];
            }
            bytes.extend_from_slice(&[encode(c[0]), encode(c[1]), encode(c[2])]);
        }
    }
    bytes
}

fn pixel(image: &[u8], i: usize, row: usize) -> [u8; 3] {
    let at = 3 * (row * WIDTH + i);
    [image[at], image[at + 1], image[at + 2]]
}

#[test]
fn two_spheres_render_to_a_flat_disc_over_a_gradient() {
    let image = render(1);
    assert_eq!(image.len(), 3 * WIDTH * HEIGHT);
    // the same seed gives the same bytes
    assert_eq!(image, render(1));
    // the small sphere covers the middle of the image with one flat color
    let center = pixel(&image, WIDTH / 2, HEIGHT / 2 - 1);
    assert_eq!(center[0], center[1]);
    assert_eq!(center[1], center[2]);
    for (i, row) in [(15, 7), (16, 7), (15, 8), (16, 8), (14, 8), (17, 7)] {
        assert_eq!(pixel(&image, i, row), center);
    }
    // above the spheres the sky runs from blue at the top toward white at the horizon
    let top = pixel(&image, 2, 0);
    let lower = pixel(&image, 2, 6);
    assert!(top[2] > top[0]);
    assert!(lower[0] > top[0]);
    assert!(lower[1] > top[1]);
    assert!(lower[2] >= top[2]);
    assert_eq!(top, pixel(&image, WIDTH - 3, 0));
    // the ground sphere fills the bottom rows with the disc's flat color
    assert_eq!(pixel(&image, 2, HEIGHT - 1), center);
}

#[test]
fn more_depth_lights_the_spheres_from_the_sky() {
    let shallow = render(1);
    let deep = render(8);
    assert_eq!(deep, render(8));
    // the sky does not depend on the depth
    assert_eq!(pixel(&deep, 2, 0), pixel(&shallow, 2, 0));
    // with bounces to spend, the disc is no longer black
    let lit = pixel(&deep, WIDTH / 2, HEIGHT / 2 - 1);
    assert_eq!(pixel(&shallow, WIDTH / 2, HEIGHT / 2 - 1), [0, 0, 0]);
    assert!(lit[0] > 0 && lit[1] > 0 && lit[2] > 0);
}
