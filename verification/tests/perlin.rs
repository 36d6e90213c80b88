use rand::{RngCore, SeedableRng};
use rand_xoshiro::Xoshiro256PlusPlus;
use rayst::perlin::{wrap, Perlin, POINT_COUNT};
use rayst::random::{thread_rng, SEED};
use rayst::scalar::Scalar;
use rayst::vec3::Vec3;

fn s(x: f64) -> Scalar {
    Scalar::from_bits(x.to_bits())
}

fn f(x: Scalar) -> f64 {
    f64::from_bits(x.to_bits())
}

fn gradients() -> [Vec3; 256] {
    let mut g = [Vec3::default(); 256];
    for (i, slot) in g.iter_mut().enumerate() {
        *slot = Vec3::new(s(i as f64), s(-(i as f64)), s(0.5));
    }
    g
}

fn is_permutation(p: &[u16; 256]) -> bool {
    let mut seen = [false; 256];
    for &e in p.iter() {
        if e >= 256 || seen[e as usize] {
            return false;
        }
        seen[e as usize] = true;
    }
    true
}

#[test]
fn generate_perm_gives_a_permutation() {
    assert_eq!(POINT_COUNT, 256);
    let mut rng = thread_rng();
    let mut p = [7u16; 256];
    Perlin::generate_perm(&mut rng, &mut p);
    assert!(is_permutation(&p));
    // every entry has left its place: each changes places with an earlier one
    assert!(p.iter().enumerate().all(|(i, &e)| e as usize != i));
    let mut q = [0u16; 256];
    Perlin::generate_perm(&mut rng, &mut q);
    assert!(is_permutation(&q));
    assert!(p != q);
}

#[test]
fn permute_keeps_what_the_table_holds() {
    let mut rng = thread_rng();
    let mut p = [0u16; 256];
    for (i, e) in p.iter_mut().enumerate() {
        *e = (i / 2) as u16 * 3;
    }
    let mut before = p.to_vec();
    Perlin::permute(&mut rng, &mut p);
    let mut after = p.to_vec();
    assert!(before != after);
    before.sort();
    after.sort();
    assert_eq!(before, after);
}

#[test]
fn the_generator_is_the_one_that_its_seed_determines() {
    assert_eq!(SEED, 42);
    assert_eq!(thread_rng(), Xoshiro256PlusPlus::seed_from_u64(42));
    assert_eq!(thread_rng(), thread_rng());
    // another seed gives another generator, and other draws
    assert_ne!(thread_rng(), Xoshiro256PlusPlus::seed_from_u64(43));
    let mut ours = thread_rng();
    let mut same = Xoshiro256PlusPlus::seed_from_u64(42);
    let mut other = Xoshiro256PlusPlus::seed_from_u64(43);
    let drawn: Vec<u64> = (0..8).map(|_| ours.next_u64()).collect();
    assert_eq!(drawn, (0..8).map(|_| same.next_u64()).collect::<Vec<u64>>());
    assert_ne!(drawn, (0..8).map(|_| other.next_u64()).collect::<Vec<u64>>());
}

#[test]
fn the_generator_is_seeded_the_same_every_time() {
    let mut a = [0u16; 256];
    let mut b = [0u16; 256];
    Perlin::generate_perm(&mut thread_rng(), &mut a);
    Perlin::generate_perm(&mut thread_rng(), &mut b);
    assert_eq!(a, b);
}

#[test]
fn wrap_takes_the_low_eight_bits() {
    assert_eq!(wrap(0), 0);
    assert_eq!(wrap(255), 255);
    assert_eq!(wrap(256), 0);
    assert_eq!(wrap(257), 1);
    assert_eq!(wrap(-1), 255);
    assert_eq!(wrap(-256), 0);
    assert_eq!(wrap(-257), 255);
    assert_eq!(wrap(i32::MAX), 255);
    assert_eq!(wrap(i32::MIN), 0);
}

#[test]
fn hash_combines_the_three_tables() {
    let mut rng = thread_rng();
    let mut x = [0u16; 256];
    let mut y = [0u16; 256];
    let mut z = [0u16; 256];
    Perlin::generate_perm(&mut rng, &mut x);
    Perlin::generate_perm(&mut rng, &mut y);
    Perlin::generate_perm(&mut rng, &mut z);
    let noise = Perlin::new(&mut thread_rng(), gradients());
    for (i, j, k) in [(0, 0, 0), (1, 2, 3), (-1, -2, -3), (255, 256, 257), (1000, -1000, 77)] {
        let want = (x[wrap(i)] ^ y[wrap(j)] ^ z[wrap(k)]) as usize;
        assert!(want < 256);
        assert_eq!(noise.hash(i, j, k), want);
        let g = noise.gradient(i, j, k);
        assert_eq!((f(g.x), f(g.y), f(g.z)), (want as f64, -(want as f64), 0.5));
    }
}

#[test]
fn corners_are_the_gradients_around_a_cell() {
    let noise = Perlin::new(&mut thread_rng(), gradients());
    for (i, j, k) in [(0, 0, 0), (-1, -1, -1), (255, 255, 255), (12, -7, 300)] {
        let c = noise.corners(i, j, k);
        for di in 0..2 {
            for dj in 0..2 {
                for dk in 0..2 {
                    let want = noise.hash(i + di as i32, j + dj as i32, k + dk as i32);
                    assert_eq!(f(c[di][dj][dk].x), want as f64);
                }
            }
        }
    }
}
