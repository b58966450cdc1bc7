use raytracer::perlin::{lattice_next, lattice_place, swap_entries, Perlin, POINT_COUNT};
use raytracer::random::random_integer_with_range;
use raytracer::vec::Vec3;

fn gradients() -> [Vec3; 256] {
    let mut g = [Vec3::default(); 256];
    for i in 0..256 {
        g[i] = Vec3::new((i as i64, 1000 + i as i64, -(i as i64)));
    }
    g
}

fn is_permutation(p: &Vec<usize>) -> bool {
    if p.len() != POINT_COUNT {
        return false;
    }
    let mut seen = vec![false; POINT_COUNT];
    for &v in p {
        if v >= POINT_COUNT || seen[v] {
            return false;
        }
        seen[v] = true;
    }
    true
}

#[test]
fn random_integer_stays_in_range() {
    for _ in 0..200 {
        let r = random_integer_with_range(3, 7);
        assert!(3 <= r && r <= 7);
    }
}

#[test]
fn random_integer_of_a_single_value() {
    assert_eq!(random_integer_with_range(5, 5), 5);
    assert_eq!(random_integer_with_range(0, 0), 0);
    assert_eq!(random_integer_with_range(u32::MAX, u32::MAX), u32::MAX);
}

#[test]
fn random_integer_reaches_both_ends() {
    let mut low = false;
    let mut high = false;
    for _ in 0..400 {
        let r = random_integer_with_range(0, 2);
        assert!(r <= 2);
        low = low || r == 0;
        high = high || r == 2;
    }
    assert!(low && high);
}

#[test]
fn generate_perm_is_a_permutation() {
    for _ in 0..20 {
        let p = Perlin::generate_perm();
        assert!(is_permutation(&p));
    }
}

#[test]
fn generate_perm_shuffles() {
    let identity: Vec<usize> = (0..POINT_COUNT).collect();
    let mut moved = false;
    for _ in 0..5 {
        moved = moved || Perlin::generate_perm() != identity;
    }
    assert!(moved);
}

#[test]
fn permute_keeps_the_entries_and_the_tail() {
    let mut p: Vec<usize> = vec![10, 20, 30, 40, 50, 60];
    Perlin::permute(&mut p, 4);
    assert_eq!(p.len(), 6);
    assert_eq!(p[4], 50);
    assert_eq!(p[5], 60);
    let mut head: Vec<usize> = p[..4].to_vec();
    head.sort();
    assert_eq!(head, vec![10, 20, 30, 40]);
}

#[test]
fn permute_of_nothing_changes_nothing() {
    let mut p: Vec<usize> = vec![3, 1, 2];
    Perlin::permute(&mut p, 0);
    assert_eq!(p, vec![3, 1, 2]);
    let mut q: Vec<usize> = vec![9];
    Perlin::permute(&mut q, 1);
    assert_eq!(q, vec![9]);
}

#[test]
fn swap_entries_exchanges_two_places() {
    let mut p: Vec<usize> = vec![1, 2, 3, 4];
    swap_entries(&mut p, 0, 3);
    assert_eq!(p, vec![4, 2, 3, 1]);
    swap_entries(&mut p, 1, 1);
    assert_eq!(p, vec![4, 2, 3, 1]);
}

#[test]
fn lattice_place_is_the_remainder() {
    assert_eq!(lattice_place(0), 0);
    assert_eq!(lattice_place(255), 255);
    assert_eq!(lattice_place(256), 0);
    assert_eq!(lattice_place(1000), 1000 % 256);
    assert_eq!(lattice_place(-1), 255);
    assert_eq!(lattice_place(-256), 0);
    assert_eq!(lattice_place(-257), 255);
    assert_eq!(lattice_place(i64::MAX), 255);
    assert_eq!(lattice_place(i64::MIN), 0);
}

#[test]
fn lattice_next_moves_one_place_on() {
    assert_eq!(lattice_next(4), 5);
    assert_eq!(lattice_next(-1), 0);
    assert_eq!(lattice_next(i64::MAX), 0);
    assert_eq!(lattice_place(lattice_next(4)), 5);
    assert_eq!(lattice_place(lattice_next(255)), 0);
    assert_eq!(lattice_place(lattice_next(-1)), 0);
    assert_eq!(lattice_place(lattice_next(i64::MAX)), 0);
}

#[test]
fn perlin_tables_are_permutations() {
    let noise = Perlin::new(gradients());
    for axis in 0..3 {
        assert!(is_permutation(noise.perm(axis)));
    }
}

#[test]
fn perlin_corner_combines_the_tables() {
    let g = gradients();
    let noise = Perlin::new(g);
    let cases: [(i64, i64, i64); 6] =
        [(0, 0, 0), (1, 2, 3), (255, 256, 257), (-1, -2, -300), (1000, -1000, 77), (i64::MAX, i64::MIN, 5)];
    for (i, j, k) in cases {
        let index = noise.perm(0)[i.rem_euclid(256) as usize]
            ^ noise.perm(1)[j.rem_euclid(256) as usize]
            ^ noise.perm(2)[k.rem_euclid(256) as usize];
        assert!(index < 256);
        assert_eq!(noise.corner(i, j, k), g[index]);
    }
}

#[test]
fn perlin_corner_repeats_every_256() {
    let noise = Perlin::new(gradients());
    assert_eq!(noise.corner(3, 4, 5), noise.corner(3 + 256, 4 - 256, 5 + 512));
}

#[test]
fn perlin_corners_are_the_eight_neighbours() {
    let noise = Perlin::new(gradients());
    let cases: [(i64, i64, i64); 4] = [(0, 0, 0), (254, 255, -1), (-7, 12, 300), (i64::MAX, 3, 3)];
    for (i, j, k) in cases {
        let c = noise.corners(i, j, k);
        for di in 0..2usize {
            for dj in 0..2usize {
                for dk in 0..2usize {
                    let ii = if di == 1 { lattice_next(i) } else { i };
                    let jj = if dj == 1 { lattice_next(j) } else { j };
                    let kk = if dk == 1 { lattice_next(k) } else { k };
                    assert_eq!(c[di][dj][dk], noise.corner(ii, jj, kk));
                }
            }
        }
    }
}
