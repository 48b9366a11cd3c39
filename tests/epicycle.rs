use draw_with_circles::{compute_epicycles, partial_sums, Epicycle};

const EPSILON: f32 = 0.005;
const TAU: f32 = std::f32::consts::PI * 2.0;

type C = (f32, f32);

fn rot(theta: f32) -> C {
    (theta.cos(), theta.sin())
}

fn mul(a: C, b: C) -> C {
    (a.0 * b.0 - a.1 * b.1, a.0 * b.1 + a.1 * b.0)
}

fn close(a: C, b: C) -> bool {
    (a.0 - b.0).abs() <= EPSILON && (a.1 - b.1).abs() <= EPSILON
}

/// c_k = (1/L) · Σ p_j · rot(−2π·k·j/L)
fn coefficient(shape: &Vec<C>, k: i32) -> C {
    let l = shape.len() as f32;
    let mut sum: C = (0.0, 0.0);
    for (j, p) in shape.iter().enumerate() {
        let v = mul(*p, rot(-(k as f32) * TAU * j as f32 / l));
        sum = (sum.0 + v.0, sum.1 + v.1);
    }
    (sum.0 / l, sum.1 / l)
}

fn tip(es: &Vec<Epicycle<C>>, t: f32) -> C {
    let chain = partial_sums(es, (0.0f32, 0.0f32), |p: &C, e: &Epicycle<C>| {
        let v = mul(e.c0, rot(TAU * e.f as f32 * t));
        (p.0 + v.0, p.1 + v.1)
    });
    chain[chain.len() - 1]
}

#[test]
fn decomposition_has_interleaved_harmonics() {
    let shape: Vec<u8> = vec![0];
    let es = compute_epicycles(&shape, 5, |_s: &Vec<u8>, k: i32| k * 10);
    let fs: Vec<i32> = es.iter().map(|e| e.f).collect();
    assert_eq!(fs, vec![1, -1, 2, -2, 3, -3, 4, -4]);
    let cs: Vec<i32> = es.iter().map(|e| e.c0).collect();
    assert_eq!(cs, vec![10, -10, 20, -20, 30, -30, 40, -40]);
}

#[test]
fn decomposition_length_and_no_zero_frequency() {
    let shape: Vec<u8> = vec![1, 2, 3];
    for n in 1..=255u8 {
        let es = compute_epicycles(&shape, n, |_s: &Vec<u8>, k: i32| k);
        assert_eq!(es.len(), 2 * (n as usize - 1));
        for (i, e) in es.iter().enumerate() {
            assert!(e.f != 0);
            let m = (i / 2 + 1) as i32;
            assert_eq!(e.f, if i % 2 == 0 { m } else { -m });
        }
    }
}

#[test]
fn decomposition_with_bound_one_is_empty() {
    let shape: Vec<u8> = vec![1];
    assert!(compute_epicycles(&shape, 1, |_s: &Vec<u8>, k: i32| k).is_empty());
}

#[test]
fn constant_path_has_no_harmonics() {
    let shape: Vec<C> = vec![(1.0, 0.0); 4];
    let es = compute_epicycles(&shape, 4, coefficient);
    assert_eq!(es.len(), 6);
    for e in &es {
        assert!((e.c0.0 * e.c0.0 + e.c0.1 * e.c0.1).sqrt() <= EPSILON);
    }
    for t in [0.0f32, 0.1, 0.25, 0.6, 0.9] {
        assert!(close(tip(&es, t), (0.0, 0.0)));
    }
}

#[test]
fn rotating_path_has_one_harmonic() {
    let l = 64;
    let shape: Vec<C> = (0..l).map(|j| rot(TAU * j as f32 / l as f32)).collect();
    let es = compute_epicycles(&shape, 3, coefficient);
    assert_eq!(es.len(), 4);
    for e in &es {
        if e.f == 1 {
            assert!(close(e.c0, (1.0, 0.0)));
        } else {
            assert!(close(e.c0, (0.0, 0.0)));
        }
    }
}

#[test]
fn chain_tip_of_two_epicycles() {
    let es = vec![Epicycle::new((1.0f32, 0.0f32), 1), Epicycle::new((0.0f32, 1.0f32), 1)];
    let hyp = 2.0f32.sqrt();
    assert!(close(tip(&es, 0.0), (1.0, 1.0)));
    assert!(close(tip(&es, 0.125), (0.0, hyp)));
    assert!(close(tip(&es, 0.25), (-1.0, 1.0)));
    assert!(close(tip(&es, 0.375), (-hyp, 0.0)));
}

#[test]
fn chain_starts_at_origin_and_follows_list_order() {
    let es = vec![Epicycle::new(3i64, 1), Epicycle::new(5i64, -1), Epicycle::new(7i64, 2)];
    let chain = partial_sums(&es, 0i64, |p: &i64, e: &Epicycle<i64>| p * 10 + e.c0);
    assert_eq!(chain, vec![0, 3, 35, 357]);
    let empty: Vec<Epicycle<i64>> = Vec::new();
    assert_eq!(partial_sums(&empty, 4i64, |p: &i64, e: &Epicycle<i64>| p + e.c0), vec![4]);
}
