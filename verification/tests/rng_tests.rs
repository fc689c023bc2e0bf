use quarto::rng::RomuDuoJrRand;

#[test]
fn test_rng() {
    let mut rng = RomuDuoJrRand::with_seed(13371339);

    _ = rng.next();
}

#[test]
fn test_below_small_bounds_return_zero() {
    let mut rng = RomuDuoJrRand::with_seed(42);
    assert_eq!(rng.below(0), 0);
    assert_eq!(rng.below(1), 0);
}

#[test]
fn test_same_seed_same_stream() {
    let mut a = RomuDuoJrRand::with_seed(987654321);
    let mut b = RomuDuoJrRand::with_seed(987654321);
    for _ in 0..1000 {
        assert_eq!(a.next(), b.next());
    }
    for n in [2u64, 5, 17, 100] {
        assert_eq!(a.below(n), b.below(n));
    }
}

// `below(n)` never returns a value at or above `n`, and over many samples
// each bucket's frequency is close to uniform.
#[test]
fn test_below_in_range_and_roughly_uniform() {
    const SAMPLES: usize = 20000;
    for &n in &[2u64, 3, 7, 10, 33, 64, 100] {
        let mut rng = RomuDuoJrRand::with_seed(0xC0FFEE ^ n);
        let mut buckets = vec![0usize; n as usize];
        for _ in 0..SAMPLES {
            let v = rng.below(n);
            assert!(v < n);
            buckets[v as usize] += 1;
        }
        let expected = SAMPLES as f64 / n as f64;
        for (i, &count) in buckets.iter().enumerate() {
            // allow a generous statistical tolerance: 30% plus a floor
            // for small expected counts
            let slack = (expected * 0.3).max(60.0);
            assert!(
                (count as f64 - expected).abs() <= slack,
                "bucket {} of below({}) has {} samples, expected about {}",
                i,
                n,
                count,
                expected
            );
        }
    }
}

#[test]
fn test_pick_returns_an_element() {
    let mut rng = RomuDuoJrRand::with_seed(7);
    let items: Vec<u64> = vec![10, 20, 30, 40, 50];
    for _ in 0..200 {
        let v = rng.pick(&items);
        assert!(items.contains(&v));
    }
    let single: Vec<u64> = vec![99];
    assert_eq!(rng.pick(&single), 99);
}
