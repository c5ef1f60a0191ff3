use peakrunner::rng::{spawn_pool, Rng};

#[test]
fn the_stream_is_the_classic_lcg() {
    let mut r = Rng { state: 0 };
    assert_eq!(r.next(), 1_013_904_223 >> 8);
    assert_eq!(r.state, 1_013_904_223);
    let mut a = Rng { state: 12345 };
    let mut b = Rng { state: 12345 };
    for _ in 0..100 {
        let d = a.next();
        assert_eq!(d, b.next());
        assert!(d < 1 << 24);
    }
    let mut c = Rng { state: 7 };
    c.reseed(0);
    assert_eq!(c.state, 7 ^ 1);
    c.reseed(1);
    assert_eq!(c.state, (7 ^ 1) ^ (0x9E37_79B9 | 1));
}

#[test]
fn spawns_avoid_the_last_point_and_enemies() {
    assert_eq!(spawn_pool(&[true, true, true, true], 1), vec![0, 2, 3]);
    assert_eq!(spawn_pool(&[true, false, false, true], 0), vec![3]);
    assert_eq!(spawn_pool(&[false, false, false], 0), vec![1, 2], "no safe point: any but the last");
    assert_eq!(spawn_pool(&[true], 0), vec![0], "a single point is reused");
    assert_eq!(spawn_pool(&[], 0), vec![0]);
}
