use stealthsnark::emsm::params::{get_lpn_params, LpnParams};

#[test]
fn test_params_basic() {
    let p = get_lpn_params(1024);
    assert_eq!(p.n, 1024);
    assert_eq!(p.big_n, 4096);
    assert_eq!(p.t, 29);
}

#[test]
fn test_params_monotonic() {
    let t1 = get_lpn_params(1024).t;
    let t2 = get_lpn_params(65536).t;
    let t3 = get_lpn_params(1048576).t;
    assert!(t1 < t2);
    assert!(t2 < t3);
}

#[test]
fn test_rate() {
    let p = get_lpn_params(4096);
    assert_eq!(p.big_n, 4 * p.n);
}

#[test]
fn test_params_table() {
    let steps: [(usize, usize); 15] = [
        (1 << 10, 29),
        (1 << 11, 33),
        (1 << 12, 38),
        (1 << 13, 43),
        (1 << 14, 48),
        (1 << 15, 54),
        (1 << 16, 60),
        (1 << 17, 67),
        (1 << 18, 74),
        (1 << 19, 82),
        (1 << 20, 90),
        (1 << 21, 99),
        (1 << 22, 108),
        (1 << 23, 118),
        (1 << 24, 128),
    ];
    for (n, t) in steps {
        assert_eq!(get_lpn_params(n).t, t);
    }
    // Just above each step the next value holds.
    for k in 0..14 {
        assert_eq!(get_lpn_params(steps[k].0 + 1).t, steps[k + 1].1);
    }
    assert_eq!(get_lpn_params((1 << 24) + 1).t, 128);
    assert_eq!(get_lpn_params(1 << 30).t, 128);
}

#[test]
fn test_params_clamped_for_tiny_vectors() {
    let p: LpnParams = get_lpn_params(0);
    assert_eq!((p.n, p.big_n, p.t), (0, 0, 1));
    assert_eq!(get_lpn_params(1).t, 4);
    assert_eq!(get_lpn_params(7).t, 28);
    assert_eq!(get_lpn_params(8).t, 29);
}

#[test]
fn test_params_never_decrease() {
    let mut last = 0;
    let mut ns: Vec<usize> = (0..40).collect();
    ns.extend((0..26).flat_map(|k| [(1usize << k) - 1, 1usize << k, (1usize << k) + 1]));
    ns.sort();
    for n in ns {
        let t = get_lpn_params(n).t;
        assert!(t >= last);
        last = t;
    }
}
