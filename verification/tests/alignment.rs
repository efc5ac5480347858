use azure_storage_cli::align::round_up;

#[test]
fn round_up_exact_values() {
    assert_eq!(round_up(0, 512), 0);
    assert_eq!(round_up(1, 512), 512);
    assert_eq!(round_up(511, 512), 512);
    assert_eq!(round_up(512, 512), 512);
    assert_eq!(round_up(513, 512), 1024);
    assert_eq!(round_up(1000, 512), 1024);
    assert_eq!(round_up(5000, 512), 5120);
    assert_eq!(round_up(904, 512), 1024);
}

#[test]
fn round_up_small_units() {
    assert_eq!(round_up(0, 1), 0);
    assert_eq!(round_up(17, 1), 17);
    assert_eq!(round_up(7, 3), 9);
    assert_eq!(round_up(9, 3), 9);
    assert_eq!(round_up(10, 3), 12);
}

#[test]
fn round_up_is_idempotent() {
    for x in [0u64, 1, 511, 512, 513, 1000, 4095, 4096, 5000] {
        for u in [1u64, 3, 512, 4096] {
            let once = round_up(x, u);
            assert_eq!(round_up(once, u), once);
        }
    }
}

#[test]
fn round_up_is_least_multiple_at_or_above() {
    for x in [0u64, 1, 400, 511, 512, 513, 1000, 5000] {
        for u in [1u64, 3, 512, 2048] {
            let r = round_up(x, u);
            assert_eq!(r % u, 0);
            assert!(x <= r);
            assert!(r < x + u);
        }
    }
}

#[test]
fn round_up_near_max() {
    assert_eq!(round_up(u64::MAX - 511, 512), u64::MAX - 511);
    assert_eq!(round_up(u64::MAX, 1), u64::MAX);
}
