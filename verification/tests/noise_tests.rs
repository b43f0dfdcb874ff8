use earworm::noise::pink_refresh_count;

#[test]
fn refresh_count_is_trailing_zeros() {
    assert_eq!(pink_refresh_count(0), 16);
    assert_eq!(pink_refresh_count(1), 0);
    assert_eq!(pink_refresh_count(2), 1);
    assert_eq!(pink_refresh_count(12), 2);
    assert_eq!(pink_refresh_count(1 << 15), 15);
    assert_eq!(pink_refresh_count(1 << 16), 16);
    assert_eq!(pink_refresh_count(u32::MAX), 0);
    for c in 1u32..5000 {
        assert_eq!(pink_refresh_count(c), (c.trailing_zeros() as usize).min(16));
    }
}

#[test]
fn generator_i_changes_every_power_of_two() {
    // Over 1024 samples, generator i is refreshed 1024 / 2^i times (from 1).
    let mut counts = [0usize; 16];
    for c in 1u32..=1024 {
        for i in 0..pink_refresh_count(c) {
            counts[i] += 1;
        }
    }
    for i in 0..10 {
        assert_eq!(counts[i], 1024 >> (i + 1));
    }
}
