use tessel::I2C;

// raw = (48e6 / f - 0.72) / 2 - 5, truncated and saturated into 0 ..= 255.

#[test]
fn divisor_reference_values() {
    // 48e6 / 2.4e6 = 20; (20 - 0.72) / 2 - 5 = 4.64 -> 4
    assert_eq!(I2C::compute_baud(2_400_000), 4);
    // 48e6 / 1e5 = 480; (480 - 0.72) / 2 - 5 = 234.64 -> 234
    assert_eq!(I2C::compute_baud(100_000), 234);
    // 48e6 / 1e6 = 48; (48 - 0.72) / 2 - 5 = 18.64 -> 18
    assert_eq!(I2C::compute_baud(1_000_000), 18);
}

#[test]
fn divisor_saturates_high() {
    // 48e6 / 1e3 = 48000; far beyond the register range.
    assert_eq!(I2C::compute_baud(1_000), 255);
    assert_eq!(I2C::compute_baud(1), 255);
    assert_eq!(I2C::compute_baud(0), 255);
}

#[test]
fn divisor_saturates_low() {
    // 48e6 / 48e6 = 1; (1 - 0.72) / 2 - 5 < 0.
    assert_eq!(I2C::compute_baud(48_000_000), 0);
    assert_eq!(I2C::compute_baud(u32::MAX), 0);
    // raw lands in (-1, 0): still the fast end of the register.
    assert_eq!(I2C::compute_baud(4_500_000), 0);
}

#[test]
fn divisor_is_deterministic() {
    for f in [0u32, 9_600, 100_000, 400_000, 2_400_000, u32::MAX] {
        assert_eq!(I2C::compute_baud(f), I2C::compute_baud(f));
    }
}
