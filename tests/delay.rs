use embedded_hal_compat::delay::micros_covering;

#[test]
fn nanoseconds_round_up_to_microseconds() {
    assert_eq!(micros_covering(0), 0);
    assert_eq!(micros_covering(1), 1);
    assert_eq!(micros_covering(999), 1);
    assert_eq!(micros_covering(1000), 1);
    assert_eq!(micros_covering(1001), 2);
    assert_eq!(micros_covering(2_500_000), 2500);
    assert_eq!(micros_covering(u32::MAX), 4_294_968);
}
