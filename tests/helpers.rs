use stopwatch::clock::{cvt, ticks_to_micros, IsZero};
use stopwatch::pretty::{format_duration, PrettyDuration};
use stopwatch::wide::{nul_terminated, ToCU16Str};
use std::time::Duration;

#[test]
fn cvt_passes_nonzero_values() {
    assert_eq!(cvt(5u32).unwrap(), 5);
    assert_eq!(cvt(-3i64).unwrap(), -3);
    assert!(cvt(0i32).is_err());
    assert!(cvt(0usize).is_err());
    assert!(0u8.is_zero());
    assert!(!7i16.is_zero());
}

#[test]
fn ticks_convert_to_microseconds() {
    assert_eq!(ticks_to_micros(10_000_000, 10_000_000), Some(1_000_000));
    assert_eq!(ticks_to_micros(15, 10), Some(1_500_000));
    assert_eq!(ticks_to_micros(7, 3), Some(2_333_333));
    assert_eq!(ticks_to_micros(0, 3), Some(0));
    assert_eq!(ticks_to_micros(i64::MAX, 10_000_000), Some(922_337_203_685_477_580));
    assert_eq!(ticks_to_micros(i64::MAX, 1), None);
    assert_eq!(ticks_to_micros(i64::MAX / 1_000_000 + 1, 1), None);
}

#[test]
fn durations_render_by_magnitude() {
    assert_eq!(format_duration(65, 3_250_000), "1m 5s 3.250ms");
    assert_eq!(format_duration(5, 0), "5s 0.0ms");
    assert_eq!(format_duration(0, 1_500), "0.1ms");
    assert_eq!(format_duration(120, 999_999_999), "2m 0s 999.999ms");
    assert_eq!(format_duration(0, 12_005_000), "12.5ms");
    assert_eq!(PrettyDuration(Duration::from_millis(1_500)).text(), "1s 500.0ms");
}

#[test]
fn wide_strings_end_in_nul() {
    assert_eq!("hi".to_c_u16(), vec![104u16, 105, 0]);
    assert_eq!("".to_c_u16(), vec![0u16]);
    assert_eq!("\u{1D11E}".to_c_u16(), vec![0xD834u16, 0xDD1E, 0]);
    assert_eq!("\u{e9}".to_c_u16(), vec![0xE9u16, 0]);
    assert_eq!(nul_terminated(vec![1u16, 2]), vec![1u16, 2, 0]);
}
