use converlex::fraction::{progress_fraction, Fraction};
use converlex::progress::{parse_duration, parse_progress_time};
use converlex::timecode::parse_time_str;

#[test]
fn timestamp_with_fraction_is_read_in_microseconds() {
    let t = parse_time_str(b"01:02:03.50").unwrap();
    assert_eq!(t, 3_723_500_000);
    assert_eq!(t as f64 / 1_000_000.0, 3723.5);
}

#[test]
fn timestamp_with_two_fields_gives_nothing() {
    assert_eq!(parse_time_str(b"1:2"), None);
}

#[test]
fn timestamp_with_four_fields_gives_nothing() {
    assert_eq!(parse_time_str(b"1:2:3:4"), None);
}

#[test]
fn timestamp_is_trimmed() {
    assert_eq!(parse_time_str(b"  00:00:01 \t"), Some(1_000_000));
}

#[test]
fn timestamp_rejects_letters_and_empty_fields() {
    assert_eq!(parse_time_str(b"00:0a:01"), None);
    assert_eq!(parse_time_str(b"00::01"), None);
    assert_eq!(parse_time_str(b""), None);
    assert_eq!(parse_time_str(b"N/A"), None);
    assert_eq!(parse_time_str(b"00:00:01.2.3"), None);
}

#[test]
fn timestamp_fraction_is_cut_after_six_digits() {
    assert_eq!(parse_time_str(b"00:00:00.1234569"), Some(123_456));
    assert_eq!(parse_time_str(b"00:00:00.5"), Some(500_000));
    assert_eq!(parse_time_str(b"00:00:.5"), Some(500_000));
    assert_eq!(parse_time_str(b"00:00:5."), Some(5_000_000));
}

#[test]
fn timestamp_too_large_gives_nothing() {
    assert_eq!(parse_time_str(b"99999999999999999999:00:00"), None);
    assert_eq!(parse_time_str(b"18446744073709:00:00"), None);
    assert_eq!(parse_time_str(b"5124095576:01:49.551615"), Some(u64::MAX));
    assert_eq!(parse_time_str(b"5124095576:01:49.551616"), None);
}

#[test]
fn duration_line_is_read_up_to_the_comma() {
    let line = b"  Duration: 00:01:30.50, start: 0.000000, bitrate: 128 kb/s\n";
    assert_eq!(parse_duration(line), Some(90_500_000));
}

#[test]
fn duration_line_without_comma_or_marker_gives_nothing() {
    assert_eq!(parse_duration(b"  Duration: 00:01:30.50"), None);
    assert_eq!(parse_duration(b"Duration:00:01:30.50, x"), None);
    assert_eq!(parse_duration(b"nothing here, at all"), None);
    assert_eq!(parse_duration(b"  Duration: N/A, start"), None);
}

#[test]
fn progress_line_is_read_up_to_the_white_space() {
    let line = b"size=     256kB time=00:00:04.00 bitrate= 524.3kbits/s speed=1.5x";
    assert_eq!(parse_progress_time(line), Some(4_000_000));
    assert_eq!(parse_progress_time(b"time=00:00:04.00\r"), Some(4_000_000));
}

#[test]
fn progress_line_without_end_or_marker_gives_nothing() {
    assert_eq!(parse_progress_time(b"time=00:00:04.00"), None);
    assert_eq!(parse_progress_time(b"frame= 10 fps=0.0"), None);
    assert_eq!(parse_progress_time(b"time=N/A bitrate=N/A"), None);
}

#[test]
fn fraction_of_half_way() {
    assert_eq!(progress_fraction(5, 10).unwrap().ppm(), 500_000);
    assert_eq!(progress_fraction(1, 3).unwrap().ppm(), 333_333);
    assert_eq!(progress_fraction(0, 3).unwrap().ppm(), 0);
}

#[test]
fn fraction_beyond_the_end_is_the_whole() {
    assert_eq!(progress_fraction(11, 10).unwrap().ppm(), 1_000_000);
    assert_eq!(progress_fraction(10, 10).unwrap().ppm(), 1_000_000);
    assert_eq!(progress_fraction(u64::MAX, 1).unwrap().ppm(), 1_000_000);
    assert_eq!(progress_fraction(u64::MAX - 1, u64::MAX).unwrap().ppm(), 999_999);
}

#[test]
fn fraction_of_no_length_gives_nothing() {
    assert!(progress_fraction(5, 0).is_none());
    assert!(progress_fraction(0, 0).is_none());
}

#[test]
fn fraction_from_parts_saturates() {
    assert_eq!(Fraction::from_ppm(250_000).ppm(), 250_000);
    assert_eq!(Fraction::from_ppm(2_000_000).ppm(), 1_000_000);
    assert_eq!(Fraction::zero().ppm(), 0);
    assert_eq!(Fraction::full().ppm(), 1_000_000);
    assert_eq!(Fraction::from_ppm(3).max(Fraction::from_ppm(7)).ppm(), 7);
    assert!(Fraction::from_ppm(3).same(&Fraction::from_ppm(3)));
}
