use audio_wrench::timefmt::format_timestamp;

#[test]
fn unknown_time_shows_dashes() {
    assert_eq!(format_timestamp(None), "--:--");
}

#[test]
fn times_are_zero_padded_minutes_and_seconds() {
    assert_eq!(format_timestamp(Some(0)), "00:00");
    assert_eq!(format_timestamp(Some(999)), "00:00");
    assert_eq!(format_timestamp(Some(1_000)), "00:01");
    assert_eq!(format_timestamp(Some(61_000)), "01:01");
    assert_eq!(format_timestamp(Some(125_000)), "02:05");
    assert_eq!(format_timestamp(Some(3_599_000)), "59:59");
}

#[test]
fn long_times_grow_past_two_digits() {
    assert_eq!(format_timestamp(Some(6_000_000)), "100:00");
}
