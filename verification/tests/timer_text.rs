use scoreboard::config::TimerRounding;
use scoreboard::timer::{format_ms, format_ms_basketball, format_ms_standard};

#[test]
fn standard_with_hours() {
    assert_eq!(format_ms_standard(3_661_000), "01:01:01");
}

#[test]
fn standard_without_hours() {
    assert_eq!(format_ms_standard(61_000), "01:01");
}

#[test]
fn basketball_tenths() {
    assert_eq!(format_ms_basketball(9_950), "10.0");
    assert_eq!(format_ms_basketball(59_949), "59.9");
    assert_eq!(format_ms_basketball(9_949), "9.9");
}

#[test]
fn basketball_minute_form() {
    assert_eq!(format_ms_basketball(60_000), "1:00");
    assert_eq!(format_ms(60_000, &TimerRounding::Basketball), "1:00");
}
