use faceit_core::humanize::{group_decimal_text, Duration, FormattedDuration, HumanCount, HumanDuration};

fn human(secs: u64) -> String {
    HumanDuration(Duration::from_secs(secs)).to_string()
}

#[test]
fn human_duration_seconds_and_minutes() {
    assert_eq!(human(89), "89 seconds");
    assert_eq!(human(90), "2 minutes");
    assert_eq!(human(1), "1 second");
    assert_eq!(human(0), "0 seconds");
}

#[test]
fn human_duration_rounds_up_to_two_hours() {
    assert_eq!(human(60 * 60 + 59 * 60), "2 hours");
}

#[test]
fn human_duration_minute_boundary() {
    // d + 0.5 s >= 90 s switches to minutes.
    assert_eq!(HumanDuration(Duration::new(89, 500_000_000)).to_string(), "2 minutes");
    assert_eq!(HumanDuration(Duration::new(89, 499_999_999)).to_string(), "89 seconds");
}

#[test]
fn human_duration_hour_boundary() {
    // d + 30 s >= 5400 s switches to hours.
    assert_eq!(human(5370), "2 hours");
    assert_eq!(human(5369), "89 minutes");
}

#[test]
fn human_duration_day_boundary() {
    // d + 30 min >= 36 h switches to days.
    assert_eq!(human(127_800), "2 days");
    assert_eq!(human(127_799), "35 hours");
}

#[test]
fn human_duration_week_boundary() {
    // d + 12 h >= 10.5 days switches to weeks.
    assert_eq!(human(864_000), "2 weeks");
    assert_eq!(human(863_999), "10 days");
}

#[test]
fn human_duration_year_boundary() {
    // d + 3.5 days >= 547.5 days switches to years.
    assert_eq!(human(47_001_600), "2 years");
    assert_eq!(human(47_001_599), "78 weeks");
}

#[test]
fn human_duration_rounds_halves_up() {
    assert_eq!(human(3 * 365 * 86_400), "3 years");
    assert_eq!(human(78_840_000), "3 years");
}

#[test]
fn human_duration_compact() {
    assert_eq!(HumanDuration(Duration::from_secs(90)).to_compact_string(), "2m");
    assert_eq!(HumanDuration(Duration::from_secs(89)).to_compact_string(), "89s");
    assert_eq!(HumanDuration(Duration::from_secs(1)).to_compact_string(), "1s");
    assert_eq!(HumanDuration(Duration::from_secs(864_000)).to_compact_string(), "2w");
}

#[test]
fn human_duration_largest_span() {
    let d = Duration::new(u64::MAX, 999_999_999);
    assert_eq!(HumanDuration(d).to_string(), "584942417355 years");
}

#[test]
fn formatted_duration_fields() {
    assert_eq!(FormattedDuration(Duration::from_secs(3661)).to_string(), "01:01:01");
    assert_eq!(FormattedDuration(Duration::from_secs(90061)).to_string(), "1d 01:01:01");
    assert_eq!(FormattedDuration(Duration::from_secs(0)).to_string(), "00:00:00");
    assert_eq!(FormattedDuration(Duration::from_secs(86_399)).to_string(), "23:59:59");
    assert_eq!(FormattedDuration(Duration::from_secs(86_400)).to_string(), "1d 00:00:00");
    assert_eq!(FormattedDuration(Duration::from_secs(100 * 86_400 + 5)).to_string(), "100d 00:00:05");
}

#[test]
fn formatted_duration_ignores_sub_second_part() {
    assert_eq!(FormattedDuration(Duration::from_millis(59_999)).to_string(), "00:00:59");
}

#[test]
fn duration_constructors() {
    let d = Duration::new(1, 2_500_000_000);
    assert_eq!(d.as_secs(), 3);
    assert_eq!(d.subsec_nanos(), 500_000_000);
    let m = Duration::from_millis(1234);
    assert_eq!(m.as_secs(), 1);
    assert_eq!(m.subsec_nanos(), 234_000_000);
}

#[test]
fn human_count_grouping() {
    assert_eq!(HumanCount(1_234_567).to_string(), "1,234,567");
    assert_eq!(HumanCount(0).to_string(), "0");
    assert_eq!(HumanCount(999).to_string(), "999");
    assert_eq!(HumanCount(1000).to_string(), "1,000");
    assert_eq!(HumanCount(u64::MAX).to_string(), "18,446,744,073,709,551,615");
}

#[test]
fn human_float_count_text() {
    assert_eq!(group_decimal_text(&format!("{:.4}", 1234.5f64)), "1,234.5");
    assert_eq!(group_decimal_text(&format!("{:.4}", 1000.0f64)), "1,000");
    assert_eq!(group_decimal_text("1234.5000"), "1,234.5");
    assert_eq!(group_decimal_text("0.0000"), "0");
    assert_eq!(group_decimal_text("1234567.1230"), "1,234,567.123");
    assert_eq!(group_decimal_text("12.0001"), "12.0001");
    assert_eq!(group_decimal_text("inf"), "inf");
}
