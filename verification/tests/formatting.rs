use sysmon::formatting::{
    bp_to_tenths, format_bytes, format_hundredths, format_tenths, format_uptime, milli_to_tenths,
    truncate_name, u64_to_dec,
};

#[test]
fn bytes_zero() {
    assert_eq!(format_bytes(0), "0 B");
}

#[test]
fn bytes_one_kilobyte() {
    assert_eq!(format_bytes(1024), "1.0 KB");
}

#[test]
fn bytes_one_and_a_half_kilobytes() {
    assert_eq!(format_bytes(1536), "1.5 KB");
}

#[test]
fn bytes_one_gigabyte() {
    assert_eq!(format_bytes(1_073_741_824), "1.0 GB");
}

#[test]
fn bytes_below_unit_boundary() {
    assert_eq!(format_bytes(1023), "1023 B");
}

#[test]
fn bytes_megabytes_and_terabytes() {
    assert_eq!(format_bytes(1_048_576), "1.0 MB");
    assert_eq!(format_bytes(1_572_864), "1.5 MB");
    assert_eq!(format_bytes(1_099_511_627_776), "1.0 TB");
}

#[test]
fn bytes_rounding_to_one_decimal() {
    // 1075 bytes is 1.0498 KB, which rounds to 1.0.
    assert_eq!(format_bytes(1075), "1.0 KB");
    // 1228 bytes is 1.1992 KB, which rounds to 1.2.
    assert_eq!(format_bytes(1228), "1.2 KB");
}

#[test]
fn bytes_ties_round_to_even() {
    // 1280 bytes is exactly 1.25 KB: the tie goes to the even digit, as
    // float formatting would print it.
    assert_eq!(format_bytes(1280), "1.2 KB");
    // 2304 bytes is exactly 2.25 KB.
    assert_eq!(format_bytes(2304), "2.2 KB");
    // 1310720 bytes is exactly 1.25 MB.
    assert_eq!(format_bytes(1_310_720), "1.2 MB");
    // 1408 bytes is exactly 1.375 KB: above the half, rounds up.
    assert_eq!(format_bytes(1408), "1.4 KB");
    // 1356 bytes is 1.32421875 KB: below the half of the odd digit,
    // stays at 1.3.
    assert_eq!(format_bytes(1356), "1.3 KB");
    // 1382 bytes is 1.349609375 KB; 1383 is 1.3505859375 KB.
    assert_eq!(format_bytes(1382), "1.3 KB");
    assert_eq!(format_bytes(1383), "1.4 KB");
}

#[test]
fn bytes_carry_at_unit_boundary() {
    // 1048575 bytes is 1023.999 KB, which rounds up to 1024.0 KB (the
    // unit steps up only at 1048576).
    assert_eq!(format_bytes(1_048_575), "1024.0 KB");
}

#[test]
fn truncate_minimum_width() {
    assert_eq!(truncate_name("abcdef", 3), "...");
    assert_eq!(truncate_name("ab", 2), "ab");
}

#[test]
fn uptime_zero() {
    assert_eq!(format_uptime(0), "0m");
}

#[test]
fn uptime_hour_and_minute() {
    assert_eq!(format_uptime(3661), "1h 1m");
}

#[test]
fn uptime_day_hour_minute() {
    assert_eq!(format_uptime(90061), "1d 1h 1m");
}

#[test]
fn uptime_sub_minute_and_whole_day() {
    assert_eq!(format_uptime(59), "0m");
    assert_eq!(format_uptime(86400), "1d 0h 0m");
    assert_eq!(format_uptime(120), "2m");
}

#[test]
fn truncate_long_name() {
    let name = "abcdefghijklmnopqrstuvwxyz1234";
    assert_eq!(name.chars().count(), 30);
    let t = truncate_name(name, 10);
    assert_eq!(t.chars().count(), 10);
    assert!(t.ends_with("..."));
    assert_eq!(&t[..7], &name[..7]);
}

#[test]
fn truncate_short_name_unchanged() {
    assert_eq!(truncate_name("eth0", 10), "eth0");
    assert_eq!(truncate_name("exactlyten", 10), "exactlyten");
}

#[test]
fn truncate_multibyte_on_char_boundary() {
    let name = "ééééééééééé";
    assert_eq!(name.chars().count(), 11);
    let t = truncate_name(name, 10);
    assert_eq!(t.chars().count(), 10);
    assert_eq!(t, "ééééééé...");
}

#[test]
fn decimal_rendering() {
    assert_eq!(u64_to_dec(0), "0");
    assert_eq!(u64_to_dec(7), "7");
    assert_eq!(u64_to_dec(18446744073709551615), "18446744073709551615");
}

#[test]
fn rounding_to_tenths() {
    assert_eq!(bp_to_tenths(4567), 457);
    assert_eq!(bp_to_tenths(4564), 456);
    // Exact halves go to the even neighbor.
    assert_eq!(bp_to_tenths(4565), 456);
    assert_eq!(bp_to_tenths(4575), 458);
    assert_eq!(milli_to_tenths(75_049), 750);
    assert_eq!(milli_to_tenths(75_050), 750);
    assert_eq!(milli_to_tenths(75_150), 752);
}

#[test]
fn tenths_and_hundredths() {
    assert_eq!(format_tenths(453), "45.3");
    assert_eq!(format_tenths(0), "0.0");
    assert_eq!(format_hundredths(1205), "12.05");
    assert_eq!(format_hundredths(5), "0.05");
}
