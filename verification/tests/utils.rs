use gold_rates::utils::{
    current_timestamp, current_wib_time, format_diff_display, format_profit, format_rupiah,
    format_waktu_only, format_wib_clock, timestamp_from_reading, decimal_comma,
};

#[test]
fn test_format_rupiah() {
    assert_eq!(format_rupiah(1000), "1.000");
    assert_eq!(format_rupiah(1000000), "1.000.000");
    assert_eq!(format_rupiah(500), "500");
    assert_eq!(format_rupiah(0), "0");
}

#[test]
fn test_format_diff_display() {
    assert_eq!(format_diff_display(5000, "🚀"), "🚀+5.000");
    assert_eq!(format_diff_display(-3000, "🔻"), "🔻-3.000");
    assert_eq!(format_diff_display(0, "➖"), "➖tetap");
}

#[test]
fn rupiah_negative_and_extremes() {
    assert_eq!(format_rupiah(-1), "-1");
    assert_eq!(format_rupiah(-999), "-999");
    assert_eq!(format_rupiah(-1000), "-1.000");
    assert_eq!(format_rupiah(12345), "12.345");
    assert_eq!(format_rupiah(123456), "123.456");
    assert_eq!(format_rupiah(1234567), "1.234.567");
    assert_eq!(format_rupiah(i64::MAX), "9.223.372.036.854.775.807");
    assert_eq!(format_rupiah(i64::MIN), "-9.223.372.036.854.775.808");
}

#[test]
fn rupiah_sign_law_on_values() {
    for n in [1i64, 7, 1000, 987654321] {
        assert_eq!(format_rupiah(-n), format!("-{}", format_rupiah(n)));
    }
}

#[test]
fn diff_display_other_marks() {
    assert_eq!(format_diff_display(1234567, "🚀"), "🚀+1.234.567");
    assert_eq!(format_diff_display(-1234567, "🚀"), "🚀+-1.234.567");
    assert_eq!(format_diff_display(3000, "🔻"), "🔻-3.000");
    assert_eq!(format_diff_display(42, "x"), "➖tetap");
    assert_eq!(format_diff_display(42, ""), "➖tetap");
}

#[test]
fn waktu_only_cases() {
    assert_eq!(format_waktu_only("2024-05-01 13:45:09", "🚀"), "13:45:09🚀");
    assert_eq!(format_waktu_only("2024-05-01 13:45:09.123", "➖"), "13:45:09➖");
    assert_eq!(format_waktu_only("13:45", "🔻"), "13:45🔻");
    assert_eq!(format_waktu_only("", ""), "");
}

#[test]
fn wib_clock_values() {
    assert_eq!(format_wib_clock(0), "07:00:00");
    assert_eq!(format_wib_clock(61200), "00:00:00");
    assert_eq!(format_wib_clock(61200 + 3661), "01:01:01");
    assert_eq!(format_wib_clock(86399), "06:59:59");
    assert_eq!(format_wib_clock(u64::MAX), "14:00:15");
}

#[test]
fn current_time_shapes() {
    assert!(current_timestamp() > 1_600_000_000);
    let t = current_wib_time();
    assert_eq!(t.len(), 8);
    assert_eq!(&t[2..3], ":");
    assert_eq!(&t[5..6], ":");
}

#[test]
fn profit_lines() {
    assert_eq!(format_profit(150000, "1,2345"), "+150.000🟢1,2345gr");
    assert_eq!(format_profit(-2500, "0,5000"), "-2.500🔴0,5000gr");
    assert_eq!(format_profit(0, "2,0000"), "0➖2,0000gr");
}

#[test]
fn timestamp_readings_and_commas() {
    assert_eq!(timestamp_from_reading(Some(1_700_000_000)), 1_700_000_000);
    assert_eq!(timestamp_from_reading(None), 0);
    assert_eq!(decimal_comma("1.2345"), "1,2345");
    assert_eq!(decimal_comma("12"), "12");
    assert_eq!(decimal_comma("a.b.c"), "a,b,c");
}
