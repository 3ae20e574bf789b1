use ttlog_view::event::{LogEvent, LogLevel};
use ttlog_view::utils::{LevelColor, Utils};

#[test]
fn format_size_units() {
    assert_eq!(Utils::format_size(0), "0 bytes");
    assert_eq!(Utils::format_size(1023), "1023 bytes");
    assert_eq!(Utils::format_size(1024), "1.00 KB");
    assert_eq!(Utils::format_size(1536), "1.50 KB");
    assert_eq!(Utils::format_size(1024 * 1024), "1.00 MB");
    assert_eq!(Utils::format_size(5 * 1024 * 1024 * 1024), "5.00 GB");
}

#[test]
fn format_size_matches_float_formatting() {
    let samples: [u64; 12] = [
        1024, 1025, 1100, 1029, 10_239, 12_345, 999_999, 1_048_575, 3_221_225_472, 123_456_789_012,
        u64::MAX / 3, u64::MAX,
    ];
    for &n in samples.iter() {
        let kb = 1024.0f64;
        let f = n as f64;
        let expected = if f >= kb * kb * kb {
            format!("{:.2} GB", f / (kb * kb * kb))
        } else if f >= kb * kb {
            format!("{:.2} MB", f / (kb * kb))
        } else {
            format!("{:.2} KB", f / kb)
        };
        assert_eq!(Utils::format_size(n), expected, "size {}", n);
    }
}

#[test]
fn format_size_rounds_ties_to_even() {
    // 1.125 KB and 1.375 KB are exact in binary: ties go to the even digit.
    assert_eq!(Utils::format_size(1152), format!("{:.2} KB", 1152.0f64 / 1024.0));
    assert_eq!(Utils::format_size(1152), "1.12 KB");
    assert_eq!(Utils::format_size(1408), "1.38 KB");
}

#[test]
fn timestamps_in_utc() {
    assert_eq!(Utils::format_timestamp(0), "1970-01-01 00:00:00.000");
    assert_eq!(Utils::format_timestamp(1_700_000_000_123), "2023-11-14 22:13:20.123");
}

#[test]
fn compact_stamp_reformatted() {
    assert_eq!(Utils::format_timestamp_from_string("20251007215735"), "2025-10-07 21:57:35");
    assert_eq!(Utils::format_timestamp_from_string("not a stamp"), "1970-01-01 00:00:00");
}

#[test]
fn level_names_and_colors() {
    assert_eq!(Utils::level_name(LogLevel::WARN), "WARN");
    assert_eq!(Utils::level_color(LogLevel::ERROR), LevelColor::Magenta);
    assert_eq!(Utils::level_color(LogLevel::FATAL), LevelColor::Red);
    assert_eq!(LogLevel::FATAL.as_str(), "FATAL");
    assert_eq!(LogLevel::from_u8(&9), LogLevel::INFO);
    assert_eq!(LogLevel::from_u8(&LogLevel::DEBUG.as_u8()), LogLevel::DEBUG);
}

#[test]
fn packed_meta_round_trip() {
    let meta = LogEvent::pack_meta(1_700_000_000_123, LogLevel::ERROR, 7);
    let (ts, level, tid) = LogEvent::unpack_meta(meta);
    assert_eq!(ts, 1_700_000_000_123);
    assert_eq!(LogLevel::from_u8(&level), LogLevel::ERROR);
    assert_eq!(tid, 7);
}
