use leopardwm::build_stamp::{
    build_comments, build_stamp, civil_from_unix, file_version, stamp_epoch, version_long,
};
use leopardwm::epoch_text::parse_epoch;

#[test]
fn civil_times_of_known_seconds() {
    assert_eq!(civil_from_unix(0), (1970, 1, 1, 0, 0, 0));
    assert_eq!(civil_from_unix(86_399), (1970, 1, 1, 23, 59, 59));
    assert_eq!(civil_from_unix(951_782_400), (2000, 2, 29, 0, 0, 0));
    assert_eq!(civil_from_unix(951_868_800), (2000, 3, 1, 0, 0, 0));
    assert_eq!(civil_from_unix(4_107_542_400), (2100, 3, 1, 0, 0, 0));
    assert_eq!(civil_from_unix(4_107_542_399), (2100, 2, 28, 23, 59, 59));
    assert_eq!(civil_from_unix(1_781_620_205), (2026, 6, 16, 14, 30, 5));
    assert_eq!(civil_from_unix(253_402_300_800), (10000, 1, 1, 0, 0, 0));
}

#[test]
fn stamps_name_time_and_day_count() {
    let stamp = build_stamp(1_781_620_205);
    assert_eq!(stamp.timestamp, "2026-06-16T14:30:05Z");
    assert_eq!(stamp.epoch, 1_781_620_205);
    assert_eq!(stamp.number, 2358);
    assert_eq!(build_stamp(1_577_836_800).number, 0);
    assert_eq!(build_stamp(1_577_836_800).timestamp, "2020-01-01T00:00:00Z");
    assert_eq!(
        build_stamp(253_402_300_800).timestamp,
        "10000-01-01T00:00:00Z"
    );
}

#[test]
fn day_counts_stay_within_a_version_component() {
    assert_eq!(build_stamp(0).number, 0);
    assert_eq!(build_stamp(0).timestamp, "1970-01-01T00:00:00Z");
    assert_eq!(build_stamp(1_577_836_799).number, 0);
    assert_eq!(build_stamp(1_577_836_800 + 86_400).number, 1);
    let last = (18_262 + 65_535) * 86_400;
    assert_eq!(build_stamp(last - 1).number, 65_534);
    assert_eq!(build_stamp(last).number, 65_535);
    assert_eq!(build_stamp(last + 86_400).number, 65_535);
    assert_eq!(build_stamp(u64::MAX).number, 65_535);
}

#[test]
fn the_override_comes_before_the_clock() {
    assert_eq!(stamp_epoch(Some(7), Some(9)), 7);
    assert_eq!(stamp_epoch(None, Some(9)), 9);
    assert_eq!(stamp_epoch(None, None), 0);
}

#[test]
fn versions_carry_the_stamp() {
    assert_eq!(
        version_long("0.2.9", "2026-06-16T14:30:05Z"),
        "0.2.9 (built 2026-06-16T14:30:05Z)"
    );
    assert_eq!(file_version("0.2.9", 2358), "0.2.9.2358");
    assert_eq!(file_version("0.2.9", 0), "0.2.9.0");
    assert_eq!(
        build_comments("2026-06-16T14:30:05Z"),
        "Built 2026-06-16T14:30:05Z"
    );
}

#[test]
fn overrides_are_decimal_seconds() {
    assert_eq!(parse_epoch("0"), Some(0));
    assert_eq!(parse_epoch("1781620205"), Some(1_781_620_205));
    assert_eq!(parse_epoch(" \t\r\n1781620205\u{a0}\u{3000}\n"), Some(1_781_620_205));
    assert_eq!(parse_epoch("+7"), Some(7));
    assert_eq!(parse_epoch("0000000000000000000000000042"), Some(42));
    assert_eq!(parse_epoch("18446744073709551615"), Some(u64::MAX));
    for wrong in [
        "",
        "  ",
        "+",
        "++1",
        "-1",
        "-0",
        "1 2",
        "12s",
        "1.5",
        "0x10",
        "1_000",
        "18446744073709551616",
        "99999999999999999999",
        "\u{661}",
        "\u{200b}1",
    ] {
        assert_eq!(parse_epoch(wrong), None, "{wrong:?}");
    }
}

#[test]
fn overrides_are_read_as_the_standard_library_reads_them() {
    for code in (0..0x3100).chain([0xfeff, 0x1f600]) {
        let Some(c) = char::from_u32(code) else {
            continue;
        };
        for text in [
            format!("{c}5"),
            format!("5{c}"),
            format!("{c}5{c}"),
            format!("5{c}5"),
            format!("+{c}5"),
            format!("{c}"),
        ] {
            assert_eq!(parse_epoch(&text), text.trim().parse::<u64>().ok(), "{text:?}");
        }
    }
}
