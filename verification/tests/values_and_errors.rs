use kaleidoscope::error::{u64_to_string, Error};
use kaleidoscope::{verify_source_version, VERSION};
use kaleidoscope::values::{calculate_time_of_day, map_to_value, time_of_day_seconds, Fixed, HIGH, LOW};

#[test]
fn map_to_value_maps_midpoint_to_32768() {
    let lo = Fixed { micros: 0 };
    let hi = Fixed { micros: 1_000_000 };
    assert_eq!(map_to_value(lo, hi, Fixed { micros: 500_000 }), 32768);
}

#[test]
fn map_to_value_clamps_at_both_ends() {
    let lo = Fixed { micros: 0 };
    let hi = Fixed { micros: 1_000_000 };
    assert_eq!(map_to_value(lo, hi, Fixed { micros: -5 }), LOW);
    assert_eq!(map_to_value(lo, hi, Fixed { micros: 0 }), LOW);
    assert_eq!(map_to_value(lo, hi, Fixed { micros: 1_000_000 }), HIGH);
    assert_eq!(map_to_value(lo, hi, Fixed { micros: 2_000_000 }), HIGH);
}

#[test]
fn map_to_value_handles_shifted_ranges() {
    let lo = Fixed { micros: -1_000_000 };
    let hi = Fixed { micros: 1_000_000 };
    assert_eq!(map_to_value(lo, hi, Fixed { micros: 0 }), 32768);
    assert_eq!(map_to_value(lo, hi, Fixed { micros: 1_000_000 }), 65535);
}

#[test]
fn decimal_formatting_is_exact() {
    assert_eq!(u64_to_string(0), "0");
    assert_eq!(u64_to_string(7), "7");
    assert_eq!(u64_to_string(65535), "65535");
    assert_eq!(u64_to_string(1020300), "1020300");
}

#[test]
fn time_of_day_is_seconds_since_midnight() {
    assert_eq!(time_of_day_seconds(0, 0, 0), 0);
    assert_eq!(time_of_day_seconds(23, 59, 59), 86399);
    assert_eq!(time_of_day_seconds(12, 30, 15), 45015);
}

#[test]
fn wall_clock_time_of_day_is_in_range() {
    let tod = calculate_time_of_day();
    assert!(tod < 86400);
}

#[test]
fn error_messages_match_their_causes() {
    assert_eq!(Error::PriorityTooHigh.message(), "priority must be <= 20");
    assert_eq!(
        Error::UnknownAlias("unknown".to_string()).message(),
        "unknown alias: unknown"
    );
    assert_eq!(Error::AddressNotInUse(42).message(), "address not in use: 42");
    assert_eq!(
        Error::DuplicateParameterName("speed".to_string()).message(),
        "duplicate parameter name: speed"
    );
    assert_eq!(Error::LevelNotFound.message(), "level not found");
    assert_eq!(Error::ValueOutOfRange.message(), "value is out of range");
    assert_eq!(Error::NotFound.message(), "not found");
    assert_eq!(Error::SourceVersionMismatch.message(), "source version mismatch");
}

#[test]
fn source_version_must_match_the_engine() {
    assert_eq!(verify_source_version(VERSION), Ok(()));
    assert_eq!(
        verify_source_version(VERSION + 1),
        Err(Error::SourceVersionMismatch)
    );
}
