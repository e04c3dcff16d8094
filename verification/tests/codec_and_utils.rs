use miner::codec::{be_u32, i64_to_dec, nonce_hex, parse_difficulty, u64_to_dec};
use miner::utils::{
    contains_sub, format_duration, handle_submit_error, parse_duration, shorten_address,
    time_to_string,
};

#[test]
fn short_address_keeps_short_addresses() {
    let a = String::from("abc");
    assert_eq!(shorten_address(&a), "abc");
    let b = String::from("abcdefghijklmnopqrstuvwx");
    assert_eq!(b.len(), 24);
    assert_eq!(shorten_address(&b), "abcdefghijklmnopqrstuvwx");
}

#[test]
fn short_address_elides_long_addresses() {
    let a = String::from("abcdefghijklmnopqrstuvwxy");
    assert_eq!(a.len(), 25);
    assert_eq!(shorten_address(&a), "abcdefghij...uvwxy");
    let b = String::from("0123456789aaaaaaaaaaaaaaaaaaaaaaaaaaaaaaaaaaaaaaaaaaaaaZYXWV");
    assert_eq!(shorten_address(&b), "0123456789...ZYXWV");
}

#[test]
fn format_duration_exact_values() {
    assert_eq!(format_duration(0), "0s");
    assert_eq!(format_duration(59), "59s");
    assert_eq!(format_duration(60), "1m");
    assert_eq!(format_duration(61), "1m1s");
    assert_eq!(format_duration(3600), "1h");
    assert_eq!(format_duration(3660), "1h1m");
    assert_eq!(format_duration(3661), "1h1m1s");
    assert_eq!(format_duration(86399), "23h59m59s");
    assert_eq!(format_duration(90000), "25h");
}

#[test]
fn format_duration_round_trips() {
    for n in [
        0i32,
        1,
        59,
        60,
        61,
        599,
        600,
        3599,
        3600,
        3601,
        3660,
        3661,
        86399,
        86400,
        123456,
        i32::MAX,
    ] {
        let s = format_duration(n);
        assert_eq!(parse_duration(&s), Some(n as i64), "round trip of {} via {}", n, s);
    }
}

#[test]
fn parse_duration_reads_components() {
    assert_eq!(parse_duration("2h"), Some(7200));
    assert_eq!(parse_duration("90m"), Some(5400));
    assert_eq!(parse_duration("10s"), Some(10));
    assert_eq!(parse_duration("1h30m"), Some(5400));
    assert_eq!(parse_duration("0s"), Some(0));
}

#[test]
fn parse_duration_rejects_malformed() {
    assert_eq!(parse_duration(""), None);
    assert_eq!(parse_duration("5"), None);
    assert_eq!(parse_duration("h"), None);
    assert_eq!(parse_duration("5x"), None);
    assert_eq!(parse_duration("12m05"), None);
    assert_eq!(parse_duration("9999999999999999999999h"), None);
}

#[test]
fn parse_difficulty_reads_lowercase_hex() {
    assert_eq!(parse_difficulty("ffffffff"), Some(0xffffffff));
    assert_eq!(parse_difficulty("0"), Some(0));
    assert_eq!(parse_difficulty("00000000"), Some(0));
    assert_eq!(parse_difficulty("1a2b3c"), Some(0x1a2b3c));
    assert_eq!(parse_difficulty("0ffffffff"), Some(0xffffffff));
}

#[test]
fn parse_difficulty_rejects_bad_masks() {
    assert_eq!(parse_difficulty(""), None);
    assert_eq!(parse_difficulty("FFFFFFFF"), None);
    assert_eq!(parse_difficulty("xyz"), None);
    assert_eq!(parse_difficulty("100000000"), None);
    assert_eq!(parse_difficulty("12 34"), None);
}

#[test]
fn nonce_hex_is_sixteen_zero_padded_digits() {
    assert_eq!(nonce_hex(0), "0000000000000000");
    assert_eq!(nonce_hex(0xdeadbeef), "00000000deadbeef");
    assert_eq!(nonce_hex(u64::MAX), "ffffffffffffffff");
    assert_eq!(nonce_hex(0x0123456789abcdef), "0123456789abcdef");
}

#[test]
fn be_u32_reads_leading_bytes() {
    let d = vec![0x12u8, 0x34, 0x56, 0x78, 0xff, 0xee];
    assert_eq!(be_u32(&d), 0x12345678);
    let z = vec![0u8; 32];
    assert_eq!(be_u32(&z), 0);
}

#[test]
fn decimal_rendering() {
    assert_eq!(u64_to_dec(0), "0");
    assert_eq!(u64_to_dec(12345678901234567890), "12345678901234567890");
    assert_eq!(i64_to_dec(-42), "-42");
    assert_eq!(i64_to_dec(i64::MIN), "-9223372036854775808");
}

#[test]
fn submit_errors_classified_by_substring() {
    assert_eq!(
        handle_submit_error("the deadline has elapsed for this"),
        "failed_to_submit_deadline_exceeded"
    );
    assert_eq!(handle_submit_error("request timed out"), "failed_to_submit_timeout");
    assert_eq!(handle_submit_error("connect timeout reached"), "failed_to_submit_timeout");
    assert_eq!(
        handle_submit_error("409: Solution already exists"),
        "failed_to_submit_solution_exists"
    );
    assert_eq!(
        handle_submit_error("Challenge window closed, sorry"),
        "failed_to_submit_submission_window_closed"
    );
    assert_eq!(handle_submit_error("boom"), "failed_to_submit_general");
}

#[test]
fn substring_search() {
    assert!(contains_sub("duplicate key error collection", "duplicate key error"));
    assert!(!contains_sub("duplicate-key error", "duplicate key error"));
    assert!(contains_sub("abc", ""));
    assert!(!contains_sub("ab", "abc"));
}

#[test]
fn rfc3339_rendering_of_epoch() {
    assert_eq!(time_to_string(1431648000), "2015-05-15T00:00:00.000000Z");
    assert_eq!(time_to_string(0), "1970-01-01T00:00:00.000000Z");
}

#[test]
fn rfc3339_rendering_rejects_out_of_range_epochs() {
    assert_eq!(
        miner::utils::epoch_rfc3339(1431648000),
        Some(String::from("2015-05-15T00:00:00.000000Z"))
    );
    assert_eq!(miner::utils::epoch_rfc3339(-1), None);
    assert_eq!(miner::utils::epoch_rfc3339(253_402_300_800), None);
}
