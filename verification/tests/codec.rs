use haki_dl::boxes::{box_bytes, full_box, push_u16, push_u32, push_u64};
use haki_dl::codec::{base64_encode, bytes_to_hex, decode_base64, decode_hex_pairs, HexRun};
use haki_dl::datetime::{
    current_local_time, days_from_civil, iso_timestamp, local_offset_seconds,
    offset_or_zero, padded, parse_manifest_timestamp, parse_manifest_timestamp_at,
    parse_manifest_timestamp_millis, parse_manifest_timestamp_seconds, LocalTime,
};
use haki_dl::error::Error;
use haki_dl::numeric::{classify_number, divide_up, parse_manifest_number, NumberClass};
use haki_dl::path::{extension, file_name, file_stem, join_path, parent, with_extension};
use haki_dl::processor::{current_millis, whole_millis};
use haki_dl::text::{lines_text, replace_text, split_text, trimmed, u64_text};
use haki_dl::text_map::TextMap;
use haki_dl::url::{append_query_params, combine_url, form_decode, form_encode, query_part};

#[test]
fn base64_round_trip() {
    for n in 0..40usize {
        let bytes: Vec<u8> = (0..n).map(|i| (i * 37 + 11) as u8).collect();
        let text = base64_encode(&bytes);
        assert_eq!(decode_base64(&text), Ok(bytes));
    }
}

#[test]
fn base64_known_values() {
    assert_eq!(base64_encode(&b"hello".to_vec()), "aGVsbG8=");
    assert_eq!(decode_base64("aGVs bG8="), Ok(b"hello".to_vec()));
    assert!(decode_base64("aGVsbG8").is_err());
    assert!(decode_base64("a*VsbG8=").is_err());
}

#[test]
fn hex_round_trip() {
    let bytes: Vec<u8> = (0..=255u8).collect();
    for upper in [false, true] {
        match decode_hex_pairs(&bytes_to_hex(&bytes, upper)) {
            HexRun::Bytes(back) => assert_eq!(back, bytes),
            _ => panic!("bytes expected"),
        }
    }
    assert_eq!(bytes_to_hex(&vec![0x0f, 0xa0], false), "0fa0");
    assert_eq!(bytes_to_hex(&vec![0x0f, 0xa0], true), "0FA0");
    assert!(matches!(decode_hex_pairs("abc"), HexRun::Odd));
    assert!(matches!(decode_hex_pairs("zz"), HexRun::Bad));
}

#[test]
fn numbers_stand_most_significant_byte_first() {
    let mut out: Vec<u8> = Vec::new();
    push_u16(&mut out, 0x0102);
    push_u32(&mut out, 0x0304_0506);
    push_u64(&mut out, 0x0708_090a_0b0c_0d0e);
    assert_eq!(out, (1..=14u8).collect::<Vec<u8>>());
}

#[test]
fn boxes_state_their_length() {
    assert_eq!(box_bytes("free", vec![9, 9]), vec![0, 0, 0, 10, b'f', b'r', b'e', b'e', 9, 9]);
    assert_eq!(
        full_box("mvhd", 1, 0x020304, vec![7]),
        vec![0, 0, 0, 13, b'm', b'v', b'h', b'd', 1, 2, 3, 4, 7]
    );
}

#[test]
fn calendar_starts_in_1970() {
    assert_eq!(days_from_civil(1970, 1, 1), Some(0));
    assert_eq!(days_from_civil(1970, 12, 31), Some(364));
    assert_eq!(days_from_civil(1971, 1, 1), Some(365));
    assert_eq!(days_from_civil(2000, 2, 29), Some(11016));
    assert_eq!(days_from_civil(2000, 3, 1), Some(11017));
}

#[test]
fn utc_timestamps_do_not_depend_on_the_local_offset() {
    let a = parse_manifest_timestamp_at("2020-01-01T00:00:00Z", 0).unwrap();
    let b = parse_manifest_timestamp_at("2020-01-01T00:00:00Z", 7200).unwrap();
    assert_eq!(a.unix_seconds, 1_577_836_800);
    assert_eq!(b.unix_seconds, a.unix_seconds);
    assert_eq!(a.unix_millis, 1_577_836_800_000);
    let c = parse_manifest_timestamp_at("2020-01-01T02:00:00.250+02:00", 0).unwrap();
    assert_eq!(c.unix_millis, 1_577_836_800_250);
    let d = parse_manifest_timestamp_at("2020-01-01T02:00:00", 7200).unwrap();
    assert_eq!(d.unix_seconds, 1_577_836_800);
    assert!(parse_manifest_timestamp_at("2020-13-01T00:00:00Z", 0).is_none());
    assert!(parse_manifest_timestamp_at("yesterday", 0).is_none());
}

#[test]
fn unknown_offsets_are_zero() {
    assert_eq!(offset_or_zero(Some(-3600)), -3600);
    assert_eq!(offset_or_zero(None), 0);
}

#[test]
fn seconds_and_milliseconds_make_milliseconds() {
    assert_eq!(whole_millis(1_577_836_800, 250), 1_577_836_800_250);
    assert_eq!(whole_millis(-2, 500), -1500);
    assert!(current_millis() > 1_700_000_000_000);
}

#[test]
fn timestamps_use_the_offset_of_this_system() {
    let offset = local_offset_seconds();
    let here = parse_manifest_timestamp("2020-01-01T00:00:00").unwrap();
    assert_eq!(here.unix_seconds, 1_577_836_800 - offset as i64);
    assert_eq!(
        parse_manifest_timestamp_seconds("2020-01-01T00:00:01Z"),
        Some(1_577_836_801)
    );
    assert_eq!(
        parse_manifest_timestamp_millis("2020-01-01T00:00:01Z"),
        Some(1_577_836_801_000)
    );
}

#[test]
fn present_time_is_after_this_was_written() {
    let now = current_local_time();
    assert!(now.year >= 2024);
    assert!((1..=12).contains(&now.month));
    assert!((1..=31).contains(&now.day));
    assert!(now.hour < 24 && now.minute < 60 && now.second < 60);
}

#[test]
fn iso_timestamp_of_a_time() {
    let t = LocalTime {
        year: 2024,
        month: 3,
        day: 9,
        hour: 4,
        minute: 5,
        second: 6,
        nanosecond: 0,
        offset_seconds: 5400,
    };
    assert_eq!(iso_timestamp(&t), "2024-03-09T04:05:06.0000000+01:30");
    assert_eq!(padded(7, 3), "007");
    assert_eq!(padded(1234, 3), "1234");
}

#[test]
fn manifest_numbers() {
    assert_eq!(parse_manifest_number("1,234.5", "x").unwrap(), "1234.5");
    assert_eq!(parse_manifest_number("10", "x").unwrap(), "10");
    assert!(parse_manifest_number("abc", "HLS frame rate").is_err());
    assert!(parse_manifest_number("1e400", "x").is_err());
    assert_eq!(classify_number("-2.5"), NumberClass::Negative);
    assert_eq!(classify_number("0"), NumberClass::NotNegative);
    assert_eq!(classify_number("inf"), NumberClass::NotFinite);
    assert_eq!(classify_number("2..5"), NumberClass::Malformed);
}

#[test]
fn quotients_are_rounded_up_as_doubles_are() {
    let pairs: [(u64, u64); 8] = [
        (7, 2),
        (8, 2),
        (1, 3),
        (9_007_199_254_740_993, 2),
        (9_007_199_254_740_993, 3),
        (10_000_000, 3),
        (18_446_744_073_709_551_615, 7),
        (123_456_789_012_345_678, 1000),
    ];
    for (a, b) in pairs {
        let expected = ((a as f64) / (b as f64)).ceil();
        assert_eq!(divide_up(a, b) as f64, expected, "{} / {}", a, b);
    }
}

#[test]
fn paths_are_taken_apart() {
    assert_eq!(file_name("/a/b.ts"), Some("b.ts"));
    assert_eq!(file_name("/"), None);
    assert_eq!(parent("/a/b.ts"), Some("/a".to_string()));
    assert_eq!(extension("/a/b.tar.gz"), Some("gz"));
    assert_eq!(extension("/a/.hidden"), None);
    assert_eq!(file_stem("/a/b.tar.gz"), Some("b.tar"));
    assert_eq!(join_path("/a", "b"), "/a/b");
    assert_eq!(join_path("/a", "/b"), "/b");
    assert_eq!(with_extension("/a/b.ts", "mp4"), "/a/b.mp4");
}

#[test]
fn texts_are_taken_apart() {
    assert_eq!(lines_text("a\r\nb\n\nc"), vec!["a", "b", "", "c"]);
    assert_eq!(split_text("a,b,,c", ","), vec!["a", "b", "", "c"]);
    assert_eq!(replace_text("aXbX", "X", "--"), "a--b--");
    assert_eq!(trimmed(" \u{3000}x y\t\n"), "x y");
    assert_eq!(u64_text(u64::MAX), u64::MAX.to_string());
}

#[test]
fn map_gives_back_what_was_put() {
    let mut map: TextMap<String> = TextMap::new();
    map.insert("b".to_string(), "1".to_string());
    map.insert("a".to_string(), "2".to_string());
    map.insert("b".to_string(), "3".to_string());
    assert_eq!(map.get("b"), Some(&"3".to_string()));
    assert_eq!(map.get("a"), Some(&"2".to_string()));
    assert_eq!(map.get("c"), None);
    let keys: Vec<&str> = map.entries.iter().map(|e| e.0.as_str()).collect();
    assert_eq!(keys, vec!["a", "b"]);
    assert_eq!(map.remove("a"), Some("2".to_string()));
    assert!(!map.contains_key("a"));
}

#[test]
fn urls_are_combined() {
    assert_eq!(
        combine_url("https://example.com/a/b.m3u8", "seg.ts"),
        "https://example.com/a/seg.ts"
    );
    assert_eq!(
        combine_url("https://example.com/a/b.m3u8", "/seg.ts"),
        "https://example.com/seg.ts"
    );
    assert_eq!(
        combine_url("https://example.com/a/b.m3u8", "https://other.net/x"),
        "https://other.net/x"
    );
}

#[test]
fn form_text_round_trip() {
    for text in ["", "a b", "ä&=?+%/~*", "2 + 2 = 4", "日本語"] {
        assert_eq!(form_decode(&form_encode(text)), text);
    }
    assert_eq!(form_encode("a b&c"), "a+b%26c");
    assert_eq!(form_decode("a%20b+c"), "a b c");
}

#[test]
fn query_parameters_are_taken_over() {
    assert_eq!(query_part("https://a/b?x=1#frag"), "x=1");
    assert_eq!(
        append_query_params("https://a/seg.ts?y=2", "https://a/list.m3u8?x=1"),
        "https://a/seg.ts?y=2&x=1"
    );
}

#[test]
fn errors_are_told_with_their_area() {
    let cases = [
        (Error::protocol("m"), "protocol error: m"),
        (Error::http("m"), "http error: m"),
        (Error::io("m"), "io error: m"),
        (Error::decrypt("m"), "decrypt error: m"),
        (Error::mux("m"), "mux error: m"),
        (Error::subtitle("m"), "subtitle error: m"),
        (Error::live("m"), "live error: m"),
        (Error::config("m"), "config error: m"),
        (Error::compatibility("m"), "compatibility error: m"),
    ];
    for (error, text) in cases {
        assert_eq!(error.display(), text);
        assert_eq!(error.compatibility_message(), "m");
    }
    assert_eq!(Error::UserCancelled.display(), "operation cancelled");
    assert_eq!(Error::UserCancelled.compatibility_message(), "operation cancelled");
}
