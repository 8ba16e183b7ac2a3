use haki_dl::console::format_file_size_display;
use haki_dl::numeric::{classify_number, divide_up, parse_manifest_number, NumberClass};
use haki_dl::path::{extension, file_name, file_stem, join_path, parent, with_extension};
use haki_dl::text::{
    find_text, lines_text, lowered, parse_i32_text, parse_i64_text, parse_u64_text, rfind_text,
    same_ignoring_case, space_char, split_text, trimmed, uppered,
};
use std::path::{Path, PathBuf};

fn paths() -> Vec<&'static str> {
    vec![
        "",
        "/",
        "a",
        "a/",
        "/a",
        "/a/",
        "a/b",
        "a//b",
        "/a/b/c.txt",
        "a/b.tar.gz",
        ".hidden",
        "/x/.hidden",
        "a.",
        "/a/b.",
        "..",
        "a/..",
        "../a",
        "a/.",
        "./a",
        ".",
        "/..",
        "a/b/../c.ts",
        "x y.z w",
        "ä/ö.ü",
        "a.b/c",
        "/t/0001.ts.tmp",
        "C:\\x\\y.txt",
        "a/./b",
        "//a/b",
        "...",
        "..a",
        "a..b",
        "..a/",
        "x/..a",
        "a.b/",
        "a.bb//",
        "a/b.c/.",
    ]
}

#[test]
fn parts_of_paths_agree_with_std() {
    for p in paths() {
        let path = Path::new(p);
        assert_eq!(
            file_name(p).map(str::to_string),
            path.file_name().map(|v| v.to_str().unwrap().to_string()),
            "name of {:?}",
            p
        );
        assert_eq!(
            extension(p).map(str::to_string),
            path.extension().map(|v| v.to_str().unwrap().to_string()),
            "extension of {:?}",
            p
        );
        assert_eq!(
            file_stem(p).map(str::to_string),
            path.file_stem().map(|v| v.to_str().unwrap().to_string()),
            "stem of {:?}",
            p
        );
        assert_eq!(
            parent(p),
            path.parent().map(|v| v.to_str().unwrap().to_string()),
            "parent of {:?}",
            p
        );
    }
}

#[test]
fn joined_paths_agree_with_std() {
    for a in paths() {
        for b in paths() {
            let joined: PathBuf = Path::new(a).join(b);
            assert_eq!(join_path(a, b), joined.to_str().unwrap(), "{:?} and {:?}", a, b);
        }
        for e in ["", "ts", "m4s.tmp"] {
            let changed = Path::new(a).with_extension(e);
            assert_eq!(with_extension(a, e), changed.to_str().unwrap(), "{:?} and {:?}", a, e);
        }
    }
}

#[test]
fn white_space_agrees_with_std() {
    for n in 0..0x11_0000u32 {
        if let Some(c) = char::from_u32(n) {
            assert_eq!(space_char(c), c.is_whitespace(), "{:?}", c);
        }
    }
}

fn texts() -> Vec<&'static str> {
    vec![
        "",
        " ",
        "a",
        " a b ",
        "\t\u{a0}x\u{2003}",
        "line\r\nline\n\nlast",
        "\n",
        "\r",
        "a\rb\n",
        "ÄÖÜ Straße",
        "1,2,,3",
        ",",
        "aXbXXc",
        "日本語 text",
    ]
}

#[test]
fn texts_agree_with_std() {
    for s in texts() {
        assert_eq!(trimmed(s), s.trim());
        assert_eq!(lines_text(s), s.lines().map(str::to_string).collect::<Vec<_>>(), "{:?}", s);
        assert_eq!(lowered(s), s.to_ascii_lowercase());
        assert_eq!(uppered(s), s.to_ascii_uppercase());
        for p in [",", "X", "XX", " ", "line"] {
            assert_eq!(
                split_text(s, p),
                s.split(p).map(str::to_string).collect::<Vec<_>>(),
                "{:?} at {:?}",
                s,
                p
            );
            let chars = |i: usize| s[..i].chars().count();
            assert_eq!(find_text(s, p), s.find(p).map(chars));
            assert_eq!(rfind_text(s, p), s.rfind(p).map(chars));
        }
        for t in texts() {
            assert_eq!(same_ignoring_case(s, t), s.eq_ignore_ascii_case(t));
        }
    }
}

#[test]
fn integers_agree_with_std() {
    let numbers = [
        "", "0", "-0", "+0", "+", "-", "007", "12", "-12", "+12", " 1", "1 ", "1_0", "0x10",
        "2147483647", "2147483648", "-2147483648", "-2147483649", "9223372036854775807",
        "9223372036854775808", "-9223372036854775808", "-9223372036854775809",
        "18446744073709551615", "18446744073709551616", "99999999999999999999999", "١",
    ];
    for n in numbers {
        assert_eq!(parse_u64_text(n), n.parse::<u64>().ok(), "{:?}", n);
        assert_eq!(parse_i64_text(n), n.parse::<i64>().ok(), "{:?}", n);
        assert_eq!(parse_i32_text(n), n.parse::<i32>().ok(), "{:?}", n);
    }
}

#[test]
fn numbers_agree_with_floats() {
    let numbers = [
        "", ".", "1", "-1", "+1.5", "1.", ".5", "-.5", "1e5", "1E-5", "1e", "e5", "1e+", "0", "-0",
        "-0.0", "1e308", "1.7976931348623157e308", "1.7976931348623158e308",
        "1.7976931348623159e308", "1e309", "-1e309", "1e-400", "-1e-400", "4.9e-324", "2.4e-324",
        "2.5e-324", "-2.4e-324", "-2.5e-324", "inf", "-inf", "infinity", "nan", "NaN", "+nan",
        "1.2.3", "1-2", "--1", "1 ", " 1", "0x1", "1e1e1", "00001", "1e00005",
        "0.000000000000000000000000000000000000001e40", "123456789012345678901234567890",
    ];
    for n in numbers {
        let class = match n.parse::<f64>() {
            Err(_) => NumberClass::Malformed,
            Ok(v) if !v.is_finite() => NumberClass::NotFinite,
            Ok(v) if v < 0.0 => NumberClass::Negative,
            Ok(_) => NumberClass::NotNegative,
        };
        assert_eq!(classify_number(n), class, "{:?}", n);
    }
    for n in ["1,234", "12,34.5", "1e3", "7"] {
        let kept = parse_manifest_number(n, "x").unwrap();
        assert_eq!(kept, n.replace(',', ""));
    }
}

#[test]
fn quotients_agree_with_floats() {
    let mut seed: u64 = 0x9e37_79b9_7f4a_7c15;
    let mut next = || {
        seed ^= seed << 13;
        seed ^= seed >> 7;
        seed ^= seed << 17;
        seed
    };
    for i in 0..20_000u32 {
        let a = (next() >> (i % 60)).max(1);
        let b = (next() >> ((i / 60) % 63)).max(1);
        let expected = ((a as f64) / (b as f64)).ceil();
        assert_eq!(divide_up(a, b) as f64, expected, "{} / {}", a, b);
    }
}

#[test]
fn shown_sizes_agree_with_floats() {
    let mut seed: u64 = 0x1234_5678_9abc_def1;
    for i in 0..20_000u32 {
        seed ^= seed << 13;
        seed ^= seed >> 7;
        seed ^= seed << 17;
        let size = seed >> (i % 64);
        let mut value = size as f64;
        let mut unit = "B";
        for candidate in ["KB", "MB", "GB", "TB"] {
            if value < 1024.0 {
                break;
            }
            value /= 1024.0;
            unit = candidate;
        }
        let expected = format!("{:.2}{}", value, unit);
        assert_eq!(format_file_size_display(size), expected, "{}", size);
    }
}
