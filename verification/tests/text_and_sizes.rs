use macmtp::phrases::Language;
use macmtp::text::{decimal_of, hex8_of, is_white_space, parse_index, trim_of};
use macmtp::util::{describe_error, format_bytes, format_mtp_error, sanitize_filename};

fn float_bytes(bytes: u64) -> String {
    const UNITS: [&str; 5] = ["B", "KB", "MB", "GB", "TB"];
    let mut value = bytes as f64;
    let mut unit = 0;
    while value >= 1024.0 && unit < UNITS.len() - 1 {
        value /= 1024.0;
        unit += 1;
    }
    if unit == 0 {
        format!("{} {}", bytes, UNITS[unit])
    } else {
        format!("{value:.1} {}", UNITS[unit])
    }
}

#[test]
fn sizes_have_one_decimal_in_their_unit() {
    assert_eq!(format_bytes(0), "0 B");
    assert_eq!(format_bytes(1023), "1023 B");
    assert_eq!(format_bytes(1024), "1.0 KB");
    assert_eq!(format_bytes(1536), "1.5 KB");
    assert_eq!(format_bytes(1_048_575), "1024.0 KB");
    assert_eq!(format_bytes(1 << 20), "1.0 MB");
    assert_eq!(format_bytes(5 * (1 << 30) + (1 << 29)), "5.5 GB");
    assert_eq!(format_bytes(1 << 50), "1024.0 TB");
    assert_eq!(format_bytes(u64::MAX), "16777216.0 TB");
}

#[test]
fn size_ties_go_to_the_even_tenth() {
    assert_eq!(format_bytes(1280), "1.2 KB");
    assert_eq!(format_bytes(1792), "1.8 KB");
}

#[test]
fn sizes_agree_with_floating_point() {
    let mut x: u64 = 0x9E37_79B9_7F4A_7C15;
    for round in 0..200_000u64 {
        x ^= x << 13;
        x ^= x >> 7;
        x ^= x << 17;
        let value = x >> (round % 64);
        assert_eq!(format_bytes(value), float_bytes(value), "{value}");
    }
    for m in 0..4096u64 {
        for d in 0..3u64 {
            for shift in [8u32, 18, 28, 38] {
                let value = (m << shift).wrapping_add(d).wrapping_sub(1);
                assert_eq!(format_bytes(value), float_bytes(value), "{value}");
            }
        }
    }
    for m in (1u64 << 20)..(1 << 20) + 4096 {
        for d in 0..3u64 {
            let value = (m << 38).wrapping_add(d).wrapping_sub(1);
            assert_eq!(format_bytes(value), float_bytes(value), "{value}");
        }
    }
}

#[test]
fn white_space_is_what_the_standard_library_calls_it() {
    for code in 0..=0x10FFFFu32 {
        if let Some(c) = char::from_u32(code) {
            assert_eq!(is_white_space(c), c.is_whitespace(), "{code:x}");
        }
    }
}

#[test]
fn trimming_agrees_with_the_standard_library() {
    for s in ["", " ", "a", " a", "a ", "\u{3000} a b\u{a0}\n", "\t\r\n", " 名 称 "] {
        assert_eq!(trim_of(s), s.trim());
    }
}

#[test]
fn numerals_agree_with_the_standard_library() {
    for n in [0u64, 1, 9, 10, 99, 100, 12345, u64::MAX] {
        assert_eq!(decimal_of(n), n.to_string());
        assert_eq!(hex8_of(n), format!("{n:08x}"));
    }
}

#[test]
fn indexes_parse_as_in_the_standard_library() {
    for s in [
        "", "+", "0", "+7", "-1", "12", "1 2", " 1", "1_0", "+ 1", "++1", "007", "１",
        "18446744073709551615", "18446744073709551616", "99999999999999999999999",
    ] {
        assert_eq!(parse_index(s), s.parse::<usize>().ok(), "{s}");
    }
}

#[test]
fn file_names_lose_what_a_path_cannot_carry() {
    assert_eq!(sanitize_filename("a/b\\c:d\0e"), "a_b_c_d_e");
    assert_eq!(sanitize_filename("相片 1.jpg"), "相片 1.jpg");
    assert_eq!(sanitize_filename(""), "preview.bin");
    assert_eq!(sanitize_filename(&sanitize_filename("x/y")), "x_y");
}

#[test]
fn device_errors_carry_advice_on_exclusive_access() {
    assert_eq!(
        format_mtp_error(&mtp_rs::Error::Timeout, Language::SimplifiedChinese),
        "Operation timed out"
    );
    let busy = mtp_rs::Error::Io(std::io::Error::other("Device or resource busy"));
    assert_eq!(
        format_mtp_error(&busy, Language::SimplifiedChinese),
        "I/O error: Device or resource busy\n\nmacOS 的 ptpcamerad 或 Android File Transfer 可能占用了设备。请退出相关程序，必要时临时运行: pkill -9 ptpcamerad"
    );
}

#[test]
fn the_text_of_an_error_calls_for_advice() {
    let advised = |err: &mtp_rs::Error| {
        let text = err.to_string();
        let report = format_mtp_error(err, Language::English);
        assert!(report.starts_with(&text));
        report.len() > text.len()
    };
    let io = |said: &str| mtp_rs::Error::Io(std::io::Error::other(said.to_string()));
    assert!(advised(&io("could not be opened for EXCLUSIVE Access")));
    assert!(advised(&io("Device or resource busy")));
    assert!(advised(&io("Access is denied")));
    assert!(!advised(&io("Access was lost")));
    assert!(!advised(&io("denied")));
    assert!(!advised(&mtp_rs::Error::invalid_data("exclusive access")));
    assert!(!advised(&mtp_rs::Error::NoDevice));
}

#[test]
fn advice_follows_the_message() {
    assert_eq!(describe_error("x".to_string(), false, Language::SimplifiedChinese), "x");
    let advised = describe_error("x".to_string(), true, Language::SimplifiedChinese);
    assert!(advised.starts_with("x\n\nmacOS"));
    assert!(advised.ends_with("pkill -9 ptpcamerad"));
}

#[test]
fn larger_sizes_show_larger() {
    let read = |text: String| {
        let (number, unit) = text.split_once(' ').unwrap();
        let rank = ["B", "KB", "MB", "GB", "TB"]
            .iter()
            .position(|name| *name == unit)
            .unwrap();
        (rank, number.parse::<f64>().unwrap())
    };
    let mut sizes: Vec<u64> = vec![0, u64::MAX];
    for shift in 0..63 {
        let bytes = 1u64 << shift;
        sizes.extend([bytes - 1, bytes, bytes + 1, bytes + bytes / 3]);
    }
    sizes.sort();
    for pair in sizes.windows(2) {
        let (low, high) = (read(format_bytes(pair[0])), read(format_bytes(pair[1])));
        assert!(low.0 < high.0 || (low.0 == high.0 && low.1 <= high.1), "{pair:?}");
    }
}
