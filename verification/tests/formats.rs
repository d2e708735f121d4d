//! Texts: trimming, numbers, sizes, times and bars.

use url_uploader::config::{parse_api_id, parse_port, HEALTH_RESPONSE};
use url_uploader::progress::{
    compose_progress, elapsed_seconds, format_eta, progress_bar, progress_text, remaining_bytes,
    Progress,
};
use url_uploader::sizes::{format_file_size, shorten_units};
use url_uploader::text::{
    chars_of, count_free_prefix, decimal_text, ends_with, find, find_last, is_white_space, repeat,
    replace, same_text, split_first, split_last, starts_with, strip, strip_repeated, trim,
    CharClass,
};

#[test]
fn white_space_agrees_with_unicode() {
    for code in 0..=0x10ffffu32 {
        if let Some(c) = char::from_u32(code) {
            assert_eq!(is_white_space(c), c.is_whitespace());
        }
    }
}

#[test]
fn stripping_undoes_padding() {
    for text in ["", " ", "a", " a", "a ", "\u{3000}a b\u{85}\n", "ㅤa", "\t\t", "é ü"] {
        assert_eq!(trim(text), text.trim());
    }
    assert_eq!(strip("\"\"a\"b\"", CharClass::Only('"')), "a\"b");
    assert_eq!(strip("\"\"", CharClass::Only('"')), "");
    assert!(CharClass::WhiteSpace.contains('\n'));
    assert!(!CharClass::Only('x').contains('\n'));
}

#[test]
fn searching_counts_characters() {
    assert_eq!(find("añb|c|", '|'), Some(3));
    assert_eq!(find_last("añb|c|", '|'), Some(5));
    assert_eq!(find("abc", '|'), None);
    assert_eq!(find_last("abc", '|'), None);
    assert_eq!(split_first("ñ=b=c", '='), ("ñ", Some("b=c")));
    assert_eq!(split_first("abc", '='), ("abc", None));
    assert_eq!(split_last("ñ=b=c", '='), Some("c"));
    assert_eq!(split_last("abc", '='), None);
    assert_eq!(count_free_prefix("ñb c", CharClass::WhiteSpace), 2);
    assert_eq!(count_free_prefix("ñb", CharClass::WhiteSpace), 2);
    assert_eq!(chars_of("ñb"), vec!['ñ', 'b']);
}

#[test]
fn prefixes_and_suffixes() {
    assert!(starts_with("ñb", "ñ") && starts_with("ñb", "") && !starts_with("b", "bb"));
    assert!(ends_with("bñ", "ñ") && ends_with("bñ", "") && !ends_with("b", "bb"));
    assert!(same_text("ñ", "ñ") && !same_text("ñ", "ñb") && !same_text("a", "b"));
    assert_eq!(strip_repeated("ababac", "ab"), "ac");
    assert_eq!(strip_repeated("abab", "ab"), "");
    assert_eq!(strip_repeated("abab", ""), "abab");
}

#[test]
fn replacing_and_repeating() {
    for (text, from, to) in [
        ("aaa", "aa", "b"),
        ("1.0 MiB", "MiB", "MB"),
        ("", "x", "y"),
        ("xñx", "x", ""),
        ("MMiB", "MiB", "MB"),
    ] {
        assert_eq!(replace(text, from, to), text.replace(from, to));
    }
    assert_eq!(repeat("ab", 3), "ababab");
    assert_eq!(repeat("ab", 0), "");
}

#[test]
fn numbers_in_decimal() {
    for n in [0, 7, 9, 10, 99, 100, 1024, 1234567890, u64::MAX] {
        assert_eq!(decimal_text(n), n.to_string());
    }
}

#[test]
fn file_sizes() {
    assert_eq!(format_file_size(0), "0 B");
    assert_eq!(format_file_size(1023), "1023 B");
    assert_eq!(format_file_size(1024), "1.0 kiB");
    assert_eq!(format_file_size(1536), "1.5 kiB");
    assert_eq!(format_file_size(1_000_000), "976.6 kiB");
    assert_eq!(format_file_size(1_000_001), "1.0 MB");
    assert_eq!(format_file_size(1_048_576), "1.0 MB");
    assert_eq!(format_file_size(1_000_000_000), "953.7 MB");
    assert_eq!(format_file_size(1_000_000_001), "0.9 GB");
    assert_eq!(format_file_size(2_147_483_648), "2.0 GB");
    assert_eq!(format_file_size(1_000_000_000_000), "931.3 GB");
    assert_eq!(format_file_size(2_199_023_255_552), "2.0 TiB");
    assert_eq!(shorten_units("1 MiB 2 GiB 3 kiB"), "1 MB 2 GB 3 kiB");
}

#[test]
fn sizes_are_rounded_to_the_nearest_tenth() {
    let units = ["", "kiB", "MiB", "GiB", "TiB", "PiB", "EiB"];
    let mut sizes: Vec<u64> = Vec::new();
    let mut n: u64 = 1024;
    while n < 1 << 53 {
        for step in [0, 1, 50, 51, 52, 333] {
            sizes.push(n + step * (n / 1024));
            sizes.push(n + step);
        }
        n += n / 3;
    }
    for exp in 2..5u32 {
        sizes.push(1000u64.pow(exp));
        if exp < 4 {
            sizes.push(1000u64.pow(exp) + 1);
        }
    }
    for bytes in sizes {
        let text = bytesize::to_string(bytes, true);
        let (number, unit) = text.split_once(' ').unwrap();
        let exp = units.iter().position(|u| *u == unit).unwrap();
        assert!((1..=6).contains(&exp));
        if bytes <= 1_000_000_000_000 {
            let expected = if bytes <= 1_000_000 {
                1
            } else if bytes <= 1_000_000_000 {
                2
            } else {
                3
            };
            assert_eq!(exp, expected);
        }
        let (whole, tenth) = number.split_once('.').unwrap();
        assert_eq!(tenth.len(), 1);
        let whole: i128 = whole.parse().unwrap();
        let tenth: i128 = tenth.parse().unwrap();
        let unit_bytes = 1024i128.pow(exp as u32);
        let off = 10 * bytes as i128 - (10 * whole + tenth) * unit_bytes;
        assert!(2 * off.abs() <= unit_bytes);
    }
}

#[test]
fn times_left() {
    assert_eq!(format_eta(0), "0 sec");
    assert_eq!(format_eta(45), "45 sec");
    assert_eq!(format_eta(59), "59 sec");
    assert_eq!(format_eta(60), "1 min");
    assert_eq!(format_eta(105), "1 min 45 sec");
    assert_eq!(format_eta(7200), "120 min");
}

#[test]
fn bar_keeps_its_width() {
    assert_eq!(progress_bar(0, 10), "□□□□□□□□□□");
    assert_eq!(progress_bar(3, 10), "▣▣▣□□□□□□□");
    assert_eq!(progress_bar(10, 10), "▣▣▣▣▣▣▣▣▣▣");
    assert_eq!(progress_bar(3, 2), "▣▣▣");
}

#[test]
fn bar_never_goes_back() {
    for filled in 0..=10 {
        let bar = progress_bar(filled, 10);
        assert_eq!(bar.chars().count(), 10);
        assert_eq!(bar.chars().filter(|c| *c == '▣').count(), filled);
    }
}

#[test]
fn elapsed_and_remaining() {
    assert_eq!(elapsed_seconds(-5), 1);
    assert_eq!(elapsed_seconds(0), 1);
    assert_eq!(elapsed_seconds(1), 1);
    assert_eq!(elapsed_seconds(9), 9);
    assert_eq!(remaining_bytes(10, 4), 6);
    assert_eq!(remaining_bytes(10, 10), 0);
    assert_eq!(remaining_bytes(10, 11), 0);
}

#[test]
fn progress_is_told() {
    let progress = Progress {
        sent: 1_048_576,
        total: 4_194_304,
        filled: 2,
        percent: "25.00".to_string(),
        speed: 2048,
        eta: 1536,
    };
    let text = progress_text("a.zip", &progress);
    assert_eq!(
        text,
        "ㅤ<br> \n <blockquote>ㅤ\n <br><br> 𝐹𝑖𝑙𝑒 𝑛𝑎𝑚𝑒 :  <a href=\"https://example.com/file.zip\">a.zip</a><br><br> \n\n ㅤㅤ𝑆𝑖𝑧𝑒 :  4.0 MB<br><br><br></blockquote>\n\nDownload Completed ✓\n\n\n⏳ Uploading...\n\n[ ▣▣□□□□□□□□ ] 25.00%\n\n➩ 1.0 MB of 4.0 MB\n\n➩ Speed : 2.0 kiB/s\n\n➩ Time Left : 25 min 36 sec"
    );
    assert_eq!(
        text,
        compose_progress(
            "a.zip",
            "4.0 MB",
            "▣▣□□□□□□□□",
            "25.00",
            "1.0 MB",
            "2.0 kiB/s",
            "25 min 36 sec"
        )
    );
}

#[test]
fn application_numbers() {
    assert_eq!(parse_api_id(" 12345\n"), Ok(12345));
    assert_eq!(parse_api_id("+7"), Ok(7));
    assert_eq!(parse_api_id("-0"), Ok(0));
    assert_eq!(parse_api_id("2147483647"), Ok(i32::MAX));
    assert_eq!(parse_api_id("-2147483648"), Ok(i32::MIN));
    for text in ["", " ", "-", "+", "12a", "1 2", "2147483648", "-2147483649", "99999999999999999999999", "٣"] {
        assert!(text.trim().parse::<i32>().is_err());
        assert_eq!(
            parse_api_id(text),
            Err(format!("Failed to parse API_ID: '{}'", text))
        );
    }
    assert_eq!(parse_api_id(" x "), Err("Failed to parse API_ID: ' x '".to_string()));
}

#[test]
fn ports() {
    assert_eq!(parse_port(None), 8080);
    assert_eq!(parse_port(Some("80")), 80);
    assert_eq!(parse_port(Some("+65535")), 65535);
    assert_eq!(parse_port(Some("0")), 0);
    for text in ["", " 80", "65536", "-0", "-1", "x"] {
        assert!(text.parse::<u16>().is_err());
        assert_eq!(parse_port(Some(text)), 8080);
    }
}

#[test]
fn health_check_announces_its_body() {
    let (head, body) = HEALTH_RESPONSE.split_once("\r\n\r\n").unwrap();
    assert_eq!(head, "HTTP/1.1 200 OK\r\nContent-Type: text/plain\r\nContent-Length: 2");
    assert_eq!(body, "OK");
}
