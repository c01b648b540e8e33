//! The per-command transformations, against known values.

use arisa::base64ops::{base64_operation, Operation as B64Op};
use arisa::checksum_alg::{checksum_result, format_hex32, ChecksumAlgorithm};
use arisa::color::{
    color_int_value, format_hex_color, format_rgb_color, parse_color, parse_comma_rgb,
    parse_hex_color, parse_named_color, Color,
};
use arisa::crypto::{calculate_adler32, calculate_checksum, calculate_crc32, HashAlgorithm};
use arisa::cve::{
    extract_product_from_cpe, format_cve_response, get_best_cvss_score, normalize_cve_id,
    score_string, severity_from_score, CveData, CveDescription, CveMetrics, CvssMetric,
};
use arisa::dates::format_month_day_year;
use arisa::error::BotError;
use arisa::hash_choice::HashChoice;
use arisa::hexdata::endian_swap;
use arisa::rot::{rot_char, rot_string};
use arisa::urlops::{url_operation, Operation as UrlOp};

#[test]
fn md5_of_known_text() {
    assert_eq!(
        HashAlgorithm::Md5.hash(b"hello"),
        "5d41402abc4b2a76b9719d911017c592"
    );
}

#[test]
fn sha1_of_known_text() {
    assert_eq!(
        HashAlgorithm::Sha1.hash(b"hello"),
        "aaf4c61ddcc5e8a2dabede0f3b482cd9aea9434d"
    );
}

#[test]
fn sha256_of_known_text() {
    assert_eq!(
        HashAlgorithm::Sha256.hash(b"hello"),
        "2cf24dba5fb0a30e26e83b2ac5b9e29e1b161e5c1fa7425e73043362938b9824"
    );
}

#[test]
fn sha512_of_empty_input() {
    assert_eq!(
        HashAlgorithm::Sha512.hash(b""),
        "cf83e1357eefb8bdf1542850d66d8007d620e4050b5715dc83f4a921d36ce9ce47d0d13c5d85f2b0ff8318d2877eec2f63b931bd47417a81a538327af927da3e"
    );
}

#[test]
fn sha224_and_sha384_lengths_and_difference() {
    let a = HashAlgorithm::Sha224.hash(b"hello");
    let b = HashAlgorithm::Sha384.hash(b"hello");
    assert_eq!(a.len(), 56);
    assert_eq!(b.len(), 96);
    assert_ne!(a, b);
}

#[test]
fn blake3_is_32_bytes_of_hex_and_deterministic() {
    let a = HashAlgorithm::Blake3.hash(b"hello");
    let b = HashAlgorithm::Blake3.hash(b"hello");
    assert_eq!(a.len(), 64);
    assert_eq!(a, b);
    assert!(a.chars().all(|c| c.is_ascii_hexdigit()));
    assert_ne!(a, HashAlgorithm::Blake3.hash(b"hello!"));
}

#[test]
fn hash_choice_names_and_algorithms() {
    assert_eq!(HashChoice::MD5.name(), "MD5");
    assert_eq!(HashChoice::SHA512.name(), "SHA512");
    assert_eq!(HashChoice::SHA256.to_algorithm().name(), "SHA-256");
}

#[test]
fn crc32_of_check_string() {
    assert_eq!(calculate_crc32(b"123456789"), 0xcbf43926);
}

#[test]
fn adler32_of_known_text() {
    assert_eq!(calculate_adler32(b"Wikipedia"), 0x11E60398);
}

#[test]
fn byte_sum_checksum() {
    assert_eq!(calculate_checksum(b"abc"), 294);
    assert_eq!(calculate_checksum(b""), 0);
}

#[test]
fn checksum_command_result() {
    let (title, value) = checksum_result(&ChecksumAlgorithm::CRC32, b"123456789");
    assert_eq!(title, "CRC32 Checksum");
    assert_eq!(value, "cbf43926");
    let (title2, value2) = checksum_result(&ChecksumAlgorithm::Adler32, b"Wikipedia");
    assert_eq!(title2, "Adler32 Checksum");
    assert_eq!(value2, "11e60398");
}

#[test]
fn hex32_pads_to_eight_digits() {
    assert_eq!(format_hex32(0x1234), "00001234");
    assert_eq!(format_hex32(0), "00000000");
    assert_eq!(format_hex32(0xDEADBEEF), "deadbeef");
}

#[test]
fn rot13_round_trip() {
    assert_eq!(rot_string("Hello, World!", 13), "Uryyb, Jbeyq!");
    assert_eq!(rot_string("Uryyb, Jbeyq!", 13), "Hello, World!");
    assert_eq!(rot_char('z', 1), 'a');
    assert_eq!(rot_char('Z', 2), 'B');
    assert_eq!(rot_char('!', 5), '!');
    assert_eq!(rot_string("abc", 0), "abc");
}

#[test]
fn base64_encode_known_value() {
    match base64_operation(&B64Op::Encode, "hello") {
        Ok((title, body)) => {
            assert_eq!(title, "Base64 Encoded");
            assert_eq!(body, "aGVsbG8=");
        },
        Err(_) => panic!("encoding cannot fail"),
    }
}

#[test]
fn base64_decode_round_trip_and_errors() {
    match base64_operation(&B64Op::Decode, "aGVsbG8=") {
        Ok((title, body)) => {
            assert_eq!(title, "Base64 Decoded");
            assert_eq!(body, "hello");
        },
        Err(_) => panic!("canonical input must decode"),
    }
    match base64_operation(&B64Op::Decode, "!!!") {
        Err((title, msg)) => {
            assert_eq!(title, "Base64 Error");
            assert!(msg.starts_with("Invalid base64: "));
        },
        Ok(_) => panic!("junk must be refused"),
    }
    match base64_operation(&B64Op::Decode, "/w==") {
        Err((title, msg)) => {
            assert_eq!(title, "Base64 Error");
            assert_eq!(msg, "Decoded data is not valid UTF-8");
        },
        Ok(_) => panic!("a lone 0xFF byte is not UTF-8"),
    }
}

#[test]
fn url_encode_and_decode() {
    match url_operation(&UrlOp::Encode, "hello world!") {
        Ok((title, body)) => {
            assert_eq!(title, "URL Encoded");
            assert_eq!(body, "hello%20world%21");
        },
        Err(_) => panic!("encoding cannot fail"),
    }
    match url_operation(&UrlOp::Decode, "hello%20world%21") {
        Ok((title, body)) => {
            assert_eq!(title, "URL Decoded");
            assert_eq!(body, "hello world!");
        },
        Err(_) => panic!("valid escapes must decode"),
    }
    assert!(url_operation(&UrlOp::Decode, "%ff").is_err());
}

#[test]
fn endian_swap_reverses_byte_order() {
    assert_eq!(endian_swap("DEADBEEF").unwrap(), "EFBEADDE");
    assert_eq!(endian_swap("0xDEADBEEF").unwrap(), "EFBEADDE");
    assert_eq!(endian_swap("de ad be ef").unwrap(), "EFBEADDE");
    assert_eq!(endian_swap("1234").unwrap(), "3412");
    match endian_swap("DEADBEE") {
        Err(BotError::InvalidFormat(m)) => assert_eq!(m, "Hex string must have even length"),
        _ => panic!("odd length must be refused"),
    }
    assert!(matches!(endian_swap("XY12"), Err(BotError::InvalidFormat(_))));
}

#[test]
fn cve_id_normalization() {
    assert_eq!(normalize_cve_id("cve-2019-16863").unwrap(), "CVE-2019-16863");
    assert_eq!(normalize_cve_id("  CVE-2019-16863  ").unwrap(), "CVE-2019-16863");
    assert_eq!(normalize_cve_id("2019-16863").unwrap(), "CVE-2019-16863");
    assert!(normalize_cve_id("CVE-19-1").is_err());
    assert!(normalize_cve_id("CVE-2019-1").is_err());
    assert!(normalize_cve_id("junk").is_err());
}

#[test]
fn cpe_product_extraction() {
    assert_eq!(
        extract_product_from_cpe("cpe:2.3:a:microsoft:windows_10:*:*:*:*:*:*:*:*"),
        "microsoft windows_10"
    );
    assert_eq!(
        extract_product_from_cpe("cpe:2.3:a:*:redis:*:*:*:*:*:*:*:*"),
        "redis"
    );
    assert_eq!(extract_product_from_cpe("cpe:2.3:a:*:*"), "cpe:2.3:a:*:*");
    assert_eq!(extract_product_from_cpe("short"), "short");
}

#[test]
fn severity_bands_and_score_text() {
    assert_eq!(severity_from_score(0), "None");
    assert_eq!(severity_from_score(1), "Low");
    assert_eq!(severity_from_score(39), "Low");
    assert_eq!(severity_from_score(40), "Medium");
    assert_eq!(severity_from_score(69), "Medium");
    assert_eq!(severity_from_score(70), "High");
    assert_eq!(severity_from_score(89), "High");
    assert_eq!(severity_from_score(90), "Critical");
    assert_eq!(severity_from_score(100), "Critical");
    assert_eq!(severity_from_score(101), "Unknown");
    assert_eq!(score_string(98), "9.8");
    assert_eq!(score_string(70), "7");
    assert_eq!(score_string(0), "0");
}

fn metric(version: &str, tenths: u16, severity: Option<&str>) -> CvssMetric {
    CvssMetric {
        source: "nvd@nist.gov".to_string(),
        metric_type: "Primary".to_string(),
        version: version.to_string(),
        base_score_tenths: tenths,
        base_severity: severity.map(|s| s.to_string()),
    }
}

#[test]
fn best_cvss_prefers_v31_then_v30_then_v2() {
    let m = CveMetrics {
        cvss_v31: vec![metric("3.1", 98, Some("CRITICAL"))],
        cvss_v30: vec![metric("3.0", 75, None)],
        cvss_v2: vec![metric("2.0", 50, None)],
    };
    let (score, ver, sev) = get_best_cvss_score(&m).unwrap();
    assert_eq!((score, ver.as_str(), sev.as_str()), (98, "v3.1", "CRITICAL"));
    let m30 = CveMetrics {
        cvss_v31: vec![],
        cvss_v30: vec![metric("3.0", 75, None)],
        cvss_v2: vec![metric("2.0", 50, None)],
    };
    let (score, ver, sev) = get_best_cvss_score(&m30).unwrap();
    assert_eq!((score, ver.as_str(), sev.as_str()), (75, "v3.0", "High"));
    let m2 = CveMetrics {
        cvss_v31: vec![],
        cvss_v30: vec![],
        cvss_v2: vec![metric("2.0", 50, Some("IGNORED"))],
    };
    let (score, ver, sev) = get_best_cvss_score(&m2).unwrap();
    assert_eq!((score, ver.as_str(), sev.as_str()), (50, "v2.0", "Medium"));
    let empty = CveMetrics { cvss_v31: vec![], cvss_v30: vec![], cvss_v2: vec![] };
    assert!(get_best_cvss_score(&empty).is_none());
}

#[test]
fn cve_response_plain_record() {
    let cve = CveData {
        id: "CVE-2024-0001".to_string(),
        source_identifier: None,
        published: Some("2024-01-15T10:00:00.000Z".to_string()),
        last_modified: None,
        vuln_status: Some("Analyzed".to_string()),
        descriptions: vec![
            CveDescription { lang: "es".to_string(), value: "hola".to_string() },
            CveDescription { lang: "en".to_string(), value: "A bad bug.".to_string() },
        ],
        metrics: Some(CveMetrics {
            cvss_v31: vec![metric("3.1", 98, Some("CRITICAL"))],
            cvss_v30: vec![],
            cvss_v2: vec![],
        }),
        weaknesses: vec![],
        configurations: None,
        references: vec![],
    };
    let (title, body) = format_cve_response(&cve, false);
    assert_eq!(title, "CVE-2024-0001");
    assert_eq!(
        body,
        "**Status:** Analyzed\n**Published:** 2024-01-15\n**CVSS Score:** 9.8 (v3.1) - CRITICAL\n\n**Description:**\nA bad bug.\n\n**NVD Link:** https://nvd.nist.gov/vuln/detail/CVE-2024-0001"
    );
}

#[test]
fn month_day_year_rendering() {
    assert_eq!(
        format_month_day_year("2014-01-02T12:34:56Z").unwrap(),
        "January 02, 2014"
    );
    assert_eq!(
        format_month_day_year("2020-02-29T00:00:00+05:30").unwrap(),
        "February 29, 2020"
    );
    assert!(format_month_day_year("2021-02-29T00:00:00Z").is_none());
    assert!(format_month_day_year("2014-13-02T12:34:56Z").is_none());
    assert!(format_month_day_year("not a date").is_none());
}

#[test]
fn named_colors_parse() {
    assert_eq!(parse_named_color("red"), Some(Color { r: 255, g: 0, b: 0 }));
    assert_eq!(parse_named_color("teal"), Some(Color { r: 0, g: 128, b: 128 }));
    assert_eq!(parse_named_color("grey"), parse_named_color("gray"));
    assert_eq!(parse_named_color("nope"), None);
}

#[test]
fn hex_colors_parse() {
    assert_eq!(parse_hex_color("#ff0000").unwrap(), Color { r: 255, g: 0, b: 0 });
    assert_eq!(parse_hex_color("f00").unwrap(), Color { r: 255, g: 0, b: 0 });
    assert_eq!(parse_hex_color("#1a2b3c").unwrap(), Color { r: 0x1a, g: 0x2b, b: 0x3c });
    assert_eq!(parse_hex_color("#ff00").unwrap_err(), "Hex color must be 3 or 6 characters");
    assert_eq!(parse_hex_color("ggg").unwrap_err(), "Invalid hex digit");
}

#[test]
fn rgb_and_comma_colors_parse() {
    assert_eq!(parse_color("rgb(255, 0, 0)").unwrap(), Color { r: 255, g: 0, b: 0 });
    assert_eq!(parse_color("12, 34, 56").unwrap(), Color { r: 12, g: 34, b: 56 });
    assert_eq!(parse_comma_rgb("1,2").unwrap_err(), "RGB format requires 3 values");
    assert_eq!(parse_comma_rgb("256,0,0").unwrap_err(), "Invalid red value");
    assert_eq!(parse_comma_rgb("0,x,0").unwrap_err(), "Invalid green value");
}

#[test]
fn color_parser_routes_and_refusals() {
    assert_eq!(parse_color("RED").unwrap(), Color { r: 255, g: 0, b: 0 });
    assert_eq!(parse_color("#ABC").unwrap(), Color { r: 0xaa, g: 0xbb, b: 0xcc });
    assert_eq!(parse_color("hsl(0, 100%, 50%)").unwrap_err(), "Invalid red value");
    assert_eq!(parse_color("hsl(x)").unwrap_err(), "HSL format requires 3 values");
    assert_eq!(parse_color("what?").unwrap_err(), "Unrecognized color format");
}

#[test]
fn color_formatting() {
    let c = Color { r: 255, g: 10, b: 0 };
    assert_eq!(format_hex_color(&c), "#FF0A00");
    assert_eq!(format_rgb_color(&c), "rgb(255, 10, 0)");
    assert_eq!(color_int_value(&c), 255 * 65536 + 10 * 256);
}

#[test]
fn empty_inputs_pass_through_the_codecs() {
    match base64_operation(&B64Op::Encode, "") {
        Ok((_, body)) => assert_eq!(body, ""),
        Err(_) => panic!("encoding cannot fail"),
    }
    match base64_operation(&B64Op::Decode, "") {
        Ok((_, body)) => assert_eq!(body, ""),
        Err(_) => panic!("the empty string decodes to itself"),
    }
    assert_eq!(endian_swap("").unwrap(), "");
    match url_operation(&UrlOp::Encode, "") {
        Ok((_, body)) => assert_eq!(body, ""),
        Err(_) => panic!("encoding cannot fail"),
    }
}

#[test]
fn largest_decimal_renders() {
    assert_eq!(
        arisa::strutil::u64_to_string(u64::MAX),
        "18446744073709551615"
    );
}

#[test]
fn output_at_exactly_the_limit_is_kept() {
    let c = arisa::config::Config::default();
    let exact = "z".repeat(4000);
    assert_eq!(arisa::command::truncate_output(exact.clone(), &c), exact);
}
