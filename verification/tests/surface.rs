//! Tests of the configuration rules, the greeting, asset path
//! normalization and the string helpers.

use parser_core::api::{greeting, normalize_asset_path};
use parser_core::config::{parse_bool, parse_u16, Config};
use parser_core::strutil::{trim_str, usize_to_string};

#[test]
fn config_defaults_apply() {
    let c = Config::from_env_values(None, None);
    assert_eq!(c.port, 8080);
    assert!(!c.enable_file_serving);
}

#[test]
fn config_reads_valid_values() {
    let c = Config::from_env_values(Some("9000"), Some("true"));
    assert_eq!(c.port, 9000);
    assert!(c.enable_file_serving);
}

#[test]
fn config_falls_back_on_bad_values() {
    let c = Config::from_env_values(Some("not a port"), Some("TRUE"));
    assert_eq!(c.port, 8080);
    assert!(!c.enable_file_serving);

    let c = Config::from_env_values(Some("99999"), Some("yes"));
    assert_eq!(c.port, 8080);
    assert!(!c.enable_file_serving);
}

#[test]
fn port_parsing_matches_std() {
    for s in ["0", "1", "80", "+80", "8080", "65535", "65536", "99999", "", "+", "1x", "-1",
        " 80"] {
        assert_eq!(parse_u16(s), s.parse::<u16>().ok(), "on {:?}", s);
    }
}

#[test]
fn bool_parsing_matches_std() {
    for s in ["true", "false", "True", "FALSE", "", "1", "0"] {
        assert_eq!(parse_bool(s), s.parse::<bool>().ok(), "on {:?}", s);
    }
}

#[test]
fn greeting_names_the_caller() {
    assert_eq!(greeting("test_name").message, "Hello test_name!");
}

#[test]
fn asset_paths_normalized() {
    assert_eq!(normalize_asset_path(""), "index.html");
    assert_eq!(normalize_asset_path("/"), "index.html");
    assert_eq!(normalize_asset_path("///"), "index.html");
    assert_eq!(normalize_asset_path("/css/site.css"), "css/site.css");
    assert_eq!(normalize_asset_path("img/logo.png"), "img/logo.png");
}

#[test]
fn trimming_matches_std() {
    for s in ["  padded  ", "\n\tmix\u{a0}ed \r\n", "", "   ", "words in the middle stay"] {
        assert_eq!(trim_str(s), s.trim(), "on {:?}", s);
    }
}

#[test]
fn decimal_rendering() {
    assert_eq!(usize_to_string(0), "0");
    assert_eq!(usize_to_string(7), "7");
    assert_eq!(usize_to_string(10), "10");
    assert_eq!(usize_to_string(65536), "65536");
}
