use zst_webapp_scrapper::entities::announcement::Annoucement;
use zst_webapp_scrapper::entities::class::Class;
use zst_webapp_scrapper::utils::str_convert::convert;
use zst_webapp_scrapper::utils::text::{
    byte_suffix, replace, split, text_eq, to_chars, trim, without_char,
};
use zst_webapp_scrapper::{ApiError, Config};

#[test]
fn replace_removes_every_occurrence() {
    assert_eq!(replace("plany/o1.html", ".html", ""), "plany/o1");
    assert_eq!(replace("a.html.html", ".html", ""), "a");
    assert_eq!(replace("aaa", "aa", "b"), "ba");
    assert_eq!(replace("abc", "x", "y"), "abc");
    assert_eq!(replace("", "x", "y"), "");
}

#[test]
fn replace_with_an_empty_pattern_matches_every_boundary() {
    assert_eq!(replace("abc", "", "x"), "xaxbxcx");
    assert_eq!(replace("", "", "x"), "x");
    assert_eq!(replace("ab", "", ""), "ab");
    assert_eq!(replace("żó", "", "-"), "-ż-ó-");
}

#[test]
fn split_on_spaces_keeps_empty_pieces() {
    assert_eq!(split("a b  c", ' '), vec!["a", "b", "", "c"]);
    assert_eq!(split("", ' '), vec![""]);
    assert_eq!(split("word", ' '), vec!["word"]);
    assert_eq!(split(" x ", ' '), vec!["", "x", ""]);
}

#[test]
fn trim_removes_unicode_white_space() {
    assert_eq!(trim("  Jan Kowalski \t"), "Jan Kowalski");
    assert_eq!(trim("\u{a0}x\u{3000}"), "x");
    assert_eq!(trim("   "), "");
    assert_eq!(trim("a b"), "a b");
}

#[test]
fn without_char_drops_the_char() {
    assert_eq!(without_char(" 8:00- 8:45", ' '), "8:00-8:45");
    assert_eq!(without_char("JK)", ')'), "JK");
}

#[test]
fn byte_suffix_follows_byte_slicing() {
    assert_eq!(byte_suffix("plany/o1.html", 6), Some("o1.html"));
    assert_eq!(byte_suffix("short", 6), None);
    assert_eq!(byte_suffix("ąąąx", 6), Some("x"));
    assert_eq!(byte_suffix("ąąąx", 5), None);
}

#[test]
fn text_equality_and_chars() {
    assert!(text_eq("&nbsp;", "&nbsp;"));
    assert!(!text_eq("<br>", "<br/>"));
    assert_eq!(to_chars("zół"), vec!['z', 'ó', 'ł']);
}

#[test]
fn announcement_format_is_date_space_title() {
    let a = Annoucement { date: "2024-01-01".to_string(), title: "Hello".to_string() };
    assert_eq!(a.format(), "2024-01-01 Hello");
}

#[test]
fn class_format_renders_year_in_decimal() {
    let c = Class { index: "o1".to_string(), year: 1, name: "TI".to_string() };
    assert_eq!(c.format(), "o1. 1TI");
    let c = Class { index: "x".to_string(), year: 203, name: "A".to_string() };
    assert_eq!(c.format(), "x. 203A");
    let c = Class { index: "".to_string(), year: 40, name: "".to_string() };
    assert_eq!(c.format(), ". 40");
}

#[test]
fn convert_keeps_the_text() {
    let s: &'static str = convert("127.0.0.1".to_string());
    assert_eq!(s, "127.0.0.1");
}

#[test]
fn api_error_status_and_message() {
    let e = ApiError::NoneValue("plan");
    assert_eq!(e.status_code(), 404);
    assert_eq!(e.message(), "Value plan is None");
    let e = ApiError::IoError(std::io::Error::new(std::io::ErrorKind::Other, "x"));
    assert_eq!(e.status_code(), 500);
    assert_eq!(e.message(), "IoError");
    let e: ApiError = serde_json::from_str::<u8>("x").unwrap_err().into();
    assert_eq!(e.status_code(), 500);
    assert_eq!(e.message(), "SerdeError");
    let e: ApiError = std::io::Error::new(std::io::ErrorKind::NotFound, "y").into();
    assert!(matches!(e, ApiError::IoError(_)));
}

#[test]
fn config_holds_address_and_port() {
    let c = Config { address: "0.0.0.0".to_string(), port: 3000 };
    assert_eq!(c.port, 3000);
    assert_eq!(c.address, "0.0.0.0");
}
