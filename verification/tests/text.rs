use flatui_lib::numfmt::{dec_padded, hex_padded, i64_to_dec, parse_isize, parse_usize, u64_to_dec};
use flatui_lib::order::stable_order;
use flatui_lib::peek::{previews_of, WindowWithExe};
use flatui_lib::text::{
    chars_find, str_ascii_upper, str_eq_ignore_ascii_case, string_from_chars, trim_whitespace,
};

fn chars(s: &str) -> Vec<char> {
    s.chars().collect()
}

fn text(v: Vec<char>) -> String {
    v.into_iter().collect()
}

#[test]
fn trimming_follows_unicode_white_space() {
    assert_eq!(trim_whitespace("  a b\t\n"), "a b");
    assert_eq!(trim_whitespace("\u{3000}x\u{85}"), "x");
    assert_eq!(trim_whitespace(" \r\n "), "");
    assert_eq!(trim_whitespace("\u{200B}x"), "\u{200B}x");
}

#[test]
fn case_helpers() {
    assert_eq!(str_ascii_upper("en-ü"), "EN-ü");
    assert!(str_eq_ignore_ascii_case("SearchHost.EXE", "searchhost.exe"));
    assert!(!str_eq_ignore_ascii_case("Ä", "ä"));
    assert_eq!(string_from_chars(&['h', 'é', '!']), "hé!");
}

#[test]
fn substring_search_counts_characters() {
    assert_eq!(chars_find(&chars("héllo"), &chars("llo")), Some(2));
    assert_eq!(chars_find(&chars("abc"), &chars("")), Some(0));
    assert_eq!(chars_find(&chars("abc"), &chars("d")), None);
}

#[test]
fn number_rendering() {
    assert_eq!(text(u64_to_dec(0)), "0");
    assert_eq!(text(u64_to_dec(18446744073709551615)), "18446744073709551615");
    assert_eq!(text(i64_to_dec(-9223372036854775808)), "-9223372036854775808");
    assert_eq!(text(dec_padded(7, 2)), "07");
    assert_eq!(text(dec_padded(123, 2)), "123");
    assert_eq!(text(hex_padded(0xABC, 8)), "00000ABC");
}

#[test]
fn number_parsing_follows_std() {
    assert_eq!(parse_usize(&chars("42")), Some(42));
    assert_eq!(parse_usize(&chars("+42")), Some(42));
    assert_eq!(parse_usize(&chars("-0")), None);
    assert_eq!(parse_usize(&chars("")), None);
    assert_eq!(parse_usize(&chars("+")), None);
    assert_eq!(parse_usize(&chars("4 2")), None);
    assert_eq!(parse_usize(&chars("18446744073709551616")), None);
    assert_eq!(parse_isize(&chars("-9223372036854775808")), Some(isize::MIN));
    assert_eq!(parse_isize(&chars("9223372036854775808")), None);
    assert_eq!(parse_isize(&chars("-12")), Some(-12));
}

#[test]
fn stable_key_order() {
    let nums = vec![1usize, 0, 1, 0];
    let texts = vec![chars("b"), chars("z"), chars("a"), chars("z")];
    assert_eq!(stable_order(&nums, &texts), vec![1, 3, 2, 0]);
}

#[test]
fn switcher_previews() {
    let ws = vec![WindowWithExe {
        hwnd: 3,
        title: "T".to_string(),
        icon_data_url: Some("i".to_string()),
        exe_path: "C:\\e.exe".to_string(),
        pid: 9,
    }];
    let p = previews_of(&ws);
    assert_eq!(p.len(), 1);
    assert_eq!(p[0].hwnd, 3);
    assert_eq!(p[0].title, "T");
    assert_eq!(p[0].icon_data_url, Some("i".to_string()));
}
