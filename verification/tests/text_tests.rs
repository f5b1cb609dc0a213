use myisland::config::{
    contains_string, default_audio_gate, default_auto_gate, default_auto_hide, default_auto_start,
    default_cover_rotate, default_custom_font, default_lyrics_local_dir, default_lyrics_scroll,
    default_mini_controls, default_monitor_index, default_position_x_offset, default_position_y_offset,
    default_show_lyrics, default_smtc_known_apps, default_water_reminder_enabled,
};
use myisland::lyrics::{chars_equal, split_once_chars, sub_chars};
use myisland::media::current_position;
use myisland::plugin_api::c_str_end;
use myisland::text::{
    char_from_digit, chars_of, concat2, concat3, contains_chars, decimal_chars, is_whitespace, owned,
    parse_u64, same_text, split_chars, string_of, trim_chars,
};

fn v(s: &str) -> Vec<char> {
    s.chars().collect()
}

#[test]
fn remaining_defaults() {
    assert!(default_show_lyrics());
    assert!(default_smtc_known_apps().is_empty());
    assert_eq!(default_custom_font(), None);
    assert_eq!(default_lyrics_local_dir(), None);
    assert!(!default_auto_start());
    assert!(!default_auto_hide());
    assert!(!default_lyrics_scroll());
    assert_eq!(default_position_x_offset(), 0);
    assert_eq!(default_position_y_offset(), 0);
    assert_eq!(default_monitor_index(), 0);
    assert!(!default_cover_rotate());
    assert!(default_audio_gate());
    assert!(default_auto_gate());
    assert!(!default_mini_controls());
    assert!(!default_water_reminder_enabled());
}

#[test]
fn string_lists() {
    let list = vec!["a".to_string(), "b".to_string()];
    assert!(contains_string(&list, &"b".to_string()));
    assert!(!contains_string(&list, &"c".to_string()));
}

#[test]
fn char_vectors() {
    assert_eq!(chars_of("héllo"), v("héllo"));
    assert_eq!(string_of(&v("héllo")), "héllo");
    assert!(chars_equal(&v("abc"), &v("abc")));
    assert!(!chars_equal(&v("abc"), &v("abd")));
    assert!(!chars_equal(&v("ab"), &v("abc")));
    assert_eq!(sub_chars(&v("hello"), 1, 3), v("el"));
    assert_eq!(split_once_chars(&v("k=v=w"), '='), Some((v("k"), v("v=w"))));
    assert_eq!(split_once_chars(&v("kv"), '='), None);
    assert_eq!(split_chars(&v("a,,b"), ','), vec![v("a"), v(""), v("b")]);
    assert_eq!(split_chars(&v(""), ','), vec![v("")]);
}

#[test]
fn white_space() {
    assert!(is_whitespace(' '));
    assert!(is_whitespace('\u{3000}'));
    assert!(!is_whitespace('x'));
    assert_eq!(trim_chars(&v(" \t a b \n")), v("a b"));
    assert_eq!(trim_chars(&v("   ")), v(""));
}

#[test]
fn numbers() {
    assert_eq!(parse_u64(&v("123")), Some(123));
    assert_eq!(parse_u64(&v("+7")), Some(7));
    assert_eq!(parse_u64(&v("18446744073709551615")), Some(u64::MAX));
    assert_eq!(parse_u64(&v("18446744073709551616")), None);
    assert_eq!(parse_u64(&v("")), None);
    assert_eq!(parse_u64(&v("-1")), None);
    assert_eq!(parse_u64(&v("1a")), None);
    assert_eq!(decimal_chars(0), v("0"));
    assert_eq!(decimal_chars(9075), v("9075"));
    assert_eq!(char_from_digit(7), '7');
}

#[test]
fn building_strings() {
    assert_eq!(owned("ab"), "ab");
    assert_eq!(concat2("a", "b"), "ab");
    assert_eq!(concat3("a", "b", "c"), "abc");
    assert!(same_text("x", "x"));
    assert!(!same_text("x", "y"));
    assert!(contains_chars(&v("hello world"), &v("o w")));
    assert!(contains_chars(&v("abc"), &v("")));
    assert!(!contains_chars(&v("abc"), &v("abcd")));
}

#[test]
fn c_strings_end_at_nul() {
    assert_eq!(c_str_end(b"ab\0cd"), 2);
    assert_eq!(c_str_end(b"abc"), 3);
    assert_eq!(c_str_end(b""), 0);
}

#[test]
fn positions_with_delay() {
    assert_eq!(current_position(1000, true, 500, 0), 1500);
    assert_eq!(current_position(1000, false, 500, 250), 1250);
    assert_eq!(current_position(1000, false, 0, -2000), 0);
}
