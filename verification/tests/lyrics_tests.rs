use myisland::lyrics::{parse_lyrics, parse_time, query_matches_song, url_encode, LyricLine};

fn pairs(lines: &[LyricLine]) -> Vec<(u64, String)> {
    lines.iter().map(|l| (l.time_ms, l.text.clone())).collect()
}

#[test]
fn parse_time_two_digit_fraction_is_centiseconds() {
    assert_eq!(parse_time("01:02.50"), Some(62500));
}

#[test]
fn parse_time_three_digit_fraction_is_milliseconds() {
    assert_eq!(parse_time("00:05.123"), Some(5123));
}

#[test]
fn parse_time_one_digit_fraction_is_tenths() {
    assert_eq!(parse_time("00:05.1"), Some(5100));
}

#[test]
fn parse_time_long_fraction_is_cut_to_milliseconds() {
    assert_eq!(parse_time("00:05.12345"), Some(5123));
}

#[test]
fn parse_time_colon_separated_fraction() {
    assert_eq!(parse_time("1:02:345"), Some(62345));
}

#[test]
fn parse_time_without_fraction() {
    assert_eq!(parse_time("2:03"), Some(123000));
}

#[test]
fn parse_time_rejects_non_numbers() {
    assert_eq!(parse_time("abc"), None);
    assert_eq!(parse_time("1:xx"), None);
    assert_eq!(parse_time("ti:Song"), None);
}

#[test]
fn parse_time_fraction_keeps_only_digits() {
    assert_eq!(parse_time("00:01.5x"), Some(1500));
}

#[test]
fn parse_lyrics_simple_lines() {
    let r = parse_lyrics("[00:01.00]Hello\n[00:02.00]World", "");
    assert_eq!(pairs(&r), vec![(1000, "Hello".to_string()), (2000, "World".to_string())]);
}

#[test]
fn parse_lyrics_sorts_by_time() {
    let r = parse_lyrics("[00:03.00]Three\n[00:01.00]One\n[00:02.00]Two", "");
    assert_eq!(
        pairs(&r),
        vec![(1000, "One".to_string()), (2000, "Two".to_string()), (3000, "Three".to_string())]
    );
}

#[test]
fn parse_lyrics_repeated_tags() {
    let r = parse_lyrics("[00:03.00][00:01.00] Chorus ", "");
    assert_eq!(pairs(&r), vec![(1000, "Chorus".to_string()), (3000, "Chorus".to_string())]);
}

#[test]
fn parse_lyrics_translation_fills_empty_lines_only() {
    let r = parse_lyrics("[00:01.00]Hello\n[00:02.00]", "[00:01.00]你好\n[00:02.00]世界\n[00:04.00]新");
    assert_eq!(
        pairs(&r),
        vec![(1000, "Hello".to_string()), (2000, "世界".to_string()), (4000, "新".to_string())]
    );
}

#[test]
fn parse_lyrics_keeps_empty_main_lines() {
    let r = parse_lyrics("[00:01.00]Hi\n[00:05.00]", "");
    assert_eq!(pairs(&r), vec![(1000, "Hi".to_string()), (5000, String::new())]);
}

#[test]
fn parse_lyrics_skips_empty_translation_lines() {
    let r = parse_lyrics("[00:01.00]Hi", "[00:03.00]");
    assert_eq!(pairs(&r), vec![(1000, "Hi".to_string())]);
}

#[test]
fn parse_lyrics_ignores_lines_without_tags() {
    let r = parse_lyrics("plain text\n  [00:01.00]Tagged  \n[bad]x", "");
    assert_eq!(pairs(&r), vec![(1000, "Tagged".to_string())]);
}

#[test]
fn parse_lyrics_first_text_wins_for_one_time() {
    let r = parse_lyrics("[00:01.00]First\n[00:01.00]Second", "");
    assert_eq!(pairs(&r), vec![(1000, "First".to_string())]);
}

#[test]
fn parse_lyrics_of_nothing_is_empty() {
    assert!(parse_lyrics("", "").is_empty());
}

#[test]
fn url_encode_reserved_and_unicode() {
    assert_eq!(url_encode("a b/é"), "a%20b%2F%C3%A9");
}

#[test]
fn url_encode_keeps_unreserved() {
    assert_eq!(url_encode("Az09-_.~"), "Az09-_.~");
}

#[test]
fn query_matches_when_one_contains_the_other() {
    assert!(query_matches_song("Hello World Adele", "hello world"));
    assert!(query_matches_song("Hello", "HELLO (Live)"));
}

#[test]
fn query_matches_on_a_long_word() {
    assert!(query_matches_song("Yesterday Beatles", "Yesterday - Remastered"));
}

#[test]
fn query_does_not_match_unrelated_song() {
    assert!(!query_matches_song("How to build a PC", "Shape of You"));
}

#[test]
fn query_with_only_short_words_does_not_match() {
    assert!(!query_matches_song("a b", "xyz"));
}

fn percent_decode(s: &str) -> Vec<u8> {
    let b = s.as_bytes();
    let mut out = Vec::new();
    let mut i = 0;
    while i < b.len() {
        if b[i] == b'%' && i + 2 < b.len() + 0 && i + 2 <= b.len() - 1 {
            out.push(u8::from_str_radix(&s[i + 1..i + 3], 16).unwrap());
            i += 3;
        } else {
            out.push(b[i]);
            i += 1;
        }
    }
    out
}

#[test]
fn url_encoding_decodes_back_and_has_known_length() {
    for s in ["a b/é", "", "Hello, World!", "100% ~ok_-.", "日本語 ♪"] {
        let e = url_encode(s);
        assert_eq!(percent_decode(&e), s.as_bytes());
        let expected_len: usize = s
            .bytes()
            .map(|b| if b.is_ascii_alphanumeric() || b"-_.~".contains(&b) { 1 } else { 3 })
            .sum();
        assert_eq!(e.len(), expected_len);
        assert!(e.bytes().all(|c| c.is_ascii_alphanumeric() || b"-_.~%".contains(&c)));
    }
}
