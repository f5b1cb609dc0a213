use myisland::config::{
    default_dock_position, default_expanded_cover_shape, default_island_style, default_language,
    default_lyrics_fallback, default_lyrics_source, default_mini_cover_shape, default_settings_theme,
    default_water_reminder_end, default_water_reminder_interval, default_water_reminder_start,
    learn_new_apps, push_unique, DockPosition, APP_VERSION, TOP_OFFSET, WINDOW_TITLE,
};
use myisland::i18n::{current_lang, fallback_lang, init_i18n, set_lang, system_lang_from_locale, target_lang, tr, I18n};
use myisland::logger::{
    crash_flag_path, crash_report, crash_report_name, format_timestamp, join_path, log_file_path, log_line,
    needs_roll, MAX_LOG_SIZE,
};
use myisland::lyrics::LyricLine;
use myisland::lyrics_fetch::{
    choose_song, local_lyric_candidates, local_lyrics, lookup_plan_for, pick_lrclib_result, search_query,
    LrclibItem, Lookup, SongHit,
};
use myisland::media::{current_lyric, effective_duration_ms, line_index_at, lyric_at, sync_timeline, Timeline};
use myisland::water_reminder::WaterReminder;

fn strings(v: &[&str]) -> Vec<String> {
    v.iter().map(|s| s.to_string()).collect()
}

fn line(t: u64, s: &str) -> LyricLine {
    LyricLine { time_ms: t, text: s.to_string() }
}

#[test]
fn timestamps_of_known_dates() {
    assert_eq!(format_timestamp(0), "1970-01-01 00:00:00");
    assert_eq!(format_timestamp(86399), "1970-01-01 23:59:59");
    assert_eq!(format_timestamp(951782400), "2000-02-29 00:00:00");
    assert_eq!(format_timestamp(1709164800), "2024-02-29 00:00:00");
    assert_eq!(format_timestamp(1780863300), "2026-06-07 20:15:00");
    assert_eq!(format_timestamp(4102444799), "2099-12-31 23:59:59");
}

#[test]
fn timestamps_past_the_signed_range_wrap() {
    assert_eq!(format_timestamp(u64::MAX), "1970-01-01 00:00:-1");
    assert_eq!(format_timestamp(1u64 << 63), "1970-01--106751991167299 -15:-30:-8");
}

#[test]
fn dock_positions_round_trip() {
    for p in [
        DockPosition::TopCenter,
        DockPosition::TopLeft,
        DockPosition::TopRight,
        DockPosition::BottomCenter,
        DockPosition::BottomLeft,
        DockPosition::BottomRight,
    ] {
        assert_eq!(DockPosition::parse(p.as_str()), Ok(p));
        assert_eq!(DockPosition::from_string(p.as_str().to_string()), p);
    }
}

#[test]
fn dock_position_sides() {
    assert!(DockPosition::BottomLeft.is_bottom());
    assert!(DockPosition::BottomLeft.is_left());
    assert!(!DockPosition::BottomLeft.is_right());
    assert!(DockPosition::TopRight.is_right());
    assert!(!DockPosition::TopCenter.is_bottom());
    assert_eq!(DockPosition::BottomRight.as_str(), "bottom_right");
}

#[test]
fn unknown_dock_names_fall_back_to_top_center() {
    assert_eq!(DockPosition::parse("middle"), Err(()));
    assert_eq!(DockPosition::from_string("middle".to_string()), DockPosition::TopCenter);
    assert_eq!(DockPosition::default(), DockPosition::TopCenter);
    assert_eq!("top_left".parse::<DockPosition>(), Ok(DockPosition::TopLeft));
}

#[test]
fn configuration_defaults() {
    assert_eq!(default_island_style(), "default");
    assert_eq!(default_language(), "auto");
    assert_eq!(default_lyrics_source(), "163");
    assert!(default_lyrics_fallback());
    assert_eq!(default_settings_theme(), "system");
    assert_eq!(default_mini_cover_shape(), "square");
    assert_eq!(default_expanded_cover_shape(), "square");
    assert_eq!(default_dock_position(), DockPosition::TopCenter);
    assert_eq!(default_water_reminder_interval(), 30);
    assert_eq!(default_water_reminder_start(), 9);
    assert_eq!(default_water_reminder_end(), 22);
    assert_eq!(APP_VERSION, "1.0.0");
    assert_eq!(WINDOW_TITLE, "MyIsland");
    assert_eq!(TOP_OFFSET, 10);
}

#[test]
fn push_unique_skips_present_strings() {
    let mut v = strings(&["a"]);
    push_unique(&mut v, "a".to_string());
    push_unique(&mut v, "b".to_string());
    assert_eq!(v, strings(&["a", "b"]));
}

#[test]
fn first_run_allows_only_the_first_new_app() {
    let mut known = Vec::new();
    let mut apps = Vec::new();
    let (allowed, changed) = learn_new_apps(&mut known, &mut apps, &Vec::new(), &strings(&["spotify", "chrome"]));
    assert_eq!(known, strings(&["spotify", "chrome"]));
    assert_eq!(apps, strings(&["spotify"]));
    assert_eq!(allowed, strings(&["spotify"]));
    assert!(changed);
}

#[test]
fn later_runs_only_learn_apps() {
    let mut known = strings(&["spotify"]);
    let mut apps = strings(&["spotify"]);
    let (allowed, changed) =
        learn_new_apps(&mut known, &mut apps, &strings(&["spotify"]), &strings(&["spotify", "vlc"]));
    assert_eq!(known, strings(&["spotify", "vlc"]));
    assert_eq!(apps, strings(&["spotify"]));
    assert_eq!(allowed, strings(&["spotify"]));
    assert!(changed);
    let (again, changed_again) =
        learn_new_apps(&mut known, &mut apps, &allowed, &strings(&["vlc"]));
    assert_eq!(again, strings(&["spotify"]));
    assert!(!changed_again);
}

#[test]
fn translations_are_read_from_lang_text() {
    let mut i = I18n::new();
    assert_eq!(current_lang(&i), "en");
    set_lang(&mut i, "zh", "# comment\nhello = 你好\n  bye=再见  \nbroken line\nhello = 您好");
    assert_eq!(current_lang(&i), "zh");
    assert_eq!(tr(&i, "hello"), "您好");
    assert_eq!(tr(&i, "bye"), "再见");
    assert_eq!(tr(&i, "missing"), "missing");
    assert_eq!(i.get("bye"), "再见");
}

#[test]
fn value_keeps_later_equals_signs() {
    let mut i = I18n::new();
    i.load("en", "formula = a=b");
    assert_eq!(tr(&i, "formula"), "a=b");
}

#[test]
fn language_choice() {
    assert_eq!(target_lang("auto", "zh"), "zh");
    assert_eq!(target_lang("en", "zh"), "en");
    assert_eq!(fallback_lang("zh"), "zh");
    assert_eq!(fallback_lang("fr"), "en");
    assert_eq!(system_lang_from_locale("zh-CN"), "zh");
    assert_eq!(system_lang_from_locale("en-US"), "en");
    assert_eq!(system_lang_from_locale("z"), "en");
    let mut i = I18n::new();
    init_i18n(&mut i, "auto", "zh", "title = 标题");
    assert_eq!(current_lang(&i), "zh");
    assert_eq!(tr(&i, "title"), "标题");
}

#[test]
fn water_reminder_fires_inside_active_hours() {
    let mut w = WaterReminder::new(0);
    // 10:00 UTC, 30 minutes after the start.
    w.update(true, 30, 9, 22, 36000, 30 * 60000);
    assert!(w.active);
    assert_eq!(w.title, "💧 Drink Water");
    assert_eq!(w.message, "Time for a glass! (Every 30min)");
    assert!(!w.show_drank);
}

#[test]
fn water_reminder_waits_for_interval_and_hours() {
    let mut w = WaterReminder::new(0);
    w.update(true, 30, 9, 22, 36000, 30 * 60000 - 1);
    assert!(!w.active);
    w.update(true, 30, 9, 22, 8 * 3600, 30 * 60000);
    assert!(!w.active);
    w.update(true, 30, 9, 22, 22 * 3600, 30 * 60000);
    assert!(!w.active);
    w.update(false, 30, 9, 22, 36000, 30 * 60000);
    assert!(!w.active);
}

#[test]
fn dismissed_reminder_waits_a_full_interval() {
    let mut w = WaterReminder::new(0);
    w.update(true, 30, 9, 22, 36000, 40 * 60000);
    assert!(w.active);
    w.dismiss(40 * 60000);
    assert!(!w.active);
    w.update(true, 30, 9, 22, 36000, 41 * 60000);
    assert!(!w.active);
    w.update(true, 30, 9, 22, 36000, 70 * 60000);
    assert!(w.active);
}

#[test]
fn durations() {
    assert_eq!(effective_duration_ms(5000, 200), 5000);
    assert_eq!(effective_duration_ms(0, 200), 200000);
    assert_eq!(effective_duration_ms(0, 0), 0);
}

#[test]
fn lyric_lookup_by_position() {
    let ls = vec![line(1000, "a"), line(2000, "b"), line(3000, "c")];
    assert_eq!(lyric_at(&ls, 500), None);
    assert_eq!(lyric_at(&ls, 1000), Some("a".to_string()));
    assert_eq!(lyric_at(&ls, 2500), Some("b".to_string()));
    assert_eq!(lyric_at(&ls, 9000), Some("c".to_string()));
}

#[test]
fn current_lyric_runs_on_while_playing() {
    let ls = Some(vec![line(1000, "a"), line(2000, "b")]);
    assert_eq!(current_lyric(&ls, 1500, true, 600, 0), Some("b".to_string()));
    assert_eq!(current_lyric(&ls, 1500, false, 600, 0), Some("a".to_string()));
    assert_eq!(current_lyric(&ls, 1500, false, 0, -1000), None);
    assert_eq!(current_lyric(&ls, 1500, false, 0, 500), Some("b".to_string()));
    assert_eq!(current_lyric(&None, 1500, true, 0, 0), None);
    assert_eq!(current_lyric(&Some(Vec::new()), 1500, true, 0, 0), None);
}

#[test]
fn timeline_takes_reports_it_should() {
    let t = Timeline { position_ms: 10000, last_smtc_pos: 10000, is_playing: true };
    // A report close to the extrapolated position is ignored.
    let (n, reset) = sync_timeline(&t, false, 11000, true, 1500);
    assert!(!reset);
    assert_eq!(n.position_ms, 10000);
    assert_eq!(n.last_smtc_pos, 11000);
    // A jump of more than two seconds is taken.
    let (n, reset) = sync_timeline(&t, false, 20000, true, 1500);
    assert!(reset);
    assert_eq!(n.position_ms, 20000);
    // A pause is taken.
    let (n, reset) = sync_timeline(&t, false, 10000, false, 1500);
    assert!(reset);
    assert!(!n.is_playing);
    // A new song at position 0 keeps the old position.
    let (n, reset) = sync_timeline(&t, true, 0, true, 0);
    assert!(reset);
    assert_eq!(n.position_ms, 10000);
}

#[test]
fn local_file_names() {
    assert_eq!(local_lyric_candidates("A/B?", "C:D"), strings(&["CD - AB.lrc", "AB.lrc"]));
    assert_eq!(local_lyric_candidates("Song", "<>"), strings(&["Song.lrc"]));
}

#[test]
fn local_lyrics_need_a_line() {
    assert!(local_lyrics("no tags here").is_none());
    let r = local_lyrics("[00:01.00]x").unwrap();
    assert_eq!(r.len(), 1);
    assert_eq!(r[0].time_ms, 1000);
    assert_eq!(r[0].text, "x");
}

#[test]
fn lookup_plans() {
    assert!(lookup_plan_for("", "Artist", "163", true, Some("/lyrics")).is_empty());
    assert_eq!(lookup_plan_for("Song", "  ", "163", true, None), vec![Lookup::NeteaseTitleOnly]);
    assert_eq!(lookup_plan_for("Song", "", "lrclib", true, Some("")), vec![Lookup::LrclibGet, Lookup::LrclibSearch]);
    assert_eq!(
        lookup_plan_for("Song", "Artist", "163", true, None),
        vec![Lookup::NeteaseWithArtist, Lookup::NeteaseTitleOnly, Lookup::LrclibGet, Lookup::LrclibSearch]
    );
    assert_eq!(
        lookup_plan_for("Song", "Artist", "lrclib", false, Some("/lyrics")),
        vec![Lookup::LocalFile, Lookup::LrclibGet, Lookup::LrclibSearch]
    );
}

#[test]
fn search_queries() {
    assert_eq!(search_query("Song", ""), "Song");
    assert_eq!(search_query("Song", "Artist"), "Song Artist");
}

fn hit(id: Option<i64>, name: &str, artists: &[&str]) -> SongHit {
    SongHit {
        id,
        name: Some(name.to_string()),
        artist_names: artists.iter().map(|a| Some(a.to_string())).collect(),
    }
}

#[test]
fn song_choice_prefers_the_artist() {
    let songs = vec![hit(Some(1), "Hello", &["Someone"]), hit(Some(2), "Hello", &["ADELE"])];
    assert_eq!(choose_song(&songs, "Adele", "Hello Adele"), Some(2));
}

#[test]
fn song_choice_falls_back_to_a_related_first_hit() {
    let songs = vec![hit(Some(7), "Hello", &["Someone"])];
    assert_eq!(choose_song(&songs, "Adele", "Hello Adele"), Some(7));
    let unrelated = vec![hit(Some(7), "Shape of You", &["Ed"])];
    assert_eq!(choose_song(&unrelated, "", "How to build a PC"), None);
    assert_eq!(choose_song(&Vec::new(), "", "x"), None);
}

fn lrclib_items(n: usize) -> Vec<LrclibItem> {
    let all = [
        (None, "Hello"),
        (Some("[00:01.00]x"), "Other Thing"),
        (Some("no lines"), "Hello"),
        (Some("[00:02.00]y"), "Hello"),
    ];
    all[..n]
        .iter()
        .map(|(s, t)| LrclibItem { synced_lyrics: s.map(|x| x.to_string()), track_name: Some(t.to_string()) })
        .collect()
}

#[test]
fn lrclib_picks_first_related_synced_result() {
    let r = pick_lrclib_result(&lrclib_items(4), "Hello").unwrap();
    assert_eq!(r.len(), 1);
    assert_eq!(r[0].time_ms, 2000);
    assert_eq!(r[0].text, "y");
    assert!(pick_lrclib_result(&lrclib_items(3), "Hello").is_none());
}

#[test]
fn log_paths() {
    assert_eq!(log_file_path("/home/ann", '/'), "/home/ann/.myisland/logs/myisland.log");
    assert_eq!(crash_flag_path("C:\\Users\\ann", '\\'), "C:\\Users\\ann\\.myisland/.crash_flag");
    assert_eq!(join_path("/", "x", '/'), "/x");
    assert_eq!(join_path("", "x", '/'), "x");
    assert_eq!(join_path("dir/", "x", '\\'), "dir/x");
}

#[test]
fn log_rolls_past_its_limit() {
    assert!(!needs_roll(MAX_LOG_SIZE));
    assert!(needs_roll(MAX_LOG_SIZE + 1));
    assert_eq!(MAX_LOG_SIZE, 1_024_000);
}

#[test]
fn log_lines_and_crash_reports() {
    assert_eq!(
        log_line(1780863300, "INFO", "myisland", "started"),
        "[2026-06-07 20:15:00] [INFO] myisland - started\n"
    );
    assert_eq!(crash_report_name(0), "crash-1970-01-01 00:00:00.txt");
    assert_eq!(
        crash_report(0, "src/main.rs:10", "boom"),
        "---- MyIsland Crash Report ----\nTime: 1970-01-01 00:00:00\nVersion: 1.0.0\nThread: main\n\n\
         // The crash happened at\nLocation: src/main.rs:10\n\n// Reason\nboom\n\n// Logs\n\
         See ~/.myisland/logs/myisland.log for recent activity.\n"
    );
}

#[test]
fn lyric_page_line_index() {
    let ls = vec![line(1000, "a"), line(2000, "b"), line(3000, "c")];
    assert_eq!(line_index_at(&ls, 0), 0);
    assert_eq!(line_index_at(&ls, 1000), 0);
    assert_eq!(line_index_at(&ls, 2999), 1);
    assert_eq!(line_index_at(&ls, 3000), 2);
    assert_eq!(line_index_at(&ls, 99999), 2);
}
