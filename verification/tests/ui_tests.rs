use myisland::config::DockPosition;
use myisland::cover::{channel_average, find_best_bucket, hash_text, is_ascii_text, sample_step, HsvHistogram};
use myisland::player::{cover_rotation, effective_playing, elapsed_label, remaining_label, shown_position};
use myisland::screen::{edited_style, is_foreground_fullscreen, ForegroundWindow, ScreenRect};
use myisland::session::{
    latest_seek, lyrics_refetch_due, playback_action, poll_tick, seek_ticks, target_session,
    thumbnail_refresh_due, thumbnail_retry_delay_ms, ticks_to_ms, ticks_to_secs, timeline_ready,
    PlaybackCommand, SessionAction, SessionChoice, SessionInfo,
};
use myisland::settings::{
    cover_shape_index, dock_position_index, island_style_index, language_index, monitor_index_value,
    arrow_key, hour_label, light_theme, lyrics_source_index, switches_on_page, monitor_labels, merge_detected_apps, monitor_menu_index, settings_theme_index, toggle_app, step_end_hour, step_offset, step_start_hour,
    step_water_interval,
};

fn session(app: Option<&str>, is_video: bool, is_playing: bool) -> SessionInfo {
    SessionInfo { app_id: app.map(|a| a.to_string()), is_video, is_playing }
}

fn allowed(v: &[&str]) -> Vec<String> {
    v.iter().map(|s| s.to_string()).collect()
}

fn listed(c: Option<SessionChoice>) -> Option<usize> {
    match c {
        Some(SessionChoice::Listed(i)) => Some(i),
        _ => None,
    }
}

#[test]
fn tick_conversions() {
    assert_eq!(ticks_to_ms(12_345_678), 1234);
    assert_eq!(ticks_to_ms(-5), 0);
    assert_eq!(ticks_to_ms(0), 0);
    assert_eq!(ticks_to_secs(2_400_000_000), 240);
    assert_eq!(ticks_to_secs(-1), 0);
    assert_eq!(seek_ticks(1500), 15_000_000);
}

#[test]
fn start_up_timeline_readiness() {
    assert!(timeline_ready(1, 0, true, "Song"));
    assert!(timeline_ready(0, 5, true, "Song"));
    assert!(timeline_ready(0, 0, false, "Song"));
    assert!(timeline_ready(0, 0, true, ""));
    assert!(!timeline_ready(0, 0, true, "Song"));
}

#[test]
fn only_the_latest_seek_counts() {
    assert_eq!(latest_seek(&vec![]), None);
    assert_eq!(latest_seek(&vec![100, 300, 200]), Some(200));
}

#[test]
fn every_tenth_poll_looks_for_apps() {
    assert_eq!(poll_tick(0), (1, false));
    assert_eq!(poll_tick(9), (10, true));
    assert_eq!(poll_tick(19), (20, true));
    assert_eq!(poll_tick(20), (21, false));
}

#[test]
fn lyrics_refetch_only_on_real_change() {
    assert!(lyrics_refetch_due(&"lrclib".to_string(), &"163".to_string(), "Song"));
    assert!(!lyrics_refetch_due(&"163".to_string(), &"163".to_string(), "Song"));
    assert!(!lyrics_refetch_due(&"lrclib".to_string(), &"163".to_string(), ""));
}

#[test]
fn thumbnail_refresh_rules() {
    assert!(thumbnail_refresh_due(true, false, false, true, false, 0));
    assert!(thumbnail_refresh_due(false, false, true, false, false, 0));
    assert!(!thumbnail_refresh_due(false, false, true, true, false, 0));
    assert!(thumbnail_refresh_due(false, true, true, true, false, 5000));
    assert!(!thumbnail_refresh_due(false, true, true, true, true, 9000));
    assert_eq!(thumbnail_retry_delay_ms(2), 300);
    assert_eq!(thumbnail_retry_delay_ms(3), 500);
}

#[test]
fn playback_commands() {
    assert!(matches!(playback_action(&PlaybackCommand::Toggle, true), SessionAction::Pause));
    assert!(matches!(playback_action(&PlaybackCommand::Toggle, false), SessionAction::Play));
    assert!(matches!(playback_action(&PlaybackCommand::Next, true), SessionAction::SkipNext));
    assert!(matches!(playback_action(&PlaybackCommand::Prev, false), SessionAction::SkipPrevious));
}

#[test]
fn no_allowed_apps_no_session() {
    let s = vec![session(Some("a"), false, true)];
    assert!(target_session(&s, &vec![], &Some(session(Some("a"), false, true))).is_none());
}

#[test]
fn playing_allowed_session_wins() {
    let s = vec![
        session(Some("a"), false, false),
        session(Some("b"), false, true),
        session(Some("c"), false, true),
        session(Some("a"), true, true),
    ];
    assert_eq!(listed(target_session(&s, &allowed(&["a", "b"]), &None)), Some(1));
}

#[test]
fn first_eligible_session_when_none_plays() {
    let s = vec![
        session(None, false, true),
        session(Some("x"), false, true),
        session(Some("a"), true, false),
        session(Some("a"), false, false),
    ];
    assert_eq!(listed(target_session(&s, &allowed(&["a"]), &None)), Some(3));
}

#[test]
fn current_session_as_last_resort() {
    let s = vec![session(Some("x"), false, true)];
    let r = target_session(&s, &allowed(&["a"]), &Some(session(Some("a"), false, false)));
    assert!(matches!(r, Some(SessionChoice::Current)));
    assert!(target_session(&s, &allowed(&["a"]), &Some(session(Some("a"), true, false))).is_none());
    assert!(target_session(&s, &allowed(&["a"]), &Some(session(None, false, false))).is_none());
    assert!(target_session(&s, &allowed(&["a"]), &None).is_none());
}

#[test]
fn water_interval_stepper() {
    assert_eq!(step_water_interval(30, true), 25);
    assert_eq!(step_water_interval(7, true), 5);
    assert_eq!(step_water_interval(1, true), 5);
    assert_eq!(step_water_interval(30, false), 35);
    assert_eq!(step_water_interval(118, false), 120);
}

#[test]
fn hour_steppers() {
    assert_eq!(step_start_hour(0, true), 0);
    assert_eq!(step_start_hour(9, true), 8);
    assert_eq!(step_start_hour(23, false), 23);
    assert_eq!(step_start_hour(9, false), 10);
    assert_eq!(step_end_hour(1, true), 0);
    assert_eq!(step_end_hour(0, true), 0);
    assert_eq!(step_end_hour(22, true), 21);
    assert_eq!(step_end_hour(24, false), 24);
    assert_eq!(step_end_hour(22, false), 23);
}

#[test]
fn offset_stepper() {
    assert_eq!(step_offset(0, true), -5);
    assert_eq!(step_offset(-5, false), 0);
}

#[test]
fn menu_indices() {
    assert_eq!(island_style_index("mica"), 1);
    assert_eq!(island_style_index("dynamic"), 2);
    assert_eq!(island_style_index("default"), 0);
    assert_eq!(island_style_index("glass"), 0);
    assert_eq!(dock_position_index(DockPosition::TopCenter), 0);
    assert_eq!(dock_position_index(DockPosition::BottomRight), 5);
    assert_eq!(settings_theme_index("light"), 1);
    assert_eq!(settings_theme_index("dark"), 2);
    assert_eq!(settings_theme_index("system"), 0);
    assert_eq!(cover_shape_index("circle"), 1);
    assert_eq!(cover_shape_index("square"), 0);
    assert_eq!(language_index("zh"), 1);
    assert_eq!(language_index("en"), 0);
}

#[test]
fn monitor_menu() {
    assert_eq!(monitor_menu_index(1, 3), 1);
    assert_eq!(monitor_menu_index(5, 3), 2);
    assert_eq!(monitor_menu_index(-1, 3), 2);
    assert_eq!(monitor_menu_index(0, 0), 0);
    assert_eq!(monitor_index_value("2"), 2);
    assert_eq!(monitor_index_value("-3"), -3);
    assert_eq!(monitor_index_value("+4"), 4);
    assert_eq!(monitor_index_value("x"), 0);
    assert_eq!(monitor_index_value(""), 0);
    assert_eq!(monitor_index_value("-"), 0);
    assert_eq!(monitor_index_value("2147483647"), i32::MAX);
    assert_eq!(monitor_index_value("-2147483648"), i32::MIN);
    assert_eq!(monitor_index_value("2147483648"), 0);
    assert_eq!(monitor_index_value("99999999999999999999999"), 0);
    assert_eq!(monitor_index_value("+-1"), 0);
}

fn empty_histogram() -> HsvHistogram {
    [[[(0, 0, 0, 0); 4]; 4]; 12]
}

#[test]
fn best_bucket_weights_saturation() {
    assert_eq!(find_best_bucket(&empty_histogram()), None);
    let mut h = empty_histogram();
    h[0][0][0] = (10, 20, 30, 5);
    h[3][2][1] = (40, 50, 60, 2);
    // 5 * 1 = 5 against 2 * 3 = 6.
    assert_eq!(find_best_bucket(&h), Some((40, 50, 60, 2)));
    h[5][2][0] = (1, 1, 1, 2);
    // A tie keeps the earlier bucket.
    assert_eq!(find_best_bucket(&h), Some((40, 50, 60, 2)));
    h[11][3][3] = (7, 7, 7, 2);
    assert_eq!(find_best_bucket(&h), Some((7, 7, 7, 2)));
}

#[test]
fn best_bucket_ties_go_to_more_pixels() {
    let mut h = empty_histogram();
    // 1 * 2 = 2 against 2 * 1 = 2: the bucket with more pixels wins.
    h[0][1][0] = (9, 9, 9, 1);
    h[1][0][0] = (8, 8, 8, 2);
    assert_eq!(find_best_bucket(&h), Some((8, 8, 8, 2)));
}

#[test]
fn colour_helpers() {
    assert_eq!(channel_average(1000, 4), 250);
    assert_eq!(channel_average(1000, 2), 255);
    assert_eq!(sample_step(640), 40);
    assert_eq!(sample_step(20), 1);
    assert_eq!(sample_step(0), 1);
}

#[test]
fn djb2_hashes() {
    assert_eq!(hash_text(""), 5381);
    assert_eq!(hash_text("a"), 5381 * 33 + 97);
    assert_ne!(hash_text("ab"), hash_text("ba"));
    let long = "z".repeat(100);
    let mut h: u64 = 5381;
    for b in long.bytes() {
        h = h.wrapping_mul(33).wrapping_add(b as u64);
    }
    assert_eq!(hash_text(&long), h);
}

#[test]
fn ascii_texts() {
    assert!(is_ascii_text("Hello, world"));
    assert!(is_ascii_text(""));
    assert!(!is_ascii_text("héllo"));
}

#[test]
fn style_edits() {
    assert_eq!(edited_style(0b1010, 0b0101, 0b0011), 0b1100);
    assert_eq!(edited_style(-1, 0, 1), -2);
}

fn rect(l: i32, t: i32, r: i32, b: i32) -> ScreenRect {
    ScreenRect { left: l, top: t, right: r, bottom: b }
}

fn window(class: &str, pid: u32, r: Option<ScreenRect>) -> ForegroundWindow {
    ForegroundWindow {
        minimized: false,
        process_id: pid,
        class_name: class.to_string(),
        rect: r,
        monitor: Some(rect(0, 0, 1920, 1080)),
    }
}

#[test]
fn full_screen_detection() {
    assert!(is_foreground_fullscreen(&Some(window("Chrome", 5, Some(rect(0, 0, 1920, 1080)))), 1));
    assert!(is_foreground_fullscreen(&Some(window("Game", 5, Some(rect(-8, -8, 1928, 1088)))), 1));
    assert!(!is_foreground_fullscreen(&Some(window("Chrome", 5, Some(rect(0, 0, 1920, 1040)))), 1));
    assert!(!is_foreground_fullscreen(&Some(window("Progman", 5, Some(rect(0, 0, 1920, 1080)))), 1));
    assert!(!is_foreground_fullscreen(&Some(window("WorkerW", 5, Some(rect(0, 0, 1920, 1080)))), 1));
    assert!(!is_foreground_fullscreen(&Some(window("Shell_TrayWnd", 5, Some(rect(0, 0, 1920, 1080)))), 1));
    assert!(!is_foreground_fullscreen(&Some(window("Chrome", 1, Some(rect(0, 0, 1920, 1080)))), 1));
    assert!(!is_foreground_fullscreen(&Some(window("Chrome", 5, None)), 1));
    assert!(!is_foreground_fullscreen(&None, 1));
    let mut w = window("Chrome", 5, Some(rect(0, 0, 1920, 1080)));
    w.minimized = true;
    assert!(!is_foreground_fullscreen(&Some(w), 1));
}

#[test]
fn play_button_guess() {
    assert_eq!(effective_playing(true, None), (true, false));
    assert_eq!(effective_playing(true, Some((false, 500))), (false, true));
    assert_eq!(effective_playing(false, Some((false, 500))), (false, false));
    assert_eq!(effective_playing(true, Some((false, 2001))), (true, false));
    assert_eq!(effective_playing(true, Some((false, 2000))), (false, true));
}

#[test]
fn progress_position() {
    assert_eq!(shown_position(1000, true, 500, 0), 1500);
    assert_eq!(shown_position(1000, false, 500, 0), 1000);
    assert_eq!(shown_position(9000, true, 5000, 10000), 10000);
    assert_eq!(shown_position(u64::MAX - 1, true, 5, 0), u64::MAX);
}

#[test]
fn time_labels() {
    assert_eq!(elapsed_label(0), "0:00");
    assert_eq!(elapsed_label(65_999), "1:05");
    assert_eq!(elapsed_label(3_600_000), "60:00");
    assert_eq!(remaining_label(65_000, 200_000), "-2:15");
    assert_eq!(remaining_label(300_000, 200_000), "-0:00");
    assert_eq!(remaining_label(1000, 0), "--:--");
}

#[test]
fn hour_labels() {
    assert_eq!(hour_label(9), "9:00");
    assert_eq!(hour_label(22), "22:00");
}

#[test]
fn lyrics_source_menu() {
    assert_eq!(lyrics_source_index("163"), 0);
    assert_eq!(lyrics_source_index("lrclib"), 1);
}

#[test]
fn app_list_clicks() {
    let mut apps = allowed(&["a", "b", "a"]);
    let mut known = allowed(&["a", "b"]);
    toggle_app(&mut apps, &mut known, &"a".to_string());
    assert_eq!(apps, allowed(&["b"]));
    assert_eq!(known, allowed(&["a", "b"]));
    toggle_app(&mut apps, &mut known, &"c".to_string());
    assert_eq!(apps, allowed(&["b", "c"]));
    assert_eq!(known, allowed(&["a", "b", "c"]));
    toggle_app(&mut apps, &mut known, &"c".to_string());
    assert_eq!(apps, allowed(&["b"]));
}

#[test]
fn detected_apps_merge() {
    let mut detected = allowed(&["a"]);
    assert!(merge_detected_apps(&mut detected, &allowed(&["b", "a", "b"]), &allowed(&["c", "a"])));
    assert_eq!(detected, allowed(&["a", "b", "c"]));
    assert!(!merge_detected_apps(&mut detected, &allowed(&["c"]), &allowed(&["a"])));
    assert_eq!(detected, allowed(&["a", "b", "c"]));
}

#[test]
fn monitor_menu_labels() {
    assert_eq!(monitor_labels(&vec![]), allowed(&["Primary"]));
    let displays = vec![
        ("\\\\.\\DISPLAY1".to_string(), "Dell U2720Q".to_string()),
        ("\\\\.\\DISPLAY2".to_string(), String::new()),
    ];
    assert_eq!(
        monitor_labels(&displays),
        allowed(&["Display 1: Dell U2720Q", "Display 2: \\\\.\\DISPLAY2"])
    );
}

#[test]
fn arrow_keys_move_between_tabs_and_pages() {
    assert_eq!(arrow_key(0, 0, true), (0, 1, true));
    assert_eq!(arrow_key(0, 2, true), (0, 2, false));
    assert_eq!(arrow_key(0, 0, false), (0, 0, false));
    assert_eq!(arrow_key(0, 1, false), (0, 0, true));
    assert_eq!(arrow_key(1, 2, true), (2, 2, true));
    assert_eq!(arrow_key(2, 0, true), (2, 0, false));
    assert_eq!(arrow_key(1, 0, false), (0, 0, true));
}

#[test]
fn settings_theme_choice() {
    assert!(light_theme("light", false));
    assert!(!light_theme("dark", true));
    assert!(light_theme("system", true));
    assert!(!light_theme("system", false));
}

#[test]
fn switches_per_page() {
    assert_eq!(switches_on_page(0, 0), Vec::<usize>::new());
    assert_eq!(switches_on_page(0, 1), vec![0, 1, 2, 3, 4]);
    assert_eq!(switches_on_page(0, 2), vec![5, 6, 7]);
    assert_eq!(switches_on_page(1, 0), vec![8, 9, 10, 11]);
    assert_eq!(switches_on_page(2, 0), Vec::<usize>::new());
}

#[test]
fn cover_turns_only_when_round() {
    assert_eq!(cover_rotation(true, "circle", true), (true, true));
    assert_eq!(cover_rotation(true, "circle", false), (true, false));
    assert_eq!(cover_rotation(true, "square", true), (false, false));
    assert_eq!(cover_rotation(false, "circle", true), (false, false));
}
