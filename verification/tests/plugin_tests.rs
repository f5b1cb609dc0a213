use myisland::plugin::{
    check_plugin_instance, is_valid_plugin_id, missing_required_functions, on_load_outcome,
    shortcut_id_buffer, shortcut_unsupported, IslandContent, PluginError, PluginMetadata, Shortcut,
    ThemeColors,
};
use myisland::plugin_api::{
    read_c_str, read_opt_c_str, str_to_fixed, IslandContentC, PluginMetadataC,
    PluginResultC, PluginType, ShortcutC, ThemeColorsC, ISLAND_CONTENT_TAG_MUSIC,
    ISLAND_CONTENT_TAG_NOTIFICATION, ISLAND_CONTENT_TAG_STATUS,
};

fn metadata(id: &str) -> PluginMetadataC {
    PluginMetadataC {
        id: str_to_fixed(id),
        name: str_to_fixed("My Plugin"),
        version: str_to_fixed("1.0.0"),
        author: str_to_fixed("Me"),
        description: str_to_fixed("Does cool stuff"),
    }
}

fn content(tag: u32) -> IslandContentC {
    IslandContentC {
        tag,
        title: str_to_fixed("Song"),
        artist: str_to_fixed("Singer"),
        cover_url: str_to_fixed(""),
        is_playing: true,
        message: str_to_fixed("Body"),
        label: str_to_fixed("CPU"),
        value: str_to_fixed("45%"),
    }
}

#[test]
fn str_to_fixed_pads_with_zeros() {
    let buf: [u8; 64] = str_to_fixed("hello");
    assert_eq!(&buf[..6], b"hello\0");
    assert!(buf[6..].iter().all(|&b| b == 0));
}

#[test]
fn str_to_fixed_truncates_to_leave_a_terminator() {
    let buf: [u8; 4] = str_to_fixed("hello");
    assert_eq!(buf, [b'h', b'e', b'l', 0]);
}

#[test]
fn plugin_type_codes() {
    assert_eq!(PluginType::from_u32(1), Some(PluginType::Content));
    assert_eq!(PluginType::from_u32(2), Some(PluginType::Theme));
    assert_eq!(PluginType::from_u32(3), Some(PluginType::Shortcut));
    assert_eq!(PluginType::from_u32(0), None);
    assert_eq!(PluginType::from_u32(4), None);
    assert_eq!(PluginType::Shortcut.as_u32(), 3);
}

#[test]
fn plugin_type_round_trips_through_its_code() {
    for t in [PluginType::Content, PluginType::Theme, PluginType::Shortcut] {
        assert_eq!(PluginType::from_u32(t.as_u32()), Some(t));
    }
}

#[test]
fn result_ok_converts_to_ok() {
    assert_eq!(PluginResultC::ok().into_result(), Ok(()));
}

#[test]
fn result_err_round_trips_its_message() {
    assert_eq!(PluginResultC::err("boom").into_result(), Err("boom".to_string()));
}

#[test]
fn result_err_truncates_to_255_bytes() {
    let long = "a".repeat(300);
    assert_eq!(PluginResultC::err(&long).into_result(), Err("a".repeat(255)));
}

#[test]
fn read_c_str_stops_at_nul_and_replaces_bad_utf8() {
    assert_eq!(read_c_str(b"abc\0def"), "abc");
    assert_eq!(read_c_str(b"abc"), "abc");
    assert_eq!(read_c_str(&[0x61, 0xff, 0x62, 0]), "a\u{FFFD}b");
}

#[test]
fn read_opt_c_str_of_empty_is_none() {
    assert_eq!(read_opt_c_str(b"\0xyz"), None);
    assert_eq!(read_opt_c_str(b"x\0"), Some("x".to_string()));
}

#[test]
fn c_strings_keep_valid_text() {
    let buf: [u8; 16] = str_to_fixed("héllo");
    assert_eq!(read_c_str(&buf), "héllo");
}

#[test]
fn metadata_is_read_from_its_record() {
    let m = PluginMetadata::from_c(&metadata("my-plugin"));
    assert_eq!(m.id, "my-plugin");
    assert_eq!(m.name, "My Plugin");
    assert_eq!(m.version, "1.0.0");
    assert_eq!(m.author, "Me");
    assert_eq!(m.description, "Does cool stuff");
}

#[test]
fn music_content_is_read() {
    match IslandContent::from_c(&content(ISLAND_CONTENT_TAG_MUSIC)) {
        IslandContent::Music { title, artist, cover_url, is_playing } => {
            assert_eq!(title, "Song");
            assert_eq!(artist, "Singer");
            assert_eq!(cover_url, None);
            assert!(is_playing);
        }
        _ => panic!("expected music content"),
    }
}

#[test]
fn notification_and_status_content_are_read() {
    match IslandContent::from_c(&content(ISLAND_CONTENT_TAG_NOTIFICATION)) {
        IslandContent::Notification { title, message, icon_url } => {
            assert_eq!(title, "Song");
            assert_eq!(message, "Body");
            assert_eq!(icon_url, None);
        }
        _ => panic!("expected a notification"),
    }
    match IslandContent::from_c(&content(ISLAND_CONTENT_TAG_STATUS)) {
        IslandContent::Status { label, value, icon } => {
            assert_eq!(label, "CPU");
            assert_eq!(value, "45%");
            assert_eq!(icon, None);
        }
        _ => panic!("expected a status"),
    }
}

#[test]
fn unknown_content_tag_is_empty_status() {
    match IslandContent::from_c(&content(99)) {
        IslandContent::Status { label, value, icon } => {
            assert_eq!(label, "");
            assert_eq!(value, "");
            assert_eq!(icon, None);
        }
        _ => panic!("expected an empty status"),
    }
}

#[test]
fn theme_colors_are_read_and_fallback_is_fixed() {
    let c = ThemeColorsC {
        primary: [1, 2, 3, 4],
        secondary: [5, 6, 7, 8],
        background: [9, 10, 11, 12],
        text: [13, 14, 15, 16],
        border: [17, 18, 19, 20],
    };
    let t = ThemeColors::from_c(&c);
    assert_eq!(t.primary, (1, 2, 3, 4));
    assert_eq!(t.border, (17, 18, 19, 20));
    let f = ThemeColors::fallback();
    assert_eq!(f.primary, (255, 255, 255, 255));
    assert_eq!(f.secondary, (200, 200, 200, 255));
    assert_eq!(f.background, (30, 30, 30, 255));
    assert_eq!(f.text, (255, 255, 255, 255));
    assert_eq!(f.border, (100, 100, 100, 255));
}

#[test]
fn shortcut_is_read_with_optional_fields() {
    let mut c = ShortcutC::zeroed();
    c.id = str_to_fixed("open");
    c.name = str_to_fixed("Open");
    c.hotkey = str_to_fixed("Ctrl+O");
    let s = Shortcut::from_c(&c);
    assert_eq!(s.id, "open");
    assert_eq!(s.name, "Open");
    assert_eq!(s.description, "");
    assert_eq!(s.icon, None);
    assert_eq!(s.hotkey, Some("Ctrl+O".to_string()));
}

#[test]
fn plugin_error_messages() {
    assert_eq!(PluginError::NotFound("x".into()).message(), "Plugin not found: x");
    assert_eq!(PluginError::LoadFailed("x".into()).message(), "Failed to load plugin: x");
    assert_eq!(PluginError::InvalidPlugin("x".into()).message(), "Invalid plugin: x");
    assert_eq!(PluginError::ExecutionError("x".into()).message(), "Plugin execution error: x");
}

#[test]
fn plugin_ids() {
    assert!(is_valid_plugin_id("my-plugin_2"));
    assert!(is_valid_plugin_id("插件7"));
    assert!(!is_valid_plugin_id(""));
    assert!(!is_valid_plugin_id("bad id"));
    assert!(!is_valid_plugin_id("../evil"));
}

#[test]
fn instance_check_accepts_a_good_plugin() {
    match check_plugin_instance("p.dll", false, false, &metadata("my-plugin"), 3) {
        Ok((m, t)) => {
            assert_eq!(m.id, "my-plugin");
            assert_eq!(t, PluginType::Shortcut);
        }
        Err(_) => panic!("expected the plugin to pass"),
    }
}

#[test]
fn instance_check_errors_in_order() {
    match check_plugin_instance("p.dll", true, true, &metadata("bad id"), 9) {
        Err(PluginError::LoadFailed(m)) => assert_eq!(m, "Plugin 'p.dll' returned null handle"),
        _ => panic!("expected a null handle error"),
    }
    match check_plugin_instance("p.dll", false, true, &metadata("bad id"), 9) {
        Err(PluginError::InvalidPlugin(m)) => assert_eq!(m, "Plugin 'p.dll' returned null vtable"),
        _ => panic!("expected a null vtable error"),
    }
    match check_plugin_instance("p.dll", false, false, &metadata("bad id"), 9) {
        Err(PluginError::InvalidPlugin(m)) => assert_eq!(
            m,
            "Plugin 'bad id' has invalid id: only alphanumeric, '-' and '_' allowed"
        ),
        _ => panic!("expected an invalid id error"),
    }
    match check_plugin_instance("p.dll", false, false, &metadata("ok"), 9) {
        Err(PluginError::InvalidPlugin(m)) => assert_eq!(m, "Plugin 'p.dll' has unknown plugin_type: 9"),
        _ => panic!("expected an unknown type error"),
    }
}

#[test]
fn missing_functions_error() {
    match missing_required_functions("abc") {
        PluginError::InvalidPlugin(m) => {
            assert_eq!(m, "Plugin 'abc' has null function pointer in required vtable fields")
        }
        _ => panic!("expected an invalid plugin error"),
    }
}

#[test]
fn on_load_outcomes() {
    assert!(on_load_outcome("abc", PluginResultC::ok()).is_ok());
    match on_load_outcome("abc", PluginResultC::err("no config")) {
        Err(PluginError::ExecutionError(m)) => assert_eq!(m, "Plugin 'abc' on_load failed: no config"),
        _ => panic!("expected an execution error"),
    }
}

#[test]
fn shortcut_id_buffer_is_nul_padded() {
    let b = shortcut_id_buffer("go");
    assert_eq!(b[0], b'g' as i8);
    assert_eq!(b[1], b'o' as i8);
    assert!(b[2..].iter().all(|&x| x == 0));
    let long = shortcut_id_buffer(&"x".repeat(200));
    assert!(long[..127].iter().all(|&x| x == b'x' as i8));
    assert_eq!(long[127], 0);
}

#[test]
fn shortcut_without_runner_is_refused() {
    assert_eq!(shortcut_unsupported(), Err("Plugin does not support execute_shortcut".to_string()));
}
