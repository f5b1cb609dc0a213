use myisland::manifest::{check_package_fields, check_required_fields, is_blank, safe_dir_name_of, PluginManifest};
use myisland::packager::{underscored_name, PluginPackager, TomlValue};
use myisland::zip_loader::{check_entry, check_package_listing, PluginManifest as HostManifest, MAX_FILENAME_COMPONENT};

fn strings(v: &[&str]) -> Vec<String> {
    v.iter().map(|s| s.to_string()).collect()
}

fn manifest() -> PluginManifest {
    PluginManifest {
        name: "n".to_string(),
        author: "a".to_string(),
        version: "1".to_string(),
        description: "d".to_string(),
        github_link: "g".to_string(),
        signature: None,
        dll_hashes: Some(strings(&["h"])),
    }
}

fn s(v: &str) -> TomlValue {
    TomlValue::Str(v.to_string())
}

fn table(entries: Vec<(&str, TomlValue)>) -> TomlValue {
    TomlValue::Table(entries.into_iter().map(|(k, v)| (k.to_string(), v)).collect())
}

#[test]
fn blank_texts() {
    assert!(is_blank(""));
    assert!(is_blank(" \t\n"));
    assert!(!is_blank(" x "));
}

#[test]
fn manifest_checks_fields_in_order() {
    assert_eq!(manifest().validate(), Ok(()));
    let mut m = manifest();
    m.description = "  ".to_string();
    m.author = String::new();
    assert_eq!(m.validate(), Err("'author' is empty".to_string()));
    assert_eq!(check_required_fields("n", "a", "1", "d", ""), Err("'github-link' is empty".to_string()));
    assert_eq!(check_required_fields(" ", "a", "1", "d", "g"), Err("'name' is empty".to_string()));
    assert_eq!(check_required_fields("n", "a", "", "d", "g"), Err("'version' is empty".to_string()));
    assert_eq!(check_required_fields("n", "a", "1", "\n", "g"), Err("'description' is empty".to_string()));
}

#[test]
fn manifest_dir_names() {
    let mut m = manifest();
    m.name = "My Plugin!".to_string();
    assert_eq!(m.safe_dir_name(), "My_Plugin_");
    assert_eq!(safe_dir_name_of("a-b_c/../d"), "a-b_c____d");
    assert_eq!(safe_dir_name_of("日本"), "日本");
}

#[test]
fn signing_payload_is_sorted_json() {
    assert_eq!(
        manifest().signing_payload(),
        r#"{"author":"a","description":"d","dll_hashes":["h"],"github-link":"g","name":"n","version":"1"}"#
    );
    let mut m = manifest();
    m.dll_hashes = None;
    m.signature = Some("sig".to_string());
    assert_eq!(
        m.signing_payload(),
        r#"{"author":"a","description":"d","dll_hashes":null,"github-link":"g","name":"n","version":"1"}"#
    );
}

#[test]
fn host_manifest_checks() {
    let m = HostManifest {
        name: "Cool Plugin".to_string(),
        author: "a".to_string(),
        version: "1".to_string(),
        description: "d".to_string(),
        github_link: " ".to_string(),
    };
    assert_eq!(m.validate(), Err("'github-link' is empty".to_string()));
    assert_eq!(m.safe_dir_name(), "Cool_Plugin");
}

#[test]
fn package_listings() {
    assert_eq!(check_package_listing(&strings(&["plugin.yml", "x.dll"])), Ok(()));
    assert_eq!(check_package_listing(&strings(&["x.dll"])), Err("Missing plugin.yml in zip".to_string()));
    assert_eq!(check_package_listing(&strings(&[])), Err("Missing plugin.yml in zip".to_string()));
    assert_eq!(
        check_package_listing(&strings(&["plugin.yml", "assets/a.png"])),
        Err("Missing .dll in zip".to_string())
    );
    assert_eq!(check_package_listing(&strings(&["sub/plugin.yml", "x.dll"])), Err("Missing plugin.yml in zip".to_string()));
}

#[test]
fn safe_entries_pass() {
    assert_eq!(check_entry("plugin.yml", false), Ok(()));
    assert_eq!(check_entry("assets/icons/a.png", false), Ok(()));
    assert_eq!(check_entry("dir/", false), Ok(()));
}

#[test]
fn unsafe_entries_are_refused() {
    assert_eq!(
        check_entry("link", true),
        Err("Zip entry 'link' is a symlink, refusing to extract".to_string())
    );
    for bad in ["../evil.dll", "a/../../b", "a\\..\\b", "/abs", "\\abs", "c:stream", ""] {
        assert_eq!(check_entry(bad, false), Err(format!("Zip entry '{}' has unsafe path", bad)));
    }
}

#[test]
fn overlong_entry_components_are_refused() {
    let ok = "a".repeat(MAX_FILENAME_COMPONENT);
    assert_eq!(check_entry(&format!("dir/{}", ok), false), Ok(()));
    let long = "a".repeat(MAX_FILENAME_COMPONENT + 1);
    let name = format!("dir/{}", long);
    assert_eq!(
        check_entry(&name, false),
        Err(format!("Zip entry '{}' exceeds max filename component length", name))
    );
    // 128 two-byte characters are 256 bytes.
    let wide = "é".repeat(128);
    assert!(check_entry(&wide, false).is_err());
}

#[test]
fn library_names_replace_hyphens() {
    assert_eq!(underscored_name("my-cool-plugin"), "my_cool_plugin");
}

#[test]
fn new_packager_defaults() {
    let p = PluginPackager::new("my-plugin");
    assert_eq!(p.output_path(), "target/my-plugin-0.1.0.zip");
    assert_eq!(p.release_dll_path(), "target/release/my_plugin.dll");
    assert_eq!(p.release_so_path(), "target/release/libmy_plugin.so");
    assert!(!p.has_signing_key());
}

#[test]
fn packager_setters_chain() {
    let mut p = PluginPackager::new("my-plugin");
    p.version("2.0.0").dll_name("core").author("Ann");
    assert_eq!(p.output_path(), "target/my-plugin-2.0.0.zip");
    assert_eq!(p.release_dll_path(), "target/release/core.dll");
    p.output("dist/out.zip");
    assert_eq!(p.output_path(), "dist/out.zip");
}

#[test]
fn manifest_needs_all_fields() {
    let mut p = PluginPackager::new("my-plugin");
    match p.manifest_for(strings(&["h1"])) {
        Err(e) => assert_eq!(e, "Invalid manifest: 'author' is empty"),
        Ok(_) => panic!("expected an invalid manifest"),
    }
    p.author("Ann").description("Does things").github_link("https://example.com/p").include_dir("assets");
    let m = p.manifest_for(strings(&["h1", "h2"])).unwrap();
    assert_eq!(m.name, "my-plugin");
    assert_eq!(m.author, "Ann");
    assert_eq!(m.version, "0.1.0");
    assert_eq!(m.description, "Does things");
    assert_eq!(m.github_link, "https://example.com/p");
    assert_eq!(m.signature, None);
    assert_eq!(m.dll_hashes, Some(strings(&["h1", "h2"])));
}

#[test]
fn locating_the_library() {
    let p = PluginPackager::new("my-plugin");
    assert_eq!(p.locate_dll(false, true, true), Ok("target/release/my_plugin.dll".to_string()));
    assert_eq!(p.locate_dll(false, false, true), Ok("target/release/libmy_plugin.so".to_string()));
    assert_eq!(
        p.locate_dll(false, false, false),
        Err("Cannot find built DLL. Expected at 'target/release/my_plugin.dll' or \
             'target/release/libmy_plugin.so'. Make sure 'cargo build --release' completed successfully."
            .to_string())
    );
    let mut q = PluginPackager::new("my-plugin");
    q.dll_path("build/x.dll");
    assert_eq!(q.locate_dll(true, false, false), Ok("build/x.dll".to_string()));
    assert_eq!(
        q.locate_dll(false, true, true),
        Err("Specified DLL path does not exist: build/x.dll".to_string())
    );
}

#[test]
fn keypairs_are_checked() {
    let key = ed25519_dalek::SigningKey::from_bytes(&[7u8; 32]);
    let good = key.to_keypair_bytes();
    let mut bad = good;
    bad[40] ^= 1;
    let mut p = PluginPackager::new("p");
    p.signing_key_bytes(&bad);
    assert!(!p.has_signing_key());
    p.signing_key_bytes(&good);
    assert!(p.has_signing_key());
    p.signing_key_bytes(&bad);
    assert!(p.has_signing_key());
}

#[test]
fn packager_from_cargo_manifest() {
    let doc = table(vec![
        ("package", table(vec![
            ("name", s("my-plugin")),
            ("version", s("1.2.3")),
            ("authors", TomlValue::Array(vec![s("Ann <ann@example.com>"), s("Bob")])),
            ("description", s("Shows things")),
            ("homepage", s("https://example.com/home")),
            ("repository", s("https://example.com/repo")),
        ])),
        ("dependencies", table(vec![])),
    ]);
    let p = PluginPackager::from_cargo_toml(&doc).unwrap();
    assert_eq!(p.output_path(), "target/my-plugin-1.2.3.zip");
    assert_eq!(p.release_dll_path(), "target/release/my_plugin.dll");
    let m = p.manifest_for(Vec::new()).unwrap();
    assert_eq!(m.author, "Ann <ann@example.com>");
    assert_eq!(m.description, "Shows things");
    assert_eq!(m.github_link, "");
}

#[test]
fn cargo_links_are_left_empty() {
    let doc = table(vec![(
        "package",
        table(vec![("name", s("x")), ("description", s("d")), ("homepage", s("https://example.com/home"))]),
    )]);
    let mut p = PluginPackager::from_cargo_toml(&doc).unwrap();
    p.author("a");
    assert_eq!(p.manifest_for(Vec::new()).unwrap().github_link, "");
    p.github_link("https://example.com/set");
    assert_eq!(p.manifest_for(Vec::new()).unwrap().github_link, "https://example.com/set");
}

#[test]
fn documented_cargo_flow_passes_the_manifest_check() {
    let text = "[package]\nname = \"demo-plugin\"\nversion = \"0.3.0\"\nauthors = [\"Ann\"]\n\
                description = \"A demo\"\n";
    let mut p = PluginPackager::from_cargo_text(text).unwrap();
    p.include_dir("assets");
    let m = p.manifest_for(vec!["h".to_string()]).unwrap();
    assert_eq!(m.name, "demo-plugin");
    assert_eq!(m.version, "0.3.0");
    assert_eq!(m.github_link, "");
    assert_eq!(p.output_path(), "target/demo-plugin-0.3.0.zip");
}

#[test]
fn packager_from_cargo_text() {
    let text = "[package]\nname = \"my-plugin\"\nversion = \"2.0.1\"\nauthors = [\"Ann\"]\n\
                description = \"Shows things\"\nrepository = \"https://example.com/repo\"\n\
                edition = \"2021\"\n\n[dependencies]\nserde = \"1\"\n";
    let p = PluginPackager::from_cargo_text(text).unwrap();
    assert_eq!(p.output_path(), "target/my-plugin-2.0.1.zip");
    assert_eq!(p.release_dll_path(), "target/release/my_plugin.dll");
    let m = p.manifest_for(vec!["h".to_string()]).unwrap();
    assert_eq!(m.author, "Ann");
    assert_eq!(m.github_link, "");
}

#[test]
fn cargo_text_errors() {
    match PluginPackager::from_cargo_text("[package\nname = ") {
        Err(e) => assert!(e.starts_with("Cannot parse Cargo.toml: ") && e.len() > "Cannot parse Cargo.toml: ".len()),
        Ok(_) => panic!("expected a parse error"),
    }
    match PluginPackager::from_cargo_text("[dependencies]\n") {
        Err(e) => assert_eq!(e, "Cargo.toml missing [package] section"),
        Ok(_) => panic!("expected a missing package error"),
    }
    match PluginPackager::from_cargo_text("[package]\nversion = \"1\"\n") {
        Err(e) => assert_eq!(e, "Cargo.toml missing package.name"),
        Ok(_) => panic!("expected a missing name error"),
    }
}

#[test]
fn cargo_manifest_defaults() {
    let doc = table(vec![("package", table(vec![("name", s("x")), ("version", TomlValue::Other)]))]);
    let mut p = PluginPackager::from_cargo_toml(&doc).unwrap();
    assert_eq!(p.output_path(), "target/x-0.1.0.zip");
    p.author("a").github_link("g");
    match p.manifest_for(Vec::new()) {
        Err(e) => assert_eq!(e, "Invalid manifest: 'description' is empty"),
        Ok(_) => panic!("expected an empty description"),
    }
}

#[test]
fn cargo_manifest_errors() {
    let no_package = table(vec![("workspace", table(vec![]))]);
    match PluginPackager::from_cargo_toml(&no_package) {
        Err(e) => assert_eq!(e, "Cargo.toml missing [package] section"),
        Ok(_) => panic!("expected a missing package error"),
    }
    let no_name = table(vec![("package", table(vec![("name", TomlValue::Other)]))]);
    match PluginPackager::from_cargo_toml(&no_name) {
        Err(e) => assert_eq!(e, "Cargo.toml missing package.name"),
        Ok(_) => panic!("expected a missing name error"),
    }
    let not_table = table(vec![("package", s("x"))]);
    match PluginPackager::from_cargo_toml(&not_table) {
        Err(e) => assert_eq!(e, "Cargo.toml missing package.name"),
        Ok(_) => panic!("expected a missing name error"),
    }
}

#[test]
fn package_fields_need_no_link() {
    assert_eq!(check_package_fields("n", "a", "1", "d"), Ok(()));
    assert_eq!(check_package_fields("n", " ", "1", "d"), Err("'author' is empty".to_string()));
    assert_eq!(check_package_fields("n", "a", "1", ""), Err("'description' is empty".to_string()));
}
