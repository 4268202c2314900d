//! Configuration, display names and error texts.

use play_on_air::config::{
    matches_device, resolve_config_path, Config, ConfigPath, DeviceConfig, FileRead,
};
use play_on_air::error::{joined, ConfigError, Error};
use play_on_air::names::{airplay_name, airplay_name_with_id, is_hidden};

fn entries(text: &str) -> Vec<DeviceConfig> {
    let table: toml::Table = text.parse().expect("toml");
    let mut out = Vec::new();
    if let Some(list) = table.get("device").and_then(|d| d.as_array()) {
        for entry in list {
            let text_of = |key: &str| entry.get(key).and_then(|v| v.as_str()).map(str::to_owned);
            out.push(DeviceConfig {
                id: text_of("id").unwrap_or_default(),
                name: text_of("name"),
                hide: entry.get("hide").and_then(|v| v.as_bool()).unwrap_or(false),
            });
        }
    }
    out
}

fn parse_toml(text: &str) -> Config {
    Config::load_path("play-on-air.toml", FileRead::Entries(entries(text))).expect("parse")
}

#[test]
fn missing_file_yields_defaults() {
    let path = "/tmp/play-on-air-definitely-missing-xyz.toml";
    let cfg = Config::load_path(path, FileRead::NotFound).expect("missing is ok");
    assert!(cfg.devices.is_empty());
    assert!(Config::default().devices.is_empty());
}

#[test]
fn parse_device_rename_and_hide() {
    let cfg = parse_toml(
        r#"
[[device]]
id = "Living Room TV"
name = "TV"
hide = false

[[device]]
id = "bedroom"
hide = true
"#,
    );
    assert_eq!(cfg.devices.len(), 2);

    let living = cfg.device_override("Living Room TV", "uuid-living");
    assert_eq!(living.display_name, "TV");
    assert!(!living.hidden);

    let bed = cfg.device_override("Bedroom Speaker", "cast-bedroom-id");
    assert_eq!(bed.display_name, "Bedroom Speaker");
    assert!(bed.hidden);

    let other = cfg.device_override("Kitchen", "other-id");
    assert_eq!(other.display_name, "Kitchen");
    assert!(!other.hidden);
}

#[test]
fn match_is_case_insensitive_substring() {
    let cfg = parse_toml(
        r#"
[[device]]
id = "LIVING"
name = "LR"
"#,
    );
    let o = cfg.device_override("My Living Room", "x");
    assert_eq!(o.display_name, "LR");
}

#[test]
fn match_by_uuid_substring() {
    let cfg = parse_toml(
        r#"
[[device]]
id = "abc123"
name = "Renamed"
"#,
    );
    let o = cfg.device_override("Some Name", "device-abc123-end");
    assert_eq!(o.display_name, "Renamed");
}

#[test]
fn empty_name_keeps_cast_name() {
    let cfg = parse_toml(
        r#"
[[device]]
id = "tv"
name = ""
"#,
    );
    let o = cfg.device_override("Family TV", "id");
    assert_eq!(o.display_name, "Family TV");
}

#[test]
fn load_optional_none_uses_default_path_missing_ok() {
    match resolve_config_path::<String>(None, None) {
        ConfigPath::Named(name) => {
            assert_eq!(name, "play-on-air.toml");
            drop(Config::load_path(&name, FileRead::NotFound).expect("defaults"));
        }
        other => panic!("unexpected {other:?}"),
    }
}

#[test]
fn load_explicit_temp_file() {
    let cfg = parse_toml(
        r#"
[[device]]
id = "x"
name = "Y"
"#,
    );
    assert_eq!(cfg.devices.len(), 1);
    assert_eq!(cfg.devices[0].name.as_deref(), Some("Y"));
}

#[test]
fn identity_without_config() {
    let cfg = Config::default();
    assert_eq!(airplay_name("Kitchen", &cfg), "Kitchen");
    assert!(!is_hidden("Kitchen", "id", &cfg));
}

#[test]
fn rename_from_config() {
    let cfg = parse_toml(
        r#"
[[device]]
id = "Kitchen"
name = "Cook"
"#,
    );
    assert_eq!(airplay_name("Kitchen Display", &cfg), "Cook");
}

#[test]
fn first_matching_entry_wins() {
    let cfg = parse_toml(
        r#"
[[device]]
id = ""
name = "Never"

[[device]]
id = "room"
name = "First"

[[device]]
id = "living room"
name = "Second"
hide = true
"#,
    );
    let o = cfg.device_override("Living Room", "id");
    assert_eq!(o.display_name, "First");
    assert!(!o.hidden);
    assert_eq!(airplay_name_with_id("x", "THE-ROOM", &cfg), "First");
}

#[test]
fn patterns_match_name_or_id() {
    assert!(matches_device("GYM", "my gym", "id"));
    assert!(matches_device("uuid", "x", "A-UUID-B"));
    assert!(!matches_device("gymnasium", "my gym", "id"));
}

#[test]
fn config_path_order() {
    match resolve_config_path(Some(7), Some("env.toml")) {
        ConfigPath::Given(p) => assert_eq!(p, 7),
        other => panic!("unexpected {other:?}"),
    }
    match resolve_config_path::<u8>(None, Some("  env.toml \n")) {
        ConfigPath::Named(name) => assert_eq!(name, "env.toml"),
        other => panic!("unexpected {other:?}"),
    }
    match resolve_config_path::<u8>(None, Some("   ")) {
        ConfigPath::Named(name) => assert_eq!(name, "play-on-air.toml"),
        other => panic!("unexpected {other:?}"),
    }
}

#[test]
fn unusable_files_are_errors() {
    match Config::load_path("p.toml", FileRead::Invalid("bad".to_owned())) {
        Err(e) => assert_eq!(e.message(), "config error at p.toml: TOML parse error: bad"),
        Ok(c) => panic!("unexpected {c:?}"),
    }
    match Config::load_path("p.toml", FileRead::Unreadable("denied".to_owned())) {
        Err(e) => assert_eq!(e.message(), "config error at p.toml: denied"),
        Ok(c) => panic!("unexpected {c:?}"),
    }
}

#[test]
fn error_texts() {
    let m = || "why".to_owned();
    assert_eq!(Error::Discovery(m()).message(), "discovery error: why");
    assert_eq!(Error::Media(m()).message(), "media server error: why");
    assert_eq!(Error::Cast(m()).message(), "cast error: why");
    assert_eq!(Error::AirPlay(m()).message(), "airplay error: why");
    assert_eq!(Error::Audio(m()).message(), "audio error: why");
    assert_eq!(Error::Bridge(m()).message(), "bridge error: why");
    assert_eq!(Error::Io(m()).message(), "I/O error: why");
    assert_eq!(ConfigError::Parse(m()).message(), "TOML parse error: why");
    assert_eq!(joined("a", "b"), "ab");
}

#[test]
fn case_of_any_letter_does_not_matter() {
    let cfg = Config {
        devices: vec![DeviceConfig {
            id: "SAL\u{d3}N".to_owned(),
            name: Some("TV".to_owned()),
            hide: false,
        }],
    };
    let seen = cfg.device_override("Sal\u{f3}n", "x");
    assert_eq!(seen.display_name, "TV");
    assert!(!seen.hidden);
    assert_eq!(cfg.device_override("Salon", "x").display_name, "Salon");
    let part = "\u{39f}\u{394}\u{39f}\u{3a3}";
    let whole = "\u{39f}\u{394}\u{39f}\u{3a3}\u{391}";
    assert!(matches_device(part, whole, "x"));
}
