use arma3_mod_manager::config::{Config, Preset, RawConfig, RawModId};
use arma3_mod_manager::errors::AppError;

fn strings(items: &[&str]) -> Vec<String> {
    items.iter().map(|s| s.to_string()).collect()
}

fn raw_base() -> RawConfig {
    RawConfig {
        game_path: "/game".to_string(),
        workshop_path: "/workshop".to_string(),
        custom_mods_path: None,
        executable_name: None,
        enabled_mods: Vec::new(),
        default_args: String::new(),
        presets: None,
        active_preset: None,
    }
}

#[test]
fn new_config_has_single_empty_default_preset() {
    let c = Config::new("/game".to_string(), "/workshop".to_string(), None).unwrap();
    assert_eq!(c.presets.len(), 1);
    assert_eq!(c.presets[0].name, "Default");
    assert!(c.presets[0].mods.is_empty());
    assert_eq!(c.active_preset, "Default");
    assert!(c.get_enabled_mods().is_empty());
    assert_eq!(c.get_executable_name(), "arma3");
    assert_eq!(c.get_default_args(), "-noSplash -skipIntro -world=empty");
}

#[test]
fn legacy_numeric_mods_migrate_to_default_preset() {
    let mut raw = raw_base();
    raw.enabled_mods = vec![RawModId::Number(123), RawModId::Number(456)];
    let c = Config::from_raw(raw);
    assert_eq!(c.presets.len(), 1);
    assert_eq!(c.presets[0].name, "Default");
    assert_eq!(c.presets[0].mods, strings(&["123", "456"]));
    assert_eq!(c.active_preset, "Default");
    assert_eq!(c.get_enabled_mods(), strings(&["123", "456"]));
}

#[test]
fn migration_normalizes_mixed_entries() {
    let mut raw = raw_base();
    raw.enabled_mods = vec![
        RawModId::Text("alpha".to_string()),
        RawModId::Number(7),
        RawModId::Other,
        RawModId::Number(0),
    ];
    let c = Config::from_raw(raw);
    assert_eq!(c.presets[0].mods, strings(&["alpha", "7", "0"]));
}

#[test]
fn migration_treats_empty_presets_as_legacy() {
    let mut raw = raw_base();
    raw.enabled_mods = vec![RawModId::Text("m1".to_string())];
    raw.presets = Some(Vec::new());
    let c = Config::from_raw(raw);
    assert_eq!(c.presets.len(), 1);
    assert_eq!(c.presets[0].name, "Default");
    assert_eq!(c.presets[0].mods, strings(&["m1"]));
}

#[test]
fn migration_corrects_unknown_active_preset() {
    let mut raw = raw_base();
    raw.presets = Some(vec![
        Preset { name: "First".to_string(), mods: strings(&["a"]) },
        Preset { name: "Second".to_string(), mods: strings(&["b"]) },
    ]);
    raw.active_preset = Some("Vanished".to_string());
    let c = Config::from_raw(raw);
    assert_eq!(c.active_preset, "First");
    assert_eq!(c.get_enabled_mods(), strings(&["a"]));
}

#[test]
fn migration_keeps_known_active_preset() {
    let mut raw = raw_base();
    raw.presets = Some(vec![
        Preset { name: "First".to_string(), mods: strings(&["a"]) },
        Preset { name: "Second".to_string(), mods: strings(&["b"]) },
    ]);
    raw.active_preset = Some("Second".to_string());
    let c = Config::from_raw(raw);
    assert_eq!(c.active_preset, "Second");
    assert_eq!(c.get_enabled_mods(), strings(&["b"]));
}

#[test]
fn migration_defaults_executable_name() {
    let c = Config::from_raw(raw_base());
    assert_eq!(c.get_executable_name(), "arma3");
    let mut raw = raw_base();
    raw.executable_name = Some("other".to_string());
    let c = Config::from_raw(raw);
    assert_eq!(c.get_executable_name(), "other");
}

#[test]
fn save_preset_inserts_and_overwrites() {
    let mut c = Config::new("/g".to_string(), "/w".to_string(), None).unwrap();
    c.save_preset("Night".to_string(), strings(&["1", "2"]));
    assert_eq!(c.presets.len(), 2);
    assert_eq!(c.presets[1].name, "Night");
    assert_eq!(c.presets[1].mods, strings(&["1", "2"]));
    c.save_preset("Night".to_string(), strings(&["3"]));
    assert_eq!(c.presets.len(), 2);
    assert_eq!(c.presets[1].mods, strings(&["3"]));
    // Saving over the active preset resyncs the flat mirror.
    c.save_preset("Default".to_string(), strings(&["9"]));
    assert_eq!(c.get_enabled_mods(), strings(&["9"]));
}

#[test]
fn rename_preset_missing_fails() {
    let mut c = Config::new("/g".to_string(), "/w".to_string(), None).unwrap();
    assert!(!c.rename_preset(&"Ghostly".to_string(), "New".to_string()));
    assert_eq!(c.presets.len(), 1);
    assert_eq!(c.active_preset, "Default");
}

#[test]
fn rename_preset_moves_list_and_repoints_active() {
    let mut c = Config::new("/g".to_string(), "/w".to_string(), None).unwrap();
    c.update_mods(strings(&["x"]));
    assert!(c.rename_preset(&"Default".to_string(), "Main".to_string()));
    assert_eq!(c.presets.len(), 1);
    assert_eq!(c.presets[0].name, "Main");
    assert_eq!(c.presets[0].mods, strings(&["x"]));
    assert_eq!(c.active_preset, "Main");
    assert_eq!(c.get_enabled_mods(), strings(&["x"]));
}

#[test]
fn rename_preset_onto_existing_replaces_it() {
    let mut c = Config::new("/g".to_string(), "/w".to_string(), None).unwrap();
    c.save_preset("Other".to_string(), strings(&["o"]));
    c.update_mods(strings(&["d"]));
    assert!(c.rename_preset(&"Other".to_string(), "Default".to_string()));
    assert_eq!(c.presets.len(), 1);
    assert_eq!(c.presets[0].name, "Default");
    assert_eq!(c.presets[0].mods, strings(&["o"]));
    assert_eq!(c.active_preset, "Default");
    assert_eq!(c.get_enabled_mods(), strings(&["o"]));
}

#[test]
fn delete_sole_preset_fails_and_changes_nothing() {
    let mut c = Config::new("/g".to_string(), "/w".to_string(), None).unwrap();
    c.update_mods(strings(&["keep"]));
    assert!(!c.delete_preset(&"Default".to_string()));
    assert_eq!(c.presets.len(), 1);
    assert_eq!(c.presets[0].name, "Default");
    assert_eq!(c.active_preset, "Default");
    assert_eq!(c.get_enabled_mods(), strings(&["keep"]));
}

#[test]
fn delete_unknown_preset_fails() {
    let mut c = Config::new("/g".to_string(), "/w".to_string(), None).unwrap();
    c.save_preset("Second".to_string(), Vec::new());
    assert!(!c.delete_preset(&"Nowhere".to_string()));
    assert_eq!(c.presets.len(), 2);
}

#[test]
fn delete_active_preset_repoints_to_first_remaining() {
    let mut c = Config::new("/g".to_string(), "/w".to_string(), None).unwrap();
    c.save_preset("Second".to_string(), strings(&["s"]));
    assert!(c.set_active_preset(&"Second".to_string()));
    assert!(c.delete_preset(&"Second".to_string()));
    assert_eq!(c.presets.len(), 1);
    assert_eq!(c.active_preset, "Default");
    assert!(c.get_enabled_mods().is_empty());
}

#[test]
fn delete_inactive_preset_keeps_active() {
    let mut c = Config::new("/g".to_string(), "/w".to_string(), None).unwrap();
    c.update_mods(strings(&["d"]));
    c.save_preset("Second".to_string(), strings(&["s"]));
    assert!(c.delete_preset(&"Second".to_string()));
    assert_eq!(c.active_preset, "Default");
    assert_eq!(c.get_enabled_mods(), strings(&["d"]));
}

#[test]
fn preset_invariant_survives_operation_sequences() {
    let mut c = Config::new("/g".to_string(), "/w".to_string(), None).unwrap();
    c.save_preset("A".to_string(), strings(&["1"]));
    c.save_preset("B".to_string(), strings(&["2"]));
    c.rename_preset(&"A".to_string(), "C".to_string());
    c.delete_preset(&"Default".to_string());
    c.delete_preset(&"C".to_string());
    c.delete_preset(&"B".to_string()); // sole preset left: must fail
    assert!(!c.presets.is_empty());
    assert!(c.presets.iter().any(|p| p.name == c.active_preset));
}

#[test]
fn set_active_preset_unknown_is_noop() {
    let mut c = Config::new("/g".to_string(), "/w".to_string(), None).unwrap();
    c.update_mods(strings(&["d"]));
    assert!(!c.set_active_preset(&"Missing".to_string()));
    assert_eq!(c.active_preset, "Default");
    assert_eq!(c.get_enabled_mods(), strings(&["d"]));
}

#[test]
fn set_active_preset_switches_and_mirrors() {
    let mut c = Config::new("/g".to_string(), "/w".to_string(), None).unwrap();
    c.save_preset("Night".to_string(), strings(&["n1", "n2"]));
    assert!(c.set_active_preset(&"Night".to_string()));
    assert_eq!(c.active_preset, "Night");
    assert_eq!(c.get_enabled_mods(), strings(&["n1", "n2"]));
}

#[test]
fn update_mods_writes_into_active_preset() {
    let mut c = Config::new("/g".to_string(), "/w".to_string(), None).unwrap();
    c.save_preset("Night".to_string(), Vec::new());
    c.set_active_preset(&"Night".to_string());
    c.update_mods(strings(&["m1", "m2"]));
    assert_eq!(c.presets[1].name, "Night");
    assert_eq!(c.presets[1].mods, strings(&["m1", "m2"]));
    assert_eq!(c.presets[0].mods.len(), 0);
    assert_eq!(c.get_enabled_mods(), strings(&["m1", "m2"]));
}

#[test]
fn valid_reports_bad_paths_workshop_first() {
    let c = Config::new("/g".to_string(), "/w".to_string(), None).unwrap();
    assert!(c.valid(true, true).is_ok());
    assert_eq!(
        c.valid(false, true).unwrap_err(),
        AppError::InvalidPath("/w".to_string())
    );
    assert_eq!(
        c.valid(false, false).unwrap_err(),
        AppError::InvalidPath("/w".to_string())
    );
    assert_eq!(
        c.valid(true, false).unwrap_err(),
        AppError::InvalidPath("/g".to_string())
    );
}

#[test]
fn save_path_sits_under_home() {
    assert_eq!(
        Config::get_save_path("/home/user"),
        "/home/user/arma3-mod-manager-console-config.json"
    );
}

#[test]
fn migration_restores_saved_configuration() {
    let mut c = Config::new("/g".to_string(), "/w".to_string(), Some("/c".to_string())).unwrap();
    c.save_preset("Night".to_string(), strings(&["n1", "n2"]));
    c.set_active_preset(&"Night".to_string());
    c.set_default_args("-window".to_string());
    let r = c.reloaded();
    assert_eq!(r.game_path, c.game_path);
    assert_eq!(r.workshop_path, c.workshop_path);
    assert_eq!(r.custom_mods_path, c.custom_mods_path);
    assert_eq!(r.executable_name, c.executable_name);
    assert_eq!(r.default_args, c.default_args);
    assert_eq!(r.active_preset, "Night");
    assert_eq!(r.get_enabled_mods(), strings(&["n1", "n2"]));
    assert_eq!(r.presets.len(), 2);
    assert_eq!(r.presets[0].name, c.presets[0].name);
    assert_eq!(r.presets[1].mods, c.presets[1].mods);
}
