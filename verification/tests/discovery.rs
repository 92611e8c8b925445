use arma3_mod_manager::discovery::{build_mod_list, extract_meta_name, process_mod_dir, ModDir};
use arma3_mod_manager::mods::cdlc_name;
use arma3_mod_manager::strutil::decimal_string;
use arma3_mod_manager::utils::titleize;

fn strings(items: &[&str]) -> Vec<String> {
    items.iter().map(|s| s.to_string()).collect()
}

#[test]
fn titleize_uppercases_first_character_only() {
    assert_eq!(titleize("test mod"), "Test mod");
    assert_eq!(titleize("Already"), "Already");
    assert_eq!(titleize(""), "");
}

#[test]
fn decimal_rendering_is_exact() {
    assert_eq!(decimal_string(0), "0");
    assert_eq!(decimal_string(7), "7");
    assert_eq!(decimal_string(123456), "123456");
    assert_eq!(decimal_string(u64::MAX), "18446744073709551615");
}

#[test]
fn meta_name_is_extracted() {
    assert_eq!(
        extract_meta_name("name = \"Test Mod\";"),
        Some("Test Mod".to_string())
    );
    assert_eq!(extract_meta_name("name=\"X\""), Some("X".to_string()));
    assert_eq!(
        extract_meta_name("publishedid = 3;\nname\t =  \"Spaced\"; more"),
        Some("Spaced".to_string())
    );
}

#[test]
fn meta_name_absent_or_empty_yields_nothing() {
    assert_eq!(extract_meta_name(""), None);
    assert_eq!(extract_meta_name("author = \"someone\""), None);
    assert_eq!(extract_meta_name("name = \"\""), None);
    assert_eq!(extract_meta_name("name = unquoted"), None);
}

#[test]
fn meta_name_first_assignment_wins() {
    assert_eq!(
        extract_meta_name("name = \"First\"; name = \"Second\""),
        Some("First".to_string())
    );
    // A near-miss is skipped and a later real assignment still matches.
    assert_eq!(
        extract_meta_name("nameless; name = \"Real\""),
        Some("Real".to_string())
    );
}

#[test]
fn process_mod_dir_builds_record_from_meta() {
    let m = process_mod_dir(
        "123456".to_string(),
        Some("name = \"Test Mod\";".to_string()),
        false,
    )
    .unwrap();
    assert_eq!(m.identifier, "123456");
    assert_eq!(m.name, "Test Mod");
    assert!(!m.enabled);
    assert!(!m.is_cdlc);
    assert!(!m.is_custom);
}

#[test]
fn process_mod_dir_falls_back_to_directory_name() {
    let m = process_mod_dir("my_mod".to_string(), Some("junk".to_string()), true).unwrap();
    assert_eq!(m.identifier, "my_mod");
    assert_eq!(m.name, "My_mod");
    assert!(m.is_custom);
}

#[test]
fn process_mod_dir_without_meta_is_skipped() {
    assert!(process_mod_dir("dir".to_string(), None, false).is_none());
}

#[test]
fn cdlc_lookup_knows_the_table() {
    assert_eq!(cdlc_name("GM"), Some("Global Mobilization".to_string()));
    assert_eq!(cdlc_name("SPE"), Some("Spearhead 1944".to_string()));
    assert_eq!(cdlc_name("XX"), None);
    assert_eq!(cdlc_name("gm"), None);
}

#[test]
fn build_mod_list_merges_sorts_and_stamps() {
    let workshop = vec![
        ModDir {
            dir_name: "123456".to_string(),
            meta: Some("name = \"Test Mod\"".to_string()),
        },
        ModDir {
            dir_name: "777".to_string(),
            meta: Some("name = \"Alpha\"".to_string()),
        },
        ModDir { dir_name: "no_meta".to_string(), meta: None },
    ];
    let custom = vec![ModDir {
        dir_name: "mine".to_string(),
        meta: Some("x".to_string()),
    }];
    let game_dirs = strings(&["GM", "Addons"]);
    let enabled = strings(&["123456", "GM"]);
    let mods = build_mod_list(workshop, custom, game_dirs, &enabled);

    let names: Vec<&str> = mods.iter().map(|m| m.name.as_str()).collect();
    assert_eq!(names, vec!["Alpha", "Global Mobilization", "Mine", "Test Mod"]);

    let gm = &mods[1];
    assert_eq!(gm.identifier, "GM");
    assert!(gm.is_cdlc);
    assert!(gm.enabled);

    let mine = &mods[2];
    assert!(mine.is_custom);
    assert!(!mine.enabled);

    let test_mod = &mods[3];
    assert_eq!(test_mod.identifier, "123456");
    assert!(test_mod.enabled);
    assert!(!test_mod.is_cdlc && !test_mod.is_custom);
}

#[test]
fn build_mod_list_sorts_by_code_point() {
    let workshop = vec![
        ModDir { dir_name: "a".to_string(), meta: Some("name = \"Aa\"".to_string()) },
        ModDir { dir_name: "z".to_string(), meta: Some("name = \"AB\"".to_string()) },
    ];
    let mods = build_mod_list(workshop, Vec::new(), Vec::new(), &Vec::new());
    // Ordinal, case-sensitive order: capitals sort before lowercase.
    assert_eq!(mods[0].name, "AB");
    assert_eq!(mods[1].name, "Aa");
}

#[test]
fn build_mod_list_keeps_first_of_duplicate_identifiers() {
    // A workshop folder and a Creator DLC folder share the name "GM": the
    // earlier record in scan order (the workshop one) survives, so one
    // discovery pass never yields two mods with the same identifier.
    let workshop = vec![
        ModDir { dir_name: "GM".to_string(), meta: Some("name = \"Lookalike\"".to_string()) },
        ModDir { dir_name: "GM".to_string(), meta: Some("name = \"Copycat\"".to_string()) },
    ];
    let mods = build_mod_list(workshop, Vec::new(), strings(&["GM"]), &Vec::new());
    assert_eq!(mods.len(), 1);
    assert_eq!(mods[0].identifier, "GM");
    assert_eq!(mods[0].name, "Lookalike");
    assert!(!mods[0].is_cdlc);
}
