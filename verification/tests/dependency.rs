use arma3_mod_manager::dependency::{
    can_check_dependencies, dependency_status, enable_installed_dependencies, Dependency,
    DependencyStatus,
};
use arma3_mod_manager::mods::Mod;

fn sample_mod(id: &str, enabled: bool, is_cdlc: bool, is_custom: bool) -> Mod {
    Mod {
        identifier: id.to_string(),
        name: id.to_string(),
        enabled,
        is_cdlc,
        is_custom,
    }
}

fn dep(id: &str) -> Dependency {
    Dependency { id: id.to_string(), name: format!("Dep {}", id) }
}

#[test]
fn dependency_status_classifies_against_local_mods() {
    let mods = vec![
        sample_mod("100", true, false, false),
        sample_mod("200", false, false, false),
    ];
    assert_eq!(dependency_status(&dep("100"), &mods), DependencyStatus::Enabled);
    assert_eq!(dependency_status(&dep("200"), &mods), DependencyStatus::Disabled);
    assert_eq!(dependency_status(&dep("300"), &mods), DependencyStatus::Missing);
}

#[test]
fn bulk_enable_touches_only_listed_installed_mods() {
    let mut mods = vec![
        sample_mod("100", false, false, false),
        sample_mod("200", false, false, false),
        sample_mod("300", true, false, false),
    ];
    let deps = vec![dep("100"), dep("300"), dep("999")];
    enable_installed_dependencies(&mut mods, &deps);
    assert!(mods[0].enabled); // listed and installed: enabled now
    assert!(!mods[1].enabled); // not listed: untouched
    assert!(mods[2].enabled); // listed, already enabled: stays
    assert_eq!(mods.len(), 3);
}

#[test]
fn dependency_review_refused_for_cdlc_and_custom() {
    assert!(can_check_dependencies(&sample_mod("1", false, false, false)));
    assert!(!can_check_dependencies(&sample_mod("GM", false, true, false)));
    assert!(!can_check_dependencies(&sample_mod("mine", false, false, true)));
}
