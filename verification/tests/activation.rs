use arma3_mod_manager::activation::{
    apply_activation, link_name, make_links, sweep_targets, LinkEntry,
};

fn entry(name: &str, is_symlink: bool) -> LinkEntry {
    LinkEntry { name: name.to_string(), is_symlink }
}

#[test]
fn link_name_is_final_component() {
    assert_eq!(link_name("/steam/workshop/123456"), "123456");
    assert_eq!(link_name("relative/dir"), "dir");
    assert_eq!(link_name("noslash"), "noslash");
    assert_eq!(link_name("trailing/"), "");
}

#[test]
fn sweep_targets_names_only_symlinks() {
    let listing = vec![
        entry("Addons", false),
        entry("old_mod", true),
        entry("arma3", false),
        entry("other_mod", true),
    ];
    assert_eq!(sweep_targets(&listing), vec!["old_mod", "other_mod"]);
}

#[test]
fn make_links_names_after_sources() {
    let sources = vec!["/w/123".to_string(), "/custom/mine".to_string()];
    let links = make_links(&sources);
    assert_eq!(links.len(), 2);
    assert_eq!(links[0].link_name, "123");
    assert_eq!(links[0].target, "/w/123");
    assert_eq!(links[1].link_name, "mine");
    assert_eq!(links[1].target, "/custom/mine");
}

#[test]
fn activation_replaces_symlinks_and_keeps_files() {
    let listing = vec![entry("Addons", false), entry("stale", true)];
    let sources = vec!["/w/123456".to_string()];
    let after = apply_activation(&listing, &sources);
    assert_eq!(after, vec![entry("Addons", false), entry("123456", true)]);
}

#[test]
fn activation_with_no_sources_only_sweeps() {
    let listing = vec![entry("stale", true), entry("Addons", false)];
    let after = apply_activation(&listing, &Vec::new());
    assert_eq!(after, vec![entry("Addons", false)]);
}

#[test]
fn activation_twice_equals_once() {
    let listing = vec![
        entry("Addons", false),
        entry("stale_one", true),
        entry("arma3", false),
        entry("stale_two", true),
    ];
    let sources = vec!["/w/123".to_string(), "/w/456".to_string()];
    let once = apply_activation(&listing, &sources);
    let twice = apply_activation(&once, &sources);
    assert_eq!(twice, once);
}

#[test]
fn enable_then_disable_round_trip_restores_directory() {
    // A workshop mod 123456 gets enabled and launched: its symlink appears
    // next to the untouched game files.  Disabling it and launching again
    // removes the symlink and nothing else.
    let game_dir = vec![entry("Addons", false), entry("arma3", false)];
    let enabled = apply_activation(&game_dir, &vec!["/workshop/123456".to_string()]);
    assert_eq!(
        enabled,
        vec![entry("Addons", false), entry("arma3", false), entry("123456", true)]
    );
    let disabled = apply_activation(&enabled, &Vec::new());
    assert_eq!(disabled, game_dir);
}
