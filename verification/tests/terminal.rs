use arma3_mod_manager::config::Config;
use arma3_mod_manager::manager::ModManager;
use arma3_mod_manager::mods::Mod;
use arma3_mod_manager::terminal::{
    Action, EditorKey, EditorOutcome, Key, LineEditor, Terminal,
};
use arma3_mod_manager::utils::Platform;

fn strings(items: &[&str]) -> Vec<String> {
    items.iter().map(|s| s.to_string()).collect()
}

fn sample_mod(id: &str, name: &str, enabled: bool, is_cdlc: bool, is_custom: bool) -> Mod {
    Mod {
        identifier: id.to_string(),
        name: name.to_string(),
        enabled,
        is_cdlc,
        is_custom,
    }
}

fn session(mods: Vec<Mod>, page_size: usize) -> Terminal {
    let config = Config::new("/game".to_string(), "/workshop".to_string(), Some("/custom".to_string()))
        .unwrap();
    Terminal::new(ModManager::new(config, mods, page_size))
}

fn five_mods() -> Vec<Mod> {
    vec![
        sample_mod("1", "A", false, false, false),
        sample_mod("2", "B", true, false, false),
        sample_mod("3", "C", false, false, false),
        sample_mod("4", "D", false, false, false),
        sample_mod("5", "E", false, false, false),
    ]
}

#[test]
fn cursor_moves_within_page_without_wrapping() {
    let mut t = session(five_mods(), 3);
    assert_eq!(t.selected_index, 0);
    t.handle_key(Key::Up);
    assert_eq!(t.selected_index, 0);
    t.handle_key(Key::Down);
    assert_eq!(t.selected_index, 1);
    t.handle_key(Key::Down);
    assert_eq!(t.selected_index, 2);
    t.handle_key(Key::Down); // last row of the page: no page change
    assert_eq!(t.selected_index, 2);
    assert_eq!(t.mod_manager.loaded_mods.current_page, 0);
}

#[test]
fn page_turns_reset_cursor() {
    let mut t = session(five_mods(), 3);
    t.handle_key(Key::Down);
    t.handle_key(Key::NextPage);
    assert_eq!(t.mod_manager.loaded_mods.current_page, 1);
    assert_eq!(t.selected_index, 0);
    t.handle_key(Key::NextPage); // clamps at the last page
    assert_eq!(t.mod_manager.loaded_mods.current_page, 1);
    t.handle_key(Key::PrevPage);
    assert_eq!(t.mod_manager.loaded_mods.current_page, 0);
}

#[test]
fn toggle_selected_flips_the_item_under_the_cursor() {
    let mut t = session(five_mods(), 3);
    t.handle_key(Key::NextPage);
    t.handle_key(Key::Down);
    t.handle_key(Key::ToggleSelected); // second page, second row: mod "5"
    assert!(t.mod_manager.loaded_mods.items[4].enabled);
    t.handle_key(Key::ToggleSelected);
    assert!(!t.mod_manager.loaded_mods.items[4].enabled);
}

#[test]
fn toggle_all_enables_when_any_disabled() {
    let mut t = session(five_mods(), 3);
    t.handle_key(Key::ToggleAll);
    assert!(t.mod_manager.loaded_mods.items.iter().all(|m| m.enabled));
}

#[test]
fn toggle_all_disables_when_all_enabled() {
    let mut mods = five_mods();
    for m in mods.iter_mut() {
        m.enabled = true;
    }
    let mut t = session(mods, 3);
    t.handle_key(Key::ToggleAll);
    assert!(t.mod_manager.loaded_mods.items.iter().all(|m| !m.enabled));
}

#[test]
fn toggle_all_enables_when_all_disabled() {
    let mut mods = five_mods();
    for m in mods.iter_mut() {
        m.enabled = false;
    }
    let mut t = session(mods, 3);
    t.handle_key(Key::ToggleAll);
    assert!(t.mod_manager.loaded_mods.items.iter().all(|m| m.enabled));
}

#[test]
fn command_keys_map_to_actions() {
    let mut t = session(five_mods(), 3);
    assert_eq!(t.handle_key(Key::Refresh), Action::Refresh);
    assert_eq!(t.handle_key(Key::EditArgs), Action::EditArgs);
    assert_eq!(t.handle_key(Key::EditExecutable), Action::EditExecutable);
    assert_eq!(t.handle_key(Key::Launch), Action::Launch);
    assert_eq!(t.handle_key(Key::Quit), Action::Quit);
    assert_eq!(t.handle_key(Key::Other), Action::Idle);
}

#[test]
fn view_reports_counts_rows_and_paging() {
    let mut t = session(five_mods(), 3);
    t.handle_key(Key::Down);
    let v = t.view();
    assert_eq!(v.enabled_count, 1);
    assert_eq!(v.total_count, 5);
    assert_eq!(v.page_number, 1);
    assert_eq!(v.total_pages, 2);
    assert!(!v.show_prev);
    assert!(v.show_next);
    assert_eq!(v.rows.len(), 3);
    assert!(!v.rows[0].selected);
    assert!(v.rows[1].selected);
    assert_eq!(v.rows[0].name, "A");
    assert!(v.rows[1].enabled);
}

#[test]
fn launch_plan_collects_ids_sources_and_args() {
    let mods = vec![
        sample_mod("123", "W1", true, false, false),
        sample_mod("456", "W2", false, false, false),
        sample_mod("GM", "Global Mobilization", true, true, false),
        sample_mod("mine", "Mine", true, false, true),
    ];
    let t = session(mods, 10);
    let plan = t.launch_plan(Platform::Linux);
    assert_eq!(plan.executable_path, "/game/arma3");
    assert_eq!(plan.enabled_ids, strings(&["123", "GM", "mine"]));
    // Creator DLC content is already inside the game directory: no symlink.
    assert_eq!(plan.sources, strings(&["/workshop/123", "/custom/mine"]));
    assert_eq!(plan.mod_arg, Some("-mod=123;GM;mine".to_string()));
    // The fresh configuration carries the default launch arguments.
    assert!(plan.use_default_args);
}

#[test]
fn launch_plan_with_nothing_enabled_only_sweeps() {
    let t = session(five_mods(), 10);
    let plan = {
        let mut t = t;
        t.handle_key(Key::ToggleSelected); // enable nothing: toggle row 0 on then off
        t.handle_key(Key::ToggleSelected);
        t.mod_manager.loaded_mods.items[1].enabled = false; // disable the one enabled mod
        t.launch_plan(Platform::Linux)
    };
    assert!(plan.enabled_ids.is_empty());
    assert!(plan.sources.is_empty());
    assert_eq!(plan.mod_arg, None);
}

#[test]
fn executable_path_follows_platform_convention() {
    assert_eq!(
        Terminal::get_executable_path("/game", "arma3", Platform::MacOs),
        "/game/arma3.app/Contents/MacOS/arma3"
    );
    assert_eq!(
        Terminal::get_executable_path("/game", "arma3", Platform::Linux),
        "/game/arma3"
    );
    assert_eq!(
        Terminal::get_executable_path("/game", "arma3", Platform::Other),
        "/game/arma3"
    );
}

#[test]
fn line_editor_edits_commits_and_cancels() {
    let mut e = LineEditor::new("ab".to_string());
    assert_eq!(e.apply(EditorKey::Insert('c')), EditorOutcome::Editing);
    assert_eq!(e.buffer, "abc");
    assert_eq!(e.apply(EditorKey::Backspace), EditorOutcome::Editing);
    assert_eq!(e.buffer, "ab");
    assert_eq!(e.apply(EditorKey::Ignore), EditorOutcome::Editing);
    assert_eq!(e.buffer, "ab");
    assert_eq!(e.apply(EditorKey::Submit), EditorOutcome::Committed);
    assert_eq!(e.buffer, "ab");
    assert_eq!(e.apply(EditorKey::Cancel), EditorOutcome::Cancelled);
}

#[test]
fn line_editor_backspace_on_empty_buffer() {
    let mut e = LineEditor::new(String::new());
    assert_eq!(e.apply(EditorKey::Backspace), EditorOutcome::Editing);
    assert_eq!(e.buffer, "");
}

#[test]
fn refresh_replaces_mods_and_resets_page() {
    let config = Config::new("/game".to_string(), "/workshop".to_string(), None).unwrap();
    let mut manager = ModManager::new(config, five_mods(), 2);
    manager.loaded_mods.next_page();
    assert_eq!(manager.loaded_mods.current_page, 1);
    manager.refresh_mods(vec![sample_mod("9", "Z", false, false, false)]);
    assert_eq!(manager.loaded_mods.current_page, 0);
    assert_eq!(manager.loaded_mods.page_size, 2);
    assert_eq!(manager.loaded_mods.items.len(), 1);
}

#[test]
fn wizard_edits_fields_and_confirms() {
    let mut w = arma3_mod_manager::terminal::SetupWizard::new("/w".to_string(), "/g".to_string());
    assert_eq!(w.active_text(), "/w");
    w.toggle_field();
    assert_eq!(w.active_text(), "/g");
    w.set_active_text("/g2".to_string());
    assert_eq!(w.game_path, "/g2");
    assert_eq!(w.workshop_path, "/w");

    // Both paths must exist; the workshop path is reported first.
    assert_eq!(
        w.confirm(false, true, None).unwrap_err(),
        arma3_mod_manager::errors::AppError::InvalidPath("/w".to_string())
    );
    assert_eq!(
        w.confirm(true, false, None).unwrap_err(),
        arma3_mod_manager::errors::AppError::InvalidPath("/g2".to_string())
    );
    let c = w.confirm(true, true, Some("/custom".to_string())).unwrap();
    assert_eq!(c.workshop_path, "/w");
    assert_eq!(c.game_path, "/g2");
    assert_eq!(c.custom_mods_path, Some("/custom".to_string()));
    assert_eq!(c.active_preset, "Default");
    assert_eq!(c.presets.len(), 1);
}
