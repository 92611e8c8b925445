use arma3_mod_manager::config::default_executable_name;
use arma3_mod_manager::errors::AppError;
use arma3_mod_manager::utils::{
    construct_path_string, get_steam_overlay_path, setup_steam_paths, Platform,
};

#[test]
fn construct_path_string_joins_with_separator() {
    assert_eq!(construct_path_string("/base", "rel/path").unwrap(), "/base/rel/path");
}

#[test]
fn steam_paths_follow_linux_convention() {
    let (workshop, game) = setup_steam_paths("/home/u", Platform::Linux).unwrap();
    assert_eq!(
        workshop,
        "/home/u/.local/share/Steam/steamapps/workshop/content/107410"
    );
    assert_eq!(game, "/home/u/.local/share/Steam/steamapps/common/Arma 3");
}

#[test]
fn steam_paths_follow_macos_convention() {
    let (workshop, game) = setup_steam_paths("/Users/u", Platform::MacOs).unwrap();
    assert_eq!(
        workshop,
        "/Users/u/Library/Application Support/Steam/steamapps/workshop/content/107410"
    );
    assert_eq!(
        game,
        "/Users/u/Library/Application Support/Steam/steamapps/common/Arma 3"
    );
}

#[test]
fn steam_paths_reject_unknown_platforms() {
    assert_eq!(
        setup_steam_paths("/home/u", Platform::Other).unwrap_err(),
        AppError::UnsupportedPlatform
    );
}

#[test]
fn overlay_candidates_in_order() {
    let candidates = get_steam_overlay_path("/Users/u");
    assert_eq!(candidates.len(), 3);
    assert_eq!(
        candidates[0],
        "/Users/u/Library/Application Support/Steam/Steam.AppBundle/Steam/Contents/MacOS/gameoverlayrenderer.dylib"
    );
    assert_eq!(
        candidates[1],
        "/Users/u/Library/Application Support/Steam/Contents/MacOS/gameoverlayrenderer.dylib"
    );
    assert_eq!(
        candidates[2],
        "/Applications/Steam.app/Contents/MacOS/gameoverlayrenderer.dylib"
    );
}

#[test]
fn default_executable_name_is_stable() {
    assert_eq!(default_executable_name(), "arma3");
}

#[test]
fn error_messages_name_the_failure() {
    assert_eq!(AppError::InvalidHomePath.message(), "Invalid home path");
    assert_eq!(AppError::UnsupportedPlatform.message(), "Unsupported platform");
    assert_eq!(AppError::RegexError.message(), "Regex error");
    assert!(!AppError::IoError("gone".to_string()).message().is_empty());
    assert!(!AppError::SerdeJsonError("bad".to_string()).message().is_empty());
    assert!(!AppError::NetworkError("down".to_string()).message().is_empty());
    assert!(!AppError::PathConversionError("p".to_string()).message().is_empty());
    assert!(!AppError::InvalidPath("p".to_string()).message().is_empty());
}
