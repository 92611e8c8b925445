use vstd::prelude::*;

use crate::errors::{AppError, AppResult};
use crate::strutil::{upper_char, upper_of};

verus! {

/// The platform the manager runs on, as far as path conventions go.
#[derive(Clone, Copy, Debug, PartialEq, Eq, Structural)]
pub enum Platform {
    MacOs,
    Linux,
    Other,
}

/// The characters of `base` followed by a separator and the characters of
/// `rel`: the path of `rel` inside the directory `base`.
pub open spec fn joined_path(base: Seq<char>, rel: Seq<char>) -> Seq<char> {
    base + "/"@ + rel
}

/// Appends a relative path to a base path.
pub fn construct_path_string(base_path: &str, relative_path: &str) -> (r: AppResult<String>)
    ensures
        r is Ok,
        r matches Ok(p) ==> p@ == joined_path(base_path@, relative_path@),
{
    let mut s = base_path.to_owned();
    s.append("/");
    s.append(relative_path);
    Ok(s)
}

/// Where a Steam installation keeps the game's workshop content, relative to
/// the platform's data directory.
pub open spec fn workshop_rel() -> Seq<char> {
    "Steam/steamapps/workshop/content/107410"@
}

/// Where a Steam installation keeps the game itself, relative to the
/// platform's data directory.
pub open spec fn game_rel() -> Seq<char> {
    "Steam/steamapps/common/Arma 3"@
}

/// The platform's per-user data directory, relative to the home directory.
pub open spec fn data_dir_rel(p: Platform) -> Seq<char>
    recommends
        p != Platform::Other,
{
    if p == Platform::MacOs {
        "Library/Application Support"@
    } else {
        ".local/share"@
    }
}

/// The default workshop and game paths under the given home directory, or
/// `UnsupportedPlatform` where the platform has no known convention.
pub fn setup_steam_paths(home_path: &str, platform: Platform) -> (r: AppResult<(String, String)>)
    ensures
        r is Ok <==> platform != Platform::Other,
        platform == Platform::Other ==> r == Err::<(String, String), AppError>(
            AppError::UnsupportedPlatform,
        ),
        r matches Ok(paths) ==> {
            &&& paths.0@ == joined_path(joined_path(home_path@, data_dir_rel(platform)), workshop_rel())
            &&& paths.1@ == joined_path(joined_path(home_path@, data_dir_rel(platform)), game_rel())
        },
{
    let base_path = match platform {
        Platform::MacOs => {
            match construct_path_string(home_path, "Library/Application Support") {
                Ok(p) => p,
                Err(e) => { return Err(e) },
            }
        },
        Platform::Linux => {
            match construct_path_string(home_path, ".local/share") {
                Ok(p) => p,
                Err(e) => { return Err(e) },
            }
        },
        Platform::Other => { return Err(AppError::UnsupportedPlatform) },
    };
    let workshop_path = match construct_path_string(base_path.as_str(),
        "Steam/steamapps/workshop/content/107410") {
        Ok(p) => p,
        Err(e) => { return Err(e) },
    };
    let game_path = match construct_path_string(base_path.as_str(),
        "Steam/steamapps/common/Arma 3") {
        Ok(p) => p,
        Err(e) => { return Err(e) },
    };
    Ok((workshop_path, game_path))
}

/// The locations where the Steam overlay library may sit, most specific
/// first.  The caller probes them in order and uses the first that exists.
pub fn get_steam_overlay_path(home_path: &str) -> (r: Vec<String>)
    ensures
        r.deep_view() =~= seq![
            joined_path(
                home_path@,
                "Library/Application Support/Steam/Steam.AppBundle/Steam/Contents/MacOS/gameoverlayrenderer.dylib"@,
            ),
            joined_path(
                home_path@,
                "Library/Application Support/Steam/Contents/MacOS/gameoverlayrenderer.dylib"@,
            ),
            "/Applications/Steam.app/Contents/MacOS/gameoverlayrenderer.dylib"@,
        ],
{
    let mut r: Vec<String> = Vec::new();
    let first = match construct_path_string(home_path,
        "Library/Application Support/Steam/Steam.AppBundle/Steam/Contents/MacOS/gameoverlayrenderer.dylib") {
        Ok(p) => p,
        Err(_) => String::new(),
    };
    let second = match construct_path_string(home_path,
        "Library/Application Support/Steam/Contents/MacOS/gameoverlayrenderer.dylib") {
        Ok(p) => p,
        Err(_) => String::new(),
    };
    r.push(first);
    r.push(second);
    r.push("/Applications/Steam.app/Contents/MacOS/gameoverlayrenderer.dylib".to_owned());
    proof {
        assert(r.deep_view()[0] == r@[0]@);
        assert(r.deep_view()[1] == r@[1]@);
        assert(r.deep_view()[2] == r@[2]@);
    }
    r
}

/// The string with its first character replaced by that character's
/// uppercase mapping; the empty string stays empty.
pub open spec fn titleized(s: Seq<char>) -> Seq<char> {
    if s.len() == 0 {
        Seq::empty()
    } else {
        upper_of(s[0]) + s.skip(1)
    }
}

/// Uppercases the first character of a string.
pub fn titleize(s: &str) -> (r: String)
    ensures
        r@ == titleized(s@),
{
    let len = s.unicode_len();
    if len == 0 {
        String::new()
    } else {
        let mut head = upper_char(s.get_char(0));
        let tail = s.substring_char(1, len);
        head.append(tail);
        proof {
            assert(s@.subrange(1, s@.len() as int) =~= s@.skip(1));
        }
        head
    }
}

} // verus!
