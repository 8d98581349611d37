use vstd::prelude::*;
use vstd::string::StringExecFns;

use crate::errors::AppError;
use crate::text::{join, join_path};

verus! {

/// Where Steam keeps its data under the home directory on macOS.
pub const MACOS_DATA: &'static str = "Library/Application Support";

/// Where Steam keeps its data under the home directory on Linux.
pub const LINUX_DATA: &'static str = ".local/share";

/// The game's workshop content, under Steam's data directory.
pub const WORKSHOP_DIR: &'static str = "Steam/steamapps/workshop/content/107410";

/// The game's installation, under Steam's data directory.
pub const GAME_DIR: &'static str = "Steam/steamapps/common/Arma 3";

/// Steam's data directory for an operating system, if it is supported.
pub open spec fn steam_base(home: Seq<char>, os: Seq<char>) -> Option<Seq<char>> {
    if os == "macos"@ {
        Some(join_path(home, MACOS_DATA@))
    } else if os == "linux"@ {
        Some(join_path(home, LINUX_DATA@))
    } else {
        None
    }
}

/// The default workshop and game directories, in that order, for a home
/// directory and an operating system name as `std::env::consts::OS` gives
/// it.
pub fn setup_steam_paths(home: &str, os: &str) -> (r: Result<(String, String), AppError>)
    ensures
        match steam_base(home@, os@) {
            Some(base) => r matches Ok(p) && p.0@ == join_path(base, WORKSHOP_DIR@) && p.1@
                == join_path(base, GAME_DIR@),
            None => r == Err::<(String, String), AppError>(AppError::UnsupportedPlatform),
        },
{
    let name = String::from_str(os);
    let base = if name == String::from_str("macos") {
        join(home, MACOS_DATA)
    } else if name == String::from_str("linux") {
        join(home, LINUX_DATA)
    } else {
        return Err(AppError::UnsupportedPlatform);
    };
    let workshop_path = join(base.as_str(), WORKSHOP_DIR);
    let game_path = join(base.as_str(), GAME_DIR);
    Ok((workshop_path, game_path))
}

} // verus!
