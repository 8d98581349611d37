use vstd::prelude::*;
use vstd::string::StringExecFns;

use crate::errors::AppError;

verus! {

/// Launch flags that a new configuration starts with.
pub const DEFAULT_ARGS: &'static str = "-noSplash -skipIntro -world=empty";

/// Persisted settings: the two directories, the ids of the enabled mods and
/// the free-form launch arguments.
#[derive(Debug, Clone)]
pub struct Config {
    pub game_path: String,
    pub workshop_path: String,
    pub enabled_mods: Vec<u64>,
    pub default_args: String,
}

impl Config {
    /// A configuration for two directories, with no mod enabled and the
    /// default launch flags. Both directories must exist: the flags say
    /// whether they do.
    pub fn new(game_path: String, workshop_path: String, workshop_exists: bool, game_exists: bool) -> (r: Result<Self, AppError>)
        ensures
            !workshop_exists ==> r == Err::<Self, AppError>(AppError::InvalidPath(workshop_path)),
            workshop_exists && !game_exists ==> r == Err::<Self, AppError>(
                AppError::InvalidPath(game_path),
            ),
            workshop_exists && game_exists ==> r is Ok,
            r matches Ok(c) ==> {
                &&& c.game_path == game_path
                &&& c.workshop_path == workshop_path
                &&& c.enabled_mods@.len() == 0
                &&& c.default_args@ == DEFAULT_ARGS@
            },
    {
        let new_config = Config {
            game_path,
            workshop_path,
            enabled_mods: Vec::new(),
            default_args: String::from_str(DEFAULT_ARGS),
        };
        match new_config.valid(workshop_exists, game_exists) {
            Ok(()) => Ok(new_config),
            Err(e) => Err(e),
        }
    }

    /// Checks that both directories exist, the workshop directory first.
    pub fn valid(&self, workshop_exists: bool, game_exists: bool) -> (r: Result<(), AppError>)
        ensures
            !workshop_exists ==> r == Err::<(), AppError>(
                AppError::InvalidPath(self.workshop_path),
            ),
            workshop_exists && !game_exists ==> r == Err::<(), AppError>(
                AppError::InvalidPath(self.game_path),
            ),
            workshop_exists && game_exists ==> r is Ok,
    {
        if !workshop_exists {
            return Err(AppError::InvalidPath(self.workshop_path.clone()));
        }
        if !game_exists {
            return Err(AppError::InvalidPath(self.game_path.clone()));
        }
        Ok(())
    }

    pub fn get_enabled_mods(&self) -> (r: Vec<u64>)
        ensures
            r@ == self.enabled_mods@,
    {
        self.enabled_mods.clone()
    }

    pub fn update_mods(&mut self, mods: Vec<u64>)
        ensures
            final(self).enabled_mods@ == mods@,
            final(self).game_path == old(self).game_path,
            final(self).workshop_path == old(self).workshop_path,
            final(self).default_args == old(self).default_args,
    {
        self.enabled_mods = mods;
    }

    pub fn get_game_path(&self) -> (r: &str)
        ensures
            r@ == self.game_path@,
    {
        self.game_path.as_str()
    }

    pub fn get_workshop_path(&self) -> (r: &str)
        ensures
            r@ == self.workshop_path@,
    {
        self.workshop_path.as_str()
    }

    pub fn get_default_args(&self) -> (r: &str)
        ensures
            r@ == self.default_args@,
    {
        self.default_args.as_str()
    }

    pub fn set_default_args(&mut self, args: String)
        ensures
            final(self).default_args == args,
            final(self).game_path == old(self).game_path,
            final(self).workshop_path == old(self).workshop_path,
            final(self).enabled_mods@ == old(self).enabled_mods@,
    {
        self.default_args = args;
    }
}

} // verus!
