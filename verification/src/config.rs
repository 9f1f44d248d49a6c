use vstd::prelude::*;

use crate::errors::PlayerError;

verus! {

/// The persisted settings: where the music library lives. Reading and
/// writing the file is the caller's work; the rules for changing the path
/// live here.
#[derive(Debug)]
pub struct AppConfig {
    pub library_path: String,
}

impl Default for AppConfig {
    fn default() -> (r: Self)
        ensures
            r.library_path@ == "/System/Library/Sounds"@,
    {
        AppConfig { library_path: "/System/Library/Sounds".to_owned() }
    }
}

impl AppConfig {
    /// Takes a new library path, but only one the caller has found to exist
    /// and to be a directory; anything else is refused unchanged.
    pub fn update_library_path(&mut self, path: String, path_exists: bool, path_is_dir: bool)
        -> (r: Result<(), PlayerError>)
        ensures
            (path_exists && path_is_dir) ==> final(self).library_path == path && r is Ok,
            !path_exists ==> final(self).library_path == old(self).library_path && r == Err::<
                (),
                PlayerError,
            >(PlayerError::LibraryPathMissing),
            (path_exists && !path_is_dir) ==> final(self).library_path == old(
                self,
            ).library_path && r == Err::<(), PlayerError>(PlayerError::LibraryPathNotDirectory),
    {
        if !path_exists {
            return Err(PlayerError::LibraryPathMissing);
        }
        if !path_is_dir {
            return Err(PlayerError::LibraryPathNotDirectory);
        }
        self.library_path = path;
        Ok(())
    }
}

} // verus!
