//! The settings one run works with.

use vstd::prelude::*;

verus! {

/// Where assets are stored, and whether stored files are checked against the
/// ledger before they are kept.
#[derive(Clone, Debug)]
pub struct Config {
    pub save_location: String,
    pub integrity: bool,
}

impl Config {
    /// The defaults for a user whose home directory is `home`: assets under
    /// `home/Pictures/wall`, integrity on.
    pub fn with_home(home: &str) -> (r: Config)
        ensures
            r.save_location@ == home@ + "/Pictures/wall"@,
            r.integrity,
    {
        let mut save_location = home.to_owned();
        save_location.append("/Pictures/wall");
        Config { save_location, integrity: true }
    }
}

} // verus!
