//! Data kept across seasons: the list of saved games and the template for
//! battle log file names.

use vstd::prelude::*;

verus! {

/// Data kept across seasons.
#[derive(Clone, Debug)]
pub struct GwGlobalData {
    /// Paths of the saved games.
    pub saves: Vec<String>,
    /// Template for battle log file names: `%S` stands for the season's name
    /// and `%R` for the round's number.
    pub default_batlog_name: String,
}

impl Default for GwGlobalData {
    fn default() -> (r: GwGlobalData)
        ensures
            r.saves@.len() == 0,
            r.default_batlog_name@ == "%S_batlog_%R.txt"@,
    {
        GwGlobalData { default_batlog_name: String::from_str("%S_batlog_%R.txt"), saves: Vec::new() }
    }
}

impl GwGlobalData {
    /// Adds `filename` to the saved games if it was loaded as a game, which
    /// `loaded` tells; otherwise hands back the reason it could not be.
    pub fn add_save(&mut self, filename: &str, loaded: Result<(), String>) -> (r: Result<(), String>)
        ensures
            r == loaded,
            loaded is Ok ==> final(self).saves@.len() == old(self).saves@.len() + 1
                && final(self).saves@.drop_last() == old(self).saves@
                && final(self).saves@.last()@ == filename@,
            loaded is Err ==> *final(self) == *old(self),
            final(self).default_batlog_name == old(self).default_batlog_name,
    {
        if loaded.is_ok() {
            self.saves.push(String::from_str(filename));
            assert(self.saves@.drop_last() =~= old(self).saves@);
        }
        loaded
    }
}

} // verus!
