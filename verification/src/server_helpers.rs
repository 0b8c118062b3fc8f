use vstd::prelude::*;

verus! {

/// Server-side checks that depend on how the server is deployed.
pub trait ServerHelpers {
    /// `Ok` when `name` may be used as a player name, otherwise a message for the user.
    fn validate_player_name(&self, name: &str) -> Result<(), String>;
}

} // verus!
