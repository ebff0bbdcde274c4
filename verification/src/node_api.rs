//! What a request to set up a Minecraft server says.
use vstd::prelude::*;

verus! {

/// A request to set up a Minecraft server.
#[derive(Debug, Clone, Copy, PartialEq, Eq, Structural)]
pub struct MinecraftSpec {
    /// Whether the user accepted the license of the game. Nobody else may.
    pub eula_accepted: bool,
}

impl Default for MinecraftSpec {
    fn default() -> (r: Self)
        ensures
            !r.eula_accepted,
    {
        MinecraftSpec { eula_accepted: false }
    }
}

} // verus!
