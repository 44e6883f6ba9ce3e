use vstd::prelude::*;

verus! {

/// A parsed command line.
pub struct Cli {
    pub command: Commands,
}

/// The commands of the manager.
pub enum Commands {
    /// Start a Minecraft server.
    Start {
        /// The directory that holds the `server` folder (`.` by default).
        dir: String,
        /// The Minecraft version to run; without it a cached jar is used.
        version: Option<String>,
        /// The RAM to allocate, e.g. `4G` (`2G` by default).
        ram: String,
        /// `paper`, `vanilla` or `fabric` (`paper` by default).
        provider: String,
        /// Require premium accounts (offline mode by default).
        online: bool,
    },
    /// List the versions a provider offers.
    ListVersions {
        /// `paper`, `vanilla` or `fabric` (`paper` by default).
        provider: String,
    },
    /// Update the manager to its latest release.
    Update,
    /// Remove the manager from the system.
    Uninstall,
}

} // verus!
