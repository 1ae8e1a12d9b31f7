use vstd::prelude::*;

verus! {

/// The command line: one subcommand.
pub struct Cli {
    pub command: Commands,
}

/// The subcommands of `sauron`.
pub enum Commands {
    /// Start the Sauron daemon
    Start,
    /// Stop the running daemon
    Stop,
    /// Show daemon status
    Status,
    /// Install launchd service for auto-start
    Install,
    /// Uninstall launchd service
    Uninstall,
    /// Manually trigger daily summary
    Summary {
        /// Date to summarize (YYYY-MM-DD), defaults to today
        date: Option<String>,
    },
    /// Print current configuration
    Config,
}

} // verus!
