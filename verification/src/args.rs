//! The command surface of the daemon, as plain values. The surrounding
//! process parses the command line into these.

use vstd::prelude::*;

verus! {

/// Options of the serve command.
pub struct ServeArgs {
    /// Detach and run as a daemon.
    pub daemon: bool,
    /// Where the daemon writes its PID; only meaningful with `daemon`.
    pub pid_file: Option<String>,
    /// Where the log goes instead of stdout.
    pub log_file: Option<String>,
}

impl ServeArgs {
    /// A PID file is only meaningful for a daemon.
    pub open spec fn wf(&self) -> bool {
        self.pid_file is Some ==> self.daemon
    }

    /// Checks the option combination.
    pub fn validate(&self) -> (r: bool)
        ensures
            r == self.wf(),
    {
        match self.pid_file {
            Some(_) => self.daemon,
            None => true,
        }
    }
}

/// The admin subcommands on the device and its allow-list.
pub enum DeviceCommands {
    /// Print the local device identity.
    Show,
    /// Print the allow-list, one identity per line.
    List,
    /// Add an identity to the allow-list.
    Allow { id: String },
    /// Remove an identity from the allow-list.
    Disable { id: String },
}

/// The top-level commands.
pub enum Args {
    /// Start the daemon.
    Serve(ServeArgs),
    /// Manage devices.
    Device(DeviceCommands),
}

} // verus!
