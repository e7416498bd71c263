use vstd::prelude::*;

verus! {

/// The parsed command line: one command per invocation.
pub struct Args {
    pub command: Command,
}

/// The commands of the tracker.
pub enum Command {
    /// Register an app under `name`, launched through `exe`.
    Add { name: String, exe: String },
    /// Forget the app `name` and its whole session history.
    Remove { name: String },
    /// Show every app with its total and recent playtime.
    List,
    /// Launch the app `name` and record how long it ran.
    Start { name: String },
    /// Show the recorded sessions of the app `name`.
    Sessions { name: String },
}

} // verus!
