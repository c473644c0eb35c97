//! The command line of the gateway.
use vstd::prelude::*;

verus! {

/// What the gateway is asked to do.
#[derive(Clone, Copy, Debug, PartialEq, Eq, Structural)]
pub enum Command {
    /// Write a default configuration.
    Init,
    /// Serve requests.
    Serve,
    /// Check a configuration.
    Validate,
}

/// The parsed command line.
#[derive(Clone, Copy, Debug)]
pub struct Cli {
    pub command: Option<Command>,
}

impl Cli {
    /// The command to run: the one given, or serving when none is.
    pub fn selected(&self) -> (r: Command)
        ensures
            r == (match self.command {
                Some(c) => c,
                None => Command::Serve,
            }),
    {
        match self.command {
            Some(c) => c,
            None => Command::Serve,
        }
    }
}

} // verus!
