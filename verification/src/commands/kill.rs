use crate::app_state::{after_kill, AppState};
use crate::commands::Command;
use vstd::prelude::*;

verus! {

/// The command that tells the daemon to stop.
pub struct KillCommand<'a> {
    pub config: &'a mut AppState,
}

impl<'a> KillCommand<'a> {
    /// The command on the given state.
    pub fn new(config: &'a mut AppState) -> (command: Self)
        ensures
            *command.config == *old(config),
            *final(command.config) == *final(config),
    {
        Self { config }
    }
}

impl Command for KillCommand<'_> {
    open spec fn ready(&self) -> bool {
        self.config.wf()
    }

    fn execute(&mut self) -> (response: String)
        ensures
            final(self).config.wf(),
            final(self).config.view() == after_kill(old(self).config.view()),
            response@ == "killed"@,
            *final(final(self).config) == *final(old(self).config),
    {
        self.config.kill_application();
        "killed".to_owned()
    }
}

} // verus!
