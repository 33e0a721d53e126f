use crate::app_state::{after_delete, listing, AppState};
use crate::cli::QueryArgs;
use crate::commands::Command;
use vstd::prelude::*;

verus! {

/// The command that deletes every widget that matches a query.
pub struct DeleteCommand<'a> {
    pub config: &'a mut AppState,
    pub query: QueryArgs,
}

impl<'a> DeleteCommand<'a> {
    /// The command on the given state, for the widgets that match `query`.
    pub fn new(config: &'a mut AppState, query: QueryArgs) -> (command: Self)
        ensures
            *command.config == *old(config),
            *final(command.config) == *final(config),
            command.query == query,
    {
        Self { config, query }
    }
}

impl Command for DeleteCommand<'_> {
    open spec fn ready(&self) -> bool {
        self.config.wf()
    }

    fn execute(&mut self) -> (response: String)
        ensures
            final(self).config.wf(),
            final(self).config.view() == after_delete(old(self).config.view(), old(self).query),
            response@ == listing(old(self).config.view(), old(self).query),
            final(self).query == old(self).query,
            *final(final(self).config) == *final(old(self).config),
    {
        self.config.delete_widget(&self.query)
    }
}

} // verus!
