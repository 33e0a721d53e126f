use crate::app_state::{listing, AppState};
use crate::cli::QueryArgs;
use crate::commands::Command;
use vstd::prelude::*;

verus! {

/// The command that lists the ids of the widgets that match a query.
pub struct ListCommand<'a> {
    pub query: QueryArgs,
    pub config: &'a mut AppState,
}

impl<'a> ListCommand<'a> {
    /// The command on the given state, for the widgets that match `query`.
    pub fn new(config: &'a mut AppState, query: QueryArgs) -> (command: Self)
        ensures
            *command.config == *old(config),
            *final(command.config) == *final(config),
            command.query == query,
    {
        Self { query, config }
    }
}

impl Command for ListCommand<'_> {
    open spec fn ready(&self) -> bool {
        self.config.wf()
    }

    fn execute(&mut self) -> (response: String)
        ensures
            *final(self).config == *old(self).config,
            response@ == listing(old(self).config.view(), old(self).query),
            final(self).query == old(self).query,
            *final(final(self).config) == *final(old(self).config),
    {
        self.config.list_widgets(&self.query)
    }
}

} // verus!
