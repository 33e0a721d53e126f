use crate::app_state::{after_effect, listing, AppState};
use crate::cli::QueryArgs;
use crate::commands::Command;
use crate::surface::SurfaceEffect;
use vstd::prelude::*;

verus! {

/// The command that reloads every widget that matches a query.
pub struct ReloadCommand<'a> {
    pub config: &'a mut AppState,
    pub query: QueryArgs,
}

impl<'a> ReloadCommand<'a> {
    /// The command on the given state, for the widgets that match `query`.
    pub fn new(config: &'a mut AppState, query: QueryArgs) -> (command: Self)
        ensures
            *command.config == *old(config),
            *final(command.config) == *final(config),
            command.query == query,
    {
        Self { config, query }
    }
}

impl Command for ReloadCommand<'_> {
    open spec fn ready(&self) -> bool {
        self.config.wf()
    }

    fn execute(&mut self) -> (response: String)
        ensures
            final(self).config.wf(),
            final(self).config.view() == after_effect(
                old(self).config.view(),
                old(self).query,
                SurfaceEffect::Reload,
            ),
            response@ == listing(old(self).config.view(), old(self).query),
            final(self).query == old(self).query,
            *final(final(self).config) == *final(old(self).config),
    {
        self.config.reload_widget(&self.query)
    }
}

} // verus!
