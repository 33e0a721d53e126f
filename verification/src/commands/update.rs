use crate::app_state::{after_update, listing, AppState};
use crate::cli::{QueryArgs, WidgetMetadataArgs};
use crate::commands::Command;
use crate::widget::resolved;
use vstd::prelude::*;

verus! {

/// The command that merges a request into every widget that matches a query.
pub struct UpdateCommand<'a> {
    pub config: &'a mut AppState,
    pub query: QueryArgs,
    pub metadata: WidgetMetadataArgs,
}

impl<'a> UpdateCommand<'a> {
    /// The command on the given state, for the widgets that match `query`.
    pub fn new(config: &'a mut AppState, query: QueryArgs, metadata: WidgetMetadataArgs) -> (command:
        Self)
        ensures
            *command.config == *old(config),
            *final(command.config) == *final(config),
            command.query == query,
            command.metadata == metadata,
    {
        Self { config, query, metadata }
    }
}

impl Command for UpdateCommand<'_> {
    open spec fn ready(&self) -> bool {
        self.config.wf()
    }

    fn execute(&mut self) -> (response: String)
        ensures
            final(self).config.wf(),
            final(self).config.view() == after_update(
                old(self).config.view(),
                old(self).query,
                resolved(old(self).metadata, old(self).config.view().monitors.len() as int),
            ),
            response@ == listing(old(self).config.view(), old(self).query),
            final(self).query == old(self).query,
            final(self).metadata == old(self).metadata,
            *final(final(self).config) == *final(old(self).config),
    {
        self.config.update_widget(&self.query, &self.metadata)
    }
}

} // verus!
