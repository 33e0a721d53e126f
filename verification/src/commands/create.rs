use crate::app_state::AppState;
use crate::cli::{create_applied, CreateUrlGroup, WidgetMetadataArgs};
use crate::commands::Command;
use crate::surface::SurfaceEffect;
use crate::text::{copy_texts, texts};
use crate::utils::validate_create;
use vstd::prelude::*;

verus! {

/// The command that creates a widget.
pub struct CreateCommand<'a> {
    pub config: &'a mut AppState,
    pub group: CreateUrlGroup,
    pub tags: Vec<String>,
    pub metadata: WidgetMetadataArgs,
    pub show: bool,
}

impl<'a> CreateCommand<'a> {
    /// The command on the given state, for a widget from the source that `group` names.
    pub fn new(
        config: &'a mut AppState,
        group: CreateUrlGroup,
        tags: Vec<String>,
        metadata: WidgetMetadataArgs,
        show: bool,
    ) -> (command: Self)
        ensures
            *command.config == *old(config),
            *final(command.config) == *final(config),
            command.group == group,
            command.tags == tags,
            command.metadata == metadata,
            command.show == show,
    {
        Self { config, group, tags, metadata, show }
    }
}

impl Command for CreateCommand<'_> {
    open spec fn ready(&self) -> bool {
        self.config.wf()
    }

    fn execute(&mut self) -> (response: String)
        ensures
            final(self).config.wf(),
            create_applied(
                old(self).config.view(),
                old(self).group,
                texts(old(self).tags@),
                old(self).metadata,
                old(self).show,
                response@,
                final(self).config.view(),
            ),
            *final(final(self).config) == *final(old(self).config),
    {
        match validate_create(&self.group, &self.metadata) {
            Err(e) => e.message(),
            Ok(url) => {
                let id = self.config.add_widget(url, copy_texts(&self.tags), &self.metadata);
                if self.show {
                    self.config.request(id.as_str(), SurfaceEffect::Show);
                }
                id
            },
        }
    }
}

} // verus!
