use crate::app_state::AppState;
use crate::cli::{answered, dispatched, CliCommands, ProtocolError};
use crate::commands::create::CreateCommand;
use crate::commands::delete::DeleteCommand;
use crate::commands::hiding::HideCommand;
use crate::commands::inspect::InspectCommand;
use crate::commands::kill::KillCommand;
use crate::commands::list::ListCommand;
use crate::commands::reload::ReloadCommand;
use crate::commands::show::ShowCommand;
use crate::commands::update::UpdateCommand;
use crate::commands::Command;
use vstd::prelude::*;

verus! {

/// Turns each command of the protocol into the object that carries it out, and runs it.
pub struct CommandHandler {}

impl CommandHandler {
    pub fn new() -> (handler: Self)
        ensures
            handler == (CommandHandler {  }),
    {
        Self {  }
    }

    /// Applies `command` to the daemon's state and hands back the answer for the client.
    pub fn handle(&mut self, command: CliCommands, config: &mut AppState) -> (response: String)
        requires
            old(config).wf(),
        ensures
            final(config).wf(),
            dispatched(old(config)@, command, response@, final(config)@),
    {
        if !config.is_running() {
            return "terminating".to_owned();
        }
        match command {
            CliCommands::List { query } => {
                let mut command = ListCommand::new(config, query);
                command.execute()
            },
            CliCommands::Kill => {
                let mut command = KillCommand::new(config);
                command.execute()
            },
            CliCommands::Create { group, tags, metadata, show } => {
                let mut command = CreateCommand::new(config, group, tags, metadata, show);
                command.execute()
            },
            CliCommands::Update { query, metadata } => {
                let mut command = UpdateCommand::new(config, query, metadata);
                command.execute()
            },
            CliCommands::Show { query } => {
                let mut command = ShowCommand::new(config, query);
                command.execute()
            },
            CliCommands::Hide { query } => {
                let mut command = HideCommand::new(config, query);
                command.execute()
            },
            CliCommands::Delete { query } => {
                let mut command = DeleteCommand::new(config, query);
                command.execute()
            },
            CliCommands::Reload { query } => {
                let mut command = ReloadCommand::new(config, query);
                command.execute()
            },
            CliCommands::Inspect { query } => {
                let mut command = InspectCommand::new(config, query);
                command.execute()
            },
            CliCommands::Version => config.version(),
            CliCommands::Init => "not implemented".to_owned(),
        }
    }

    /// Answers one request of a client: applies the command, or, where the payload was no
    /// command, describes the failure and leaves the state as it is.
    pub fn handle_request(
        &mut self,
        request: Result<CliCommands, ProtocolError>,
        config: &mut AppState,
    ) -> (response: String)
        requires
            old(config).wf(),
        ensures
            final(config).wf(),
            answered(old(config)@, request, response@, final(config)@),
    {
        match request {
            Ok(command) => self.handle(command, config),
            Err(e) => e.message(),
        }
    }
}

} // verus!
