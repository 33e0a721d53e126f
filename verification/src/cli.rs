use crate::app_state::{
    after_create, after_delete, after_effect, after_kill, after_update, listing, version_text,
    AppState, AppStateView,
};
use crate::surface::{action, SurfaceEffect};
use crate::text::{copy_texts, same_text, texts};
use crate::utils::{create_request, ids_of, validate_create};
use crate::widget::resolved;
use vstd::prelude::*;

verus! {

/// The layer names that `parse_layer` accepts.
pub open spec fn is_layer_name(s: Seq<char>) -> bool {
    s == "background"@ || s == "bottom"@ || s == "top"@ || s == "overlay"@
}

/// The keyboard mode names that `parse_keyboard_mode` accepts.
pub open spec fn is_keyboard_mode_name(s: Seq<char>) -> bool {
    s == "none"@ || s == "exclusive"@ || s == "on-demand"@
}

/// Checks a layer name given on the command line: one of the four layer names is handed back
/// as it is, anything else is refused with a message that lists them.
pub fn parse_layer(s: &str) -> (layer: Result<String, String>)
    ensures
        is_layer_name(s@) ==> layer is Ok && layer->Ok_0@ == s@,
        !is_layer_name(s@) ==> layer is Err && layer->Err_0@
            == "Invalid layer, possible values: [background, bottom, top, overlay]"@,
{
    if same_text(s, "background") || same_text(s, "bottom") || same_text(s, "top") || same_text(
        s,
        "overlay",
    ) {
        Ok(s.to_owned())
    } else {
        Err("Invalid layer, possible values: [background, bottom, top, overlay]".to_owned())
    }
}

/// Checks a keyboard mode name given on the command line: one of the three mode names is handed
/// back as it is, anything else is refused with a message that lists them.
pub fn parse_keyboard_mode(s: &str) -> (mode: Result<String, String>)
    ensures
        is_keyboard_mode_name(s@) ==> mode is Ok && mode->Ok_0@ == s@,
        !is_keyboard_mode_name(s@) ==> mode is Err && mode->Err_0@
            == "Invalid keyboard mode, possible values: [none, exclusive, on-demand]"@,
{
    if same_text(s, "none") || same_text(s, "exclusive") || same_text(s, "on-demand") {
        Ok(s.to_owned())
    } else {
        Err("Invalid keyboard mode, possible values: [none, exclusive, on-demand]".to_owned())
    }
}

/// One invocation of the client: the command to run and how to print the answer.
#[derive(Debug, Clone)]
pub struct Cli {
    pub command: CliCommands,
    pub json: bool,
}

/// A filter over the registered widgets. A field that is absent puts no condition.
#[derive(Debug, Clone)]
pub struct QueryArgs {
    /// Part of the widget's id.
    pub id: Option<String>,
    /// Part of the widget's resolved source.
    pub url: Option<String>,
    /// Tags of which the widget carries at least one.
    pub tags: Option<Vec<String>>,
}

/// Margins to set; an absent edge keeps its stored margin.
#[derive(Debug, Clone, Copy, PartialEq, Eq)]
pub struct WidgetMargins {
    pub top: Option<i32>,
    pub right: Option<i32>,
    pub bottom: Option<i32>,
    pub left: Option<i32>,
}

/// Size to set; an absent dimension keeps its stored value.
#[derive(Debug, Clone, Copy, PartialEq, Eq)]
pub struct WidgetDefaultSize {
    pub width: Option<i32>,
    pub height: Option<i32>,
}

/// A request to change presentation attributes. Every field is optional; an absent field leaves
/// the stored attribute as it is.
#[derive(Debug, Clone, PartialEq, Eq)]
pub struct WidgetMetadataArgs {
    pub monitor: Option<i32>,
    pub layer: Option<String>,
    pub anchors: Option<Vec<String>>,
    pub margins: Option<WidgetMargins>,
    pub size: Option<WidgetDefaultSize>,
    pub click_through: Option<bool>,
    pub exclusive: Option<bool>,
    pub keyboard_mode: Option<String>,
}

/// Where a new widget's page comes from: a local directory or a remote URL, exactly one of them.
#[derive(Debug, Clone)]
pub struct CreateUrlGroup {
    pub directory: Option<String>,
    pub url: Option<String>,
}

/// The commands of the protocol.
#[derive(Debug, Clone)]
pub enum CliCommands {
    /// Starts the daemon; never sent to a running one.
    Init,
    Kill,
    Create { group: CreateUrlGroup, tags: Vec<String>, metadata: WidgetMetadataArgs, show: bool },
    Delete { query: QueryArgs },
    Update { query: QueryArgs, metadata: WidgetMetadataArgs },
    Reload { query: QueryArgs },
    Show { query: QueryArgs },
    Hide { query: QueryArgs },
    List { query: QueryArgs },
    Inspect { query: QueryArgs },
    Version,
}

/// A payload that is no command of the protocol.
#[derive(Debug, Clone, PartialEq, Eq)]
pub struct ProtocolError {
    /// What the decoder found wrong.
    pub detail: String,
}

impl ProtocolError {
    /// The answer that describes the failure to the client.
    pub open spec fn text(self) -> Seq<char> {
        "protocol error: "@ + self.detail@
    }

    /// The answer that describes the failure to the client.
    pub fn message(&self) -> (text: String)
        ensures
            text@ == self.text(),
    {
        let mut text = "protocol error: ".to_owned();
        text.append(self.detail.as_str());
        text
    }
}

/// The state after the surface of the widget `id` was asked to show itself, if `show` is set.
pub open spec fn shown(state: AppStateView, id: Seq<char>, show: bool) -> AppStateView {
    if show {
        AppStateView { actions: state.actions.push(action(id, SurfaceEffect::Show)), ..state }
    } else {
        state
    }
}

/// What `Create` does. A request that names no source, or two, or lacks the monitor or the
/// layer, is answered with the reason and changes nothing. Any other is answered with the id of
/// the new widget, which is not empty and which no widget had before; the widget stands last in
/// the registry, and its surface is shown if `show` is set.
pub open spec fn create_applied(
    before: AppStateView,
    group: CreateUrlGroup,
    tags: Seq<Seq<char>>,
    metadata: WidgetMetadataArgs,
    show: bool,
    response: Seq<char>,
    after: AppStateView,
) -> bool {
    match create_request(group, metadata) {
        Err(e) => after == before && response == e.text(),
        Ok(url) => {
            &&& !ids_of(before.widgets).contains(response)
            &&& response.len() > 0
            &&& after == shown(after_create(before, response, url, tags, metadata), response, show)
        },
    }
}

/// What a command does: `response` is its answer and `after` the state that it leaves, given the
/// state `before`. A daemon that was told to stop applies no further command. Every answer but
/// the id of a new widget is fixed by the state and the command; that id is one that no widget
/// had before.
pub open spec fn dispatched(
    before: AppStateView,
    command: CliCommands,
    response: Seq<char>,
    after: AppStateView,
) -> bool {
    if !before.running {
        after == before && response == "terminating"@
    } else {
        match command {
            CliCommands::Init => after == before && response == "not implemented"@,
            CliCommands::Kill => after == after_kill(before) && response == "killed"@,
            CliCommands::Create { group, tags, metadata, show } => create_applied(
                before,
                group,
                texts(tags@),
                metadata,
                show,
                response,
                after,
            ),
            CliCommands::Delete { query } => {
                after == after_delete(before, query) && response == listing(before, query)
            },
            CliCommands::Update { query, metadata } => {
                &&& after == after_update(
                    before,
                    query,
                    resolved(metadata, before.monitors.len() as int),
                )
                &&& response == listing(before, query)
            },
            CliCommands::Reload { query } => {
                &&& after == after_effect(before, query, SurfaceEffect::Reload)
                &&& response == listing(before, query)
            },
            CliCommands::Show { query } => {
                &&& after == after_effect(before, query, SurfaceEffect::Show)
                &&& response == listing(before, query)
            },
            CliCommands::Hide { query } => {
                &&& after == after_effect(before, query, SurfaceEffect::Hide)
                &&& response == listing(before, query)
            },
            CliCommands::List { query } => after == before && response == listing(before, query),
            CliCommands::Inspect { query } => {
                &&& after == after_effect(before, query, SurfaceEffect::Inspect)
                &&& response == listing(before, query)
            },
            CliCommands::Version => after == before && response == version_text(before),
        }
    }
}

/// What a request does: a command is dispatched, and a payload that is no command is answered
/// with a description of the failure and changes nothing.
pub open spec fn answered(
    before: AppStateView,
    request: Result<CliCommands, ProtocolError>,
    response: Seq<char>,
    after: AppStateView,
) -> bool {
    match request {
        Ok(command) => dispatched(before, command, response, after),
        Err(e) => after == before && response == e.text(),
    }
}

/// A command that can be applied to the daemon's state.
pub trait CliCommand {
    /// Applies the command and hands back the answer for the client.
    fn mutate(&self, config: &mut AppState) -> (response: String)
        requires
            old(config).wf(),
        ensures
            final(config).wf(),
    ;
}

impl CliCommand for CliCommands {
    fn mutate(&self, config: &mut AppState) -> (response: String)
        ensures
            dispatched(old(config)@, *self, response@, final(config)@),
    {
        if !config.is_running() {
            return "terminating".to_owned();
        }
        match self {
            CliCommands::List { query } => config.list_widgets(query),
            CliCommands::Create { group, tags, metadata, show } => {
                match validate_create(group, metadata) {
                    Err(e) => e.message(),
                    Ok(url) => {
                        let id = config.add_widget(url, copy_texts(tags), metadata);
                        if *show {
                            config.request(id.as_str(), SurfaceEffect::Show);
                        }
                        id
                    },
                }
            },
            CliCommands::Delete { query } => config.delete_widget(query),
            CliCommands::Update { query, metadata } => config.update_widget(query, metadata),
            CliCommands::Hide { query } => config.hide_widget(query),
            CliCommands::Show { query } => config.show_widget(query),
            CliCommands::Kill => {
                config.kill_application();
                "killed".to_owned()
            },
            CliCommands::Inspect { query } => config.inspect_widget(query),
            CliCommands::Reload { query } => config.reload_widget(query),
            CliCommands::Version => config.version(),
            CliCommands::Init => "not implemented".to_owned(),
        }
    }
}

} // verus!
