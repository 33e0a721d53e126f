use wayland_webkit_widget::app_state::{AppState, Monitor};
use wayland_webkit_widget::cli::{
    Cli, CliCommand, CliCommands, CreateUrlGroup, ProtocolError, QueryArgs, WidgetMetadataArgs,
};
use wayland_webkit_widget::commands::handler::CommandHandler;
use wayland_webkit_widget::framing::{decode, encode};
use wayland_webkit_widget::surface::{SurfaceAction, SurfaceEffect};
use wayland_webkit_widget::widget::{Layer, MetadataPatch};

fn state() -> AppState {
    AppState::new(
        "0.9.0".to_string(),
        vec![
            Monitor { name: "DP-1".to_string(), model: "A".to_string() },
            Monitor { name: "DP-2".to_string(), model: "B".to_string() },
        ],
    )
}

fn all() -> QueryArgs {
    QueryArgs { id: None, url: None, tags: None }
}

fn by_id(id: &str) -> QueryArgs {
    QueryArgs { id: Some(id.to_string()), ..all() }
}

fn args(monitor: Option<i32>, layer: Option<&str>) -> WidgetMetadataArgs {
    WidgetMetadataArgs {
        monitor,
        layer: layer.map(|l| l.to_string()),
        anchors: None,
        margins: None,
        size: None,
        click_through: None,
        exclusive: None,
        keyboard_mode: None,
    }
}

fn create(directory: Option<&str>, url: Option<&str>, show: bool) -> CliCommands {
    CliCommands::Create {
        group: CreateUrlGroup {
            directory: directory.map(|d| d.to_string()),
            url: url.map(|u| u.to_string()),
        },
        tags: vec!["t".to_string()],
        metadata: args(Some(0), Some("top")),
        show,
    }
}

fn top_patch() -> MetadataPatch {
    MetadataPatch {
        monitor: Some(0),
        layer: Some(Layer::Top),
        anchors: None,
        margin_top: None,
        margin_right: None,
        margin_bottom: None,
        margin_left: None,
        width: None,
        height: None,
        click_through: None,
        exclusive: None,
        keyboard_mode: None,
    }
}

fn lines(text: &str) -> Vec<&str> {
    if text.is_empty() {
        Vec::new()
    } else {
        text.split('\n').collect()
    }
}

#[test]
fn create_list_delete_list() {
    let mut state = state();
    let id = create(Some("foo"), None, false).mutate(&mut state);
    assert!(!id.is_empty());
    assert_eq!(state.widgets().len(), 1);
    assert_eq!(state.widgets()[0].url, "http://localhost:8082/foo/index.html");
    assert_eq!(state.widgets()[0].metadata.monitor, Some(0));
    assert_eq!(state.widgets()[0].metadata.layer, Some(Layer::Top));
    let listed = CliCommands::List { query: all() }.mutate(&mut state);
    assert!(lines(&listed).contains(&id.as_str()));
    let deleted = CliCommands::Delete { query: by_id(&id) }.mutate(&mut state);
    assert_eq!(deleted, id);
    let listed = CliCommands::List { query: all() }.mutate(&mut state);
    assert!(!lines(&listed).contains(&id.as_str()));
    assert!(state.widgets().is_empty());
}

#[test]
fn two_creates_give_two_ids() {
    let mut state = state();
    let first = create(Some("foo"), None, false).mutate(&mut state);
    let second = create(Some("foo"), None, false).mutate(&mut state);
    assert_ne!(first, second);
    assert_eq!(CliCommands::List { query: all() }.mutate(&mut state), format!("{}\n{}", first, second));
}

#[test]
fn update_of_a_missing_widget_is_empty_and_changes_nothing() {
    let mut state = state();
    create(Some("foo"), None, false).mutate(&mut state);
    state.take_actions();
    let before = state.widgets().clone();
    let response = CliCommands::Update {
        query: by_id("nonexistent"),
        metadata: args(Some(1), None),
    }
    .mutate(&mut state);
    assert_eq!(response, "");
    assert_eq!(state.widgets(), &before);
    assert!(state.actions().is_empty());
    assert!(state.is_running());
}

#[test]
fn a_malformed_payload_is_answered_and_the_daemon_goes_on() {
    let mut state = state();
    let mut handler = CommandHandler::new();
    let id = handler.handle(create(None, Some("https://example.org/"), false), &mut state);
    state.take_actions();
    let before = state.widgets().clone();

    let payload = decode(&encode("{\"Create\": ")).unwrap();
    let failure = serde_json::from_str::<serde_json::Value>(&payload).unwrap_err();
    let request = Err(ProtocolError { detail: failure.to_string() });
    let response = handler.handle_request(request, &mut state);
    assert!(response.starts_with("protocol error: "));
    assert_eq!(response, format!("protocol error: {}", failure));
    assert_eq!(state.widgets(), &before);
    assert!(state.actions().is_empty());
    assert!(state.is_running());
    assert_eq!(decode(&encode(&response)), Ok(response));

    let listed = handler.handle_request(Ok(CliCommands::List { query: all() }), &mut state);
    assert_eq!(listed, id);
}

#[test]
fn create_queues_the_surface_actions() {
    let mut state = state();
    let id = create(None, Some("https://example.org/"), false).mutate(&mut state);
    assert_eq!(state.widgets()[0].url, "https://example.org/");
    assert_eq!(state.widgets()[0].tags, vec!["t".to_string()]);
    assert_eq!(
        state.take_actions(),
        vec![
            SurfaceAction { id: id.clone(), effect: SurfaceEffect::Create },
            SurfaceAction { id: id.clone(), effect: SurfaceEffect::Configure(top_patch()) },
            SurfaceAction { id: id.clone(), effect: SurfaceEffect::Inject },
        ]
    );
}

#[test]
fn create_with_show_shows_the_new_widget() {
    let mut state = state();
    let id = create(Some("foo"), None, true).mutate(&mut state);
    let actions = state.take_actions();
    assert_eq!(actions.len(), 4);
    assert_eq!(actions[3], SurfaceAction { id, effect: SurfaceEffect::Show });
}

#[test]
fn create_without_a_source_is_refused() {
    let mut state = state();
    assert_eq!(
        create(None, None, false).mutate(&mut state),
        "invalid source: a directory or a url is required"
    );
    assert!(state.widgets().is_empty());
    assert!(state.actions().is_empty());
}

#[test]
fn create_with_two_sources_is_refused() {
    let mut state = state();
    assert_eq!(
        create(Some("foo"), Some("https://example.org/"), true).mutate(&mut state),
        "invalid source: directory and url exclude each other"
    );
    assert!(state.widgets().is_empty());
    assert!(state.actions().is_empty());
}

#[test]
fn create_without_monitor_or_layer_is_refused() {
    let mut state = state();
    for metadata in [args(None, Some("top")), args(Some(0), None), args(None, None)] {
        let command = CliCommands::Create {
            group: CreateUrlGroup { directory: Some("foo".to_string()), url: None },
            tags: vec![],
            metadata,
            show: false,
        };
        assert_eq!(command.mutate(&mut state), "monitor and layer are required");
    }
    assert!(state.widgets().is_empty());
    assert!(state.actions().is_empty());
}

#[test]
fn kill_is_acknowledged_and_ends_dispatching() {
    let mut state = state();
    let id = create(Some("foo"), None, false).mutate(&mut state);
    state.take_actions();
    assert_eq!(CliCommands::Kill.mutate(&mut state), "killed");
    assert!(!state.is_running());
    assert_eq!(CliCommands::List { query: all() }.mutate(&mut state), "terminating");
    assert_eq!(CliCommands::Delete { query: all() }.mutate(&mut state), "terminating");
    assert_eq!(create(Some("bar"), None, true).mutate(&mut state), "terminating");
    assert_eq!(CliCommands::Kill.mutate(&mut state), "terminating");
    assert_eq!(CliCommands::Version.mutate(&mut state), "terminating");
    assert_eq!(state.widgets().len(), 1);
    assert_eq!(state.widgets()[0].id, id);
    assert!(state.actions().is_empty());
}

#[test]
fn version_and_init() {
    let mut state = state();
    assert_eq!(CliCommands::Version.mutate(&mut state), "0.9.0\nmonitor DP-1: A\nmonitor DP-2: B");
    assert_eq!(CliCommands::Init.mutate(&mut state), "not implemented");
    assert!(state.is_running());
    assert!(state.actions().is_empty());
}

#[test]
fn commands_on_matches_answer_with_their_ids() {
    let mut state = state();
    let first = create(Some("clock"), None, false).mutate(&mut state);
    let second = create(Some("weather"), None, false).mutate(&mut state);
    state.take_actions();
    let weather = QueryArgs { url: Some("weather".to_string()), ..all() };
    assert_eq!(CliCommands::Show { query: weather.clone() }.mutate(&mut state), second);
    assert_eq!(CliCommands::Hide { query: weather.clone() }.mutate(&mut state), second);
    assert_eq!(CliCommands::Reload { query: weather.clone() }.mutate(&mut state), second);
    assert_eq!(CliCommands::Inspect { query: weather.clone() }.mutate(&mut state), second);
    assert_eq!(
        CliCommands::Update { query: weather, metadata: args(Some(1), None) }.mutate(&mut state),
        second
    );
    let effects: Vec<SurfaceEffect> = state.take_actions().iter().map(|a| a.effect).collect();
    assert_eq!(
        effects,
        vec![
            SurfaceEffect::Show,
            SurfaceEffect::Hide,
            SurfaceEffect::Reload,
            SurfaceEffect::Inspect,
            SurfaceEffect::Configure(MetadataPatch { monitor: Some(1), layer: None, ..top_patch() }),
            SurfaceEffect::Inject,
        ]
    );
    assert_eq!(state.widgets()[0].id, first);
    assert_eq!(state.widgets()[0].metadata.monitor, Some(0));
    assert_eq!(state.widgets()[1].metadata.monitor, Some(1));
}

#[test]
fn handler_and_mutate_agree() {
    let commands = || {
        vec![
            CliCommands::List { query: all() },
            CliCommands::Show { query: all() },
            CliCommands::Update { query: all(), metadata: args(Some(5), Some("overlay")) },
            CliCommands::Hide { query: by_id("zzz") },
            CliCommands::Reload { query: all() },
            CliCommands::Inspect { query: all() },
            CliCommands::Version,
            CliCommands::Init,
            create(None, None, false),
            CliCommands::Delete { query: all() },
            CliCommands::List { query: all() },
            CliCommands::Kill,
            CliCommands::List { query: all() },
        ]
    };
    let mut by_mutate = state();
    let mut by_handler = state();
    by_mutate.add_widget_with_id("w".to_string(), "u".to_string(), vec![], &args(None, None));
    by_handler.add_widget_with_id("w".to_string(), "u".to_string(), vec![], &args(None, None));
    let mut handler = CommandHandler::new();
    for (a, b) in commands().into_iter().zip(commands()) {
        assert_eq!(a.mutate(&mut by_mutate), handler.handle(b, &mut by_handler));
        assert_eq!(by_mutate.widgets(), by_handler.widgets());
        assert_eq!(by_mutate.actions(), by_handler.actions());
        assert_eq!(by_mutate.is_running(), by_handler.is_running());
    }
}

#[test]
fn handler_creates_through_the_create_command() {
    let mut state = state();
    let mut handler = CommandHandler::new();
    let id = handler.handle(create(Some("foo/"), None, true), &mut state);
    assert!(id.chars().count() >= 36);
    assert_eq!(state.widgets()[0].id, id);
    assert_eq!(state.widgets()[0].url, "http://localhost:8082/foo/index.html");
    assert_eq!(state.actions().len(), 4);
}

#[test]
fn cli_holds_a_command() {
    let cli = Cli { command: CliCommands::Version, json: false };
    assert!(matches!(cli.command, CliCommands::Version));
    assert!(!cli.json);
}
