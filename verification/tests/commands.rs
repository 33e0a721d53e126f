use wayland_webkit_widget::app_state::{AppState, Monitor};
use wayland_webkit_widget::cli::{CreateUrlGroup, QueryArgs, WidgetMetadataArgs};
use wayland_webkit_widget::commands::create::CreateCommand;
use wayland_webkit_widget::commands::delete::DeleteCommand;
use wayland_webkit_widget::commands::hiding::HideCommand;
use wayland_webkit_widget::commands::inspect::InspectCommand;
use wayland_webkit_widget::commands::kill::KillCommand;
use wayland_webkit_widget::commands::list::ListCommand;
use wayland_webkit_widget::commands::reload::ReloadCommand;
use wayland_webkit_widget::commands::show::ShowCommand;
use wayland_webkit_widget::commands::update::UpdateCommand;
use wayland_webkit_widget::commands::Command;
use wayland_webkit_widget::surface::{SurfaceAction, SurfaceEffect};
use wayland_webkit_widget::widget::Layer;

fn args(monitor: Option<i32>, layer: Option<&str>) -> WidgetMetadataArgs {
    WidgetMetadataArgs {
        monitor,
        layer: layer.map(|l| l.to_string()),
        anchors: None,
        margins: None,
        size: None,
        click_through: None,
        exclusive: None,
        keyboard_mode: None,
    }
}

fn state() -> AppState {
    let mut state = AppState::new(
        "1.0.0".to_string(),
        vec![Monitor { name: "DP-1".to_string(), model: "A".to_string() }],
    );
    state.add_widget_with_id("one".to_string(), "u1".to_string(), vec![], &args(None, None));
    state.add_widget_with_id("two".to_string(), "u2".to_string(), vec![], &args(None, None));
    state.take_actions();
    state
}

fn all() -> QueryArgs {
    QueryArgs { id: None, url: None, tags: None }
}

fn by_id(id: &str) -> QueryArgs {
    QueryArgs { id: Some(id.to_string()), ..all() }
}

fn effects(state: &mut AppState) -> Vec<(String, SurfaceEffect)> {
    state.take_actions().into_iter().map(|SurfaceAction { id, effect }| (id, effect)).collect()
}

#[test]
fn list_command() {
    let mut state = state();
    assert_eq!(ListCommand::new(&mut state, all()).execute(), "one\ntwo");
    assert_eq!(ListCommand::new(&mut state, by_id("tw")).execute(), "two");
    assert!(state.actions().is_empty());
}

#[test]
fn show_command() {
    let mut state = state();
    assert_eq!(ShowCommand::new(&mut state, by_id("one")).execute(), "one");
    assert_eq!(effects(&mut state), vec![("one".to_string(), SurfaceEffect::Show)]);
}

#[test]
fn hide_command() {
    let mut state = state();
    assert_eq!(HideCommand::new(&mut state, all()).execute(), "one\ntwo");
    assert_eq!(
        effects(&mut state),
        vec![("one".to_string(), SurfaceEffect::Hide), ("two".to_string(), SurfaceEffect::Hide)]
    );
}

#[test]
fn reload_command() {
    let mut state = state();
    assert_eq!(ReloadCommand::new(&mut state, by_id("two")).execute(), "two");
    assert_eq!(effects(&mut state), vec![("two".to_string(), SurfaceEffect::Reload)]);
}

#[test]
fn inspect_command() {
    let mut state = state();
    assert_eq!(InspectCommand::new(&mut state, by_id("o")).execute(), "one\ntwo");
    assert_eq!(
        effects(&mut state),
        vec![
            ("one".to_string(), SurfaceEffect::Inspect),
            ("two".to_string(), SurfaceEffect::Inspect),
        ]
    );
}

#[test]
fn update_command() {
    let mut state = state();
    let mut command = UpdateCommand::new(&mut state, by_id("two"), args(Some(3), Some("bottom")));
    assert_eq!(command.execute(), "two");
    assert_eq!(state.widgets()[0].metadata.layer, None);
    assert_eq!(state.widgets()[1].metadata.layer, Some(Layer::Bottom));
    assert_eq!(state.widgets()[1].metadata.monitor, Some(0));
    assert_eq!(state.actions().len(), 2);
}

#[test]
fn delete_command() {
    let mut state = state();
    assert_eq!(DeleteCommand::new(&mut state, by_id("one")).execute(), "one");
    assert_eq!(state.widgets().len(), 1);
    assert_eq!(state.widgets()[0].id, "two");
    assert_eq!(effects(&mut state), vec![("one".to_string(), SurfaceEffect::Close)]);
}

#[test]
fn kill_command() {
    let mut state = state();
    assert_eq!(KillCommand::new(&mut state).execute(), "killed");
    assert!(!state.is_running());
    assert_eq!(state.widgets().len(), 2);
}

#[test]
fn create_command() {
    let mut state = state();
    let group = CreateUrlGroup { directory: Some("clock".to_string()), url: None };
    let mut command =
        CreateCommand::new(&mut state, group, vec!["x".to_string()], args(Some(0), Some("top")), true);
    let id = command.execute();
    assert_eq!(state.widgets().len(), 3);
    assert_eq!(state.widgets()[2].id, id);
    assert_eq!(state.widgets()[2].url, "http://localhost:8082/clock/index.html");
    assert_eq!(state.widgets()[2].tags, vec!["x".to_string()]);
    let queued = effects(&mut state);
    assert_eq!(queued.len(), 4);
    assert_eq!(queued[0], (id.clone(), SurfaceEffect::Create));
    assert_eq!(queued[2], (id.clone(), SurfaceEffect::Inject));
    assert_eq!(queued[3], (id, SurfaceEffect::Show));
}

#[test]
fn create_command_refuses_what_is_incomplete() {
    let mut state = state();
    let group = CreateUrlGroup { directory: Some("clock".to_string()), url: None };
    let mut command = CreateCommand::new(&mut state, group, vec![], args(None, Some("top")), false);
    assert_eq!(command.execute(), "monitor and layer are required");
    let group = CreateUrlGroup { directory: None, url: None };
    let mut command = CreateCommand::new(&mut state, group, vec![], args(Some(0), Some("top")), false);
    assert_eq!(command.execute(), "invalid source: a directory or a url is required");
    assert_eq!(state.widgets().len(), 2);
    assert!(state.actions().is_empty());
}
