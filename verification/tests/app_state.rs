use wayland_webkit_widget::app_state::{AppState, Monitor};
use wayland_webkit_widget::cli::{QueryArgs, WidgetDefaultSize, WidgetMargins, WidgetMetadataArgs};
use wayland_webkit_widget::surface::{SurfaceAction, SurfaceEffect};
use wayland_webkit_widget::widget::{
    KeyboardMode, Layer, MetadataPatch, WidgetMetadata, WidgetMetadataAnchors,
    WidgetMetadataMargins, WidgetMetadataSize,
};

fn monitors(count: usize) -> Vec<Monitor> {
    (0..count)
        .map(|i| Monitor { name: format!("DP-{}", i + 1), model: format!("Panel {}", i + 1) })
        .collect()
}

fn state(count: usize) -> AppState {
    AppState::new("1.2.3".to_string(), monitors(count))
}

fn all() -> QueryArgs {
    QueryArgs { id: None, url: None, tags: None }
}

fn by_id(id: &str) -> QueryArgs {
    QueryArgs { id: Some(id.to_string()), ..all() }
}

fn no_args() -> WidgetMetadataArgs {
    WidgetMetadataArgs {
        monitor: None,
        layer: None,
        anchors: None,
        margins: None,
        size: None,
        click_through: None,
        exclusive: None,
        keyboard_mode: None,
    }
}

fn no_patch() -> MetadataPatch {
    MetadataPatch {
        monitor: None,
        layer: None,
        anchors: None,
        margin_top: None,
        margin_right: None,
        margin_bottom: None,
        margin_left: None,
        width: None,
        height: None,
        click_through: None,
        exclusive: None,
        keyboard_mode: None,
    }
}

fn act(id: &str, effect: SurfaceEffect) -> SurfaceAction {
    SurfaceAction { id: id.to_string(), effect }
}

fn ids(state: &AppState) -> Vec<String> {
    state.widgets().iter().map(|w| w.id.clone()).collect()
}

fn three(state: &mut AppState) {
    state.add_widget_with_id("a1".to_string(), "u1".to_string(), vec!["x".to_string()], &no_args());
    state.add_widget_with_id("b2".to_string(), "u2".to_string(), vec![], &no_args());
    state.add_widget_with_id(
        "a3".to_string(),
        "u3".to_string(),
        vec!["x".to_string(), "y".to_string()],
        &no_args(),
    );
    state.take_actions();
}

#[test]
fn a_new_state_is_empty_and_running() {
    let state = state(2);
    assert!(state.widgets().is_empty());
    assert!(state.actions().is_empty());
    assert!(state.is_running());
    assert_eq!(state.monitors(), &monitors(2));
    assert_eq!(state.list_widgets(&all()), "");
}

#[test]
fn add_widget_with_id_appends_and_queues_actions() {
    let mut state = state(2);
    let args = WidgetMetadataArgs {
        monitor: Some(7),
        layer: Some("top".to_string()),
        size: Some(WidgetDefaultSize { width: Some(300), height: None }),
        ..no_args()
    };
    let id = state.add_widget_with_id(
        "w1".to_string(),
        "http://example.org/".to_string(),
        vec!["clock".to_string()],
        &args,
    );
    assert_eq!(id, "w1");
    assert_eq!(state.widgets().len(), 1);
    let widget = &state.widgets()[0];
    assert_eq!(widget.id, "w1");
    assert_eq!(widget.url, "http://example.org/");
    assert_eq!(widget.tags, vec!["clock".to_string()]);
    assert_eq!(
        widget.metadata,
        WidgetMetadata {
            monitor: Some(1),
            layer: Some(Layer::Top),
            anchors: WidgetMetadataAnchors { top: false, right: false, bottom: false, left: false },
            margins: WidgetMetadataMargins { top: 0, right: 0, bottom: 0, left: 0 },
            size: WidgetMetadataSize { width: 300, height: -1 },
            click_through: false,
            exclusive: false,
            keyboard_mode: None,
        }
    );
    let patch = MetadataPatch {
        monitor: Some(1),
        layer: Some(Layer::Top),
        width: Some(300),
        ..no_patch()
    };
    assert_eq!(
        state.actions(),
        &vec![
            act("w1", SurfaceEffect::Create),
            act("w1", SurfaceEffect::Configure(patch)),
            act("w1", SurfaceEffect::Inject),
        ]
    );
}

#[test]
fn a_taken_id_is_lengthened_until_it_is_free() {
    let mut state = state(1);
    assert_eq!(state.add_widget_with_id("id".to_string(), "u".to_string(), vec![], &no_args()), "id");
    assert_eq!(state.add_widget_with_id("id".to_string(), "u".to_string(), vec![], &no_args()), "id0");
    assert_eq!(
        state.add_widget_with_id("id".to_string(), "u".to_string(), vec![], &no_args()),
        "id00"
    );
    assert_eq!(
        state.add_widget_with_id("id0".to_string(), "u".to_string(), vec![], &no_args()),
        "id000"
    );
    assert_eq!(state.add_widget_with_id("x".to_string(), "u".to_string(), vec![], &no_args()), "x");
    assert_eq!(ids(&state), vec!["id", "id0", "id00", "id000", "x"]);
}

#[test]
fn fresh_id_leaves_the_state_alone() {
    let mut state = state(1);
    state.add_widget_with_id("abc".to_string(), "u".to_string(), vec![], &no_args());
    assert_eq!(state.fresh_id("abc".to_string()), "abc0");
    assert_eq!(state.fresh_id("ab".to_string()), "ab");
    assert_eq!(ids(&state), vec!["abc"]);
}

#[test]
fn add_widget_hands_out_ids_that_differ() {
    let mut state = state(1);
    let first = state.add_widget("u".to_string(), vec![], &no_args());
    let second = state.add_widget("u".to_string(), vec![], &no_args());
    assert!(first.chars().count() >= 36);
    assert!(second.chars().count() >= 36);
    assert_ne!(first, second);
    assert_eq!(ids(&state), vec![first, second]);
}

#[test]
fn widget_is_found_by_its_exact_id() {
    let mut state = state(1);
    three(&mut state);
    assert_eq!(state.widget("b2").map(|w| w.url.as_str()), Some("u2"));
    assert!(state.widget("b").is_none());
    assert!(state.widget("").is_none());
}

#[test]
fn list_gives_matching_ids_in_order() {
    let mut state = state(1);
    three(&mut state);
    assert_eq!(state.list_widgets(&all()), "a1\nb2\na3");
    assert_eq!(state.list_widgets(&by_id("a")), "a1\na3");
    assert_eq!(state.list_widgets(&by_id("nothing")), "");
    assert!(state.actions().is_empty());
}

#[test]
fn show_hide_reload_inspect_queue_one_action_per_match() {
    let mut state = state(1);
    three(&mut state);
    assert_eq!(state.show_widget(&by_id("a")), "a1\na3");
    assert_eq!(
        state.take_actions(),
        vec![act("a1", SurfaceEffect::Show), act("a3", SurfaceEffect::Show)]
    );
    assert_eq!(state.hide_widget(&all()), "a1\nb2\na3");
    assert_eq!(
        state.take_actions(),
        vec![
            act("a1", SurfaceEffect::Hide),
            act("b2", SurfaceEffect::Hide),
            act("a3", SurfaceEffect::Hide),
        ]
    );
    assert_eq!(state.reload_widget(&by_id("b")), "b2");
    assert_eq!(state.take_actions(), vec![act("b2", SurfaceEffect::Reload)]);
    assert_eq!(state.inspect_widget(&by_id("3")), "a3");
    assert_eq!(state.take_actions(), vec![act("a3", SurfaceEffect::Inspect)]);
    assert_eq!(state.show_widget(&by_id("zzz")), "");
    assert!(state.take_actions().is_empty());
    assert_eq!(ids(&state), vec!["a1", "b2", "a3"]);
}

#[test]
fn update_merges_into_every_match_and_reinjects() {
    let mut state = state(3);
    three(&mut state);
    let args = WidgetMetadataArgs {
        monitor: Some(9999),
        margins: Some(WidgetMargins { top: Some(5), right: None, bottom: None, left: None }),
        keyboard_mode: Some("exclusive".to_string()),
        ..no_args()
    };
    let tagged = QueryArgs { tags: Some(vec!["x".to_string()]), ..all() };
    assert_eq!(state.update_widget(&tagged, &args), "a1\na3");
    let patch = MetadataPatch {
        monitor: Some(2),
        margin_top: Some(5),
        keyboard_mode: Some(KeyboardMode::Exclusive),
        ..no_patch()
    };
    assert_eq!(
        state.take_actions(),
        vec![
            act("a1", SurfaceEffect::Configure(patch)),
            act("a1", SurfaceEffect::Inject),
            act("a3", SurfaceEffect::Configure(patch)),
            act("a3", SurfaceEffect::Inject),
        ]
    );
    let changed = WidgetMetadata {
        monitor: Some(2),
        margins: WidgetMetadataMargins { top: 5, right: 0, bottom: 0, left: 0 },
        keyboard_mode: Some(KeyboardMode::Exclusive),
        ..WidgetMetadata::new()
    };
    assert_eq!(state.widgets()[0].metadata, changed);
    assert_eq!(state.widgets()[1].metadata, WidgetMetadata::new());
    assert_eq!(state.widgets()[2].metadata, changed);
    assert_eq!(ids(&state), vec!["a1", "b2", "a3"]);
}

#[test]
fn update_stores_clamped_monitors() {
    let mut state = state(3);
    three(&mut state);
    state.update_widget(&all(), &WidgetMetadataArgs { monitor: Some(-5), ..no_args() });
    assert!(state.widgets().iter().all(|w| w.metadata.monitor == Some(0)));
    state.update_widget(&all(), &WidgetMetadataArgs { monitor: Some(9999), ..no_args() });
    assert!(state.widgets().iter().all(|w| w.metadata.monitor == Some(2)));
    state.set_monitors(monitors(1));
    state.update_widget(&by_id("b"), &WidgetMetadataArgs { monitor: Some(9999), ..no_args() });
    assert_eq!(state.widgets()[1].metadata.monitor, Some(0));
    assert_eq!(state.widgets()[0].metadata.monitor, Some(2));
}

#[test]
fn update_twice_stores_what_once_stores() {
    let args = WidgetMetadataArgs {
        monitor: Some(1),
        layer: Some("bottom".to_string()),
        anchors: Some(vec!["right".to_string()]),
        exclusive: Some(true),
        ..no_args()
    };
    let mut once = state(2);
    three(&mut once);
    once.update_widget(&by_id("a"), &args);
    let mut twice = state(2);
    three(&mut twice);
    twice.update_widget(&by_id("a"), &args);
    twice.update_widget(&by_id("a"), &args);
    assert_eq!(once.widgets(), twice.widgets());
}

#[test]
fn update_without_a_match_changes_nothing() {
    let mut state = state(2);
    three(&mut state);
    let before = state.widgets().clone();
    assert_eq!(
        state.update_widget(&by_id("nonexistent"), &WidgetMetadataArgs { monitor: Some(1), ..no_args() }),
        ""
    );
    assert_eq!(state.widgets(), &before);
    assert!(state.actions().is_empty());
}

#[test]
fn delete_removes_matches_and_closes_their_surfaces() {
    let mut state = state(1);
    three(&mut state);
    assert_eq!(state.delete_widget(&by_id("a")), "a1\na3");
    assert_eq!(ids(&state), vec!["b2"]);
    assert_eq!(
        state.take_actions(),
        vec![act("a1", SurfaceEffect::Close), act("a3", SurfaceEffect::Close)]
    );
    assert_eq!(state.delete_widget(&by_id("a")), "");
    assert_eq!(ids(&state), vec!["b2"]);
    assert!(state.actions().is_empty());
    assert_eq!(state.delete_widget(&all()), "b2");
    assert!(state.widgets().is_empty());
}

#[test]
fn delete_keeps_the_order_of_the_rest() {
    let mut state = state(1);
    for id in ["k1", "d1", "k2", "d2", "d3", "k3"] {
        state.add_widget_with_id(id.to_string(), "u".to_string(), vec![], &no_args());
    }
    assert_eq!(state.delete_widget(&by_id("d")), "d1\nd2\nd3");
    assert_eq!(ids(&state), vec!["k1", "k2", "k3"]);
}

#[test]
fn request_queues_one_action() {
    let mut state = state(1);
    state.request("w", SurfaceEffect::Show);
    state.request("v", SurfaceEffect::Close);
    assert_eq!(
        state.take_actions(),
        vec![act("w", SurfaceEffect::Show), act("v", SurfaceEffect::Close)]
    );
    assert!(state.actions().is_empty());
}

#[test]
fn kill_stops_the_daemon() {
    let mut state = state(1);
    three(&mut state);
    state.kill_application();
    assert!(!state.is_running());
    assert_eq!(ids(&state), vec!["a1", "b2", "a3"]);
}

#[test]
fn version_lists_the_display_outputs() {
    assert_eq!(state(1).version(), "1.2.3\nmonitor DP-1: Panel 1");
    assert_eq!(
        state(3).version(),
        "1.2.3\nmonitor DP-1: Panel 1\nmonitor DP-2: Panel 2\nmonitor DP-3: Panel 3"
    );
    let mut state = state(2);
    state.set_monitors(vec![Monitor { name: "eDP-1".to_string(), model: "".to_string() }]);
    assert_eq!(state.version(), "1.2.3\nmonitor eDP-1: ");
}
