use wayland_webkit_widget::cli::{CreateUrlGroup, QueryArgs, WidgetMetadataArgs};
use wayland_webkit_widget::utils::{
    filter, resolve_directory, resolve_source, validate_create, widget_filter, InvalidSourceError,
};
use wayland_webkit_widget::widget::Widget;

fn widget(id: &str, url: &str, tags: &[&str]) -> Widget {
    Widget::with_id(id.to_string(), url.to_string(), tags.iter().map(|t| t.to_string()).collect())
}

fn all() -> QueryArgs {
    QueryArgs { id: None, url: None, tags: None }
}

fn tagged(tags: &[&str]) -> QueryArgs {
    QueryArgs { tags: Some(tags.iter().map(|t| t.to_string()).collect()), ..all() }
}

fn args(monitor: Option<i32>, layer: Option<&str>) -> WidgetMetadataArgs {
    WidgetMetadataArgs {
        monitor,
        layer: layer.map(|l| l.to_string()),
        anchors: None,
        margins: None,
        size: None,
        click_through: None,
        exclusive: None,
        keyboard_mode: None,
    }
}

#[test]
fn the_empty_query_matches_every_widget() {
    assert!(widget_filter(&widget("a", "http://x/", &[]), &all()));
    assert!(widget_filter(&widget("", "", &["t"]), &all()));
}

#[test]
fn the_empty_query_selects_all_in_order() {
    let widgets = vec![widget("c", "u3", &[]), widget("a", "u1", &["x"]), widget("b", "u2", &[])];
    let found = filter(&widgets, &all());
    let ids: Vec<&str> = found.iter().map(|w| w.id.as_str()).collect();
    assert_eq!(ids, vec!["c", "a", "b"]);
}

#[test]
fn tag_matching_is_intersection() {
    let w = widget("w", "u", &["a", "b"]);
    assert!(widget_filter(&w, &tagged(&["b", "c"])));
    assert!(!widget_filter(&w, &tagged(&["c", "d"])));
    assert!(widget_filter(&w, &tagged(&["a", "b", "z"])));
    assert!(widget_filter(&w, &tagged(&["a"])));
}

#[test]
fn an_empty_tag_list_matches_nothing() {
    assert!(!widget_filter(&widget("w", "u", &["a"]), &tagged(&[])));
    assert!(!widget_filter(&widget("w", "u", &[]), &tagged(&["a"])));
    assert!(!widget_filter(&widget("w", "u", &[]), &tagged(&[])));
}

#[test]
fn id_matching_is_substring_containment() {
    let w = widget("abc-123", "u", &[]);
    assert!(widget_filter(&w, &QueryArgs { id: Some("c-1".to_string()), ..all() }));
    assert!(widget_filter(&w, &QueryArgs { id: Some("abc-123".to_string()), ..all() }));
    assert!(widget_filter(&w, &QueryArgs { id: Some("".to_string()), ..all() }));
    assert!(!widget_filter(&w, &QueryArgs { id: Some("ABC".to_string()), ..all() }));
    assert!(!widget_filter(&w, &QueryArgs { id: Some("abc-1234".to_string()), ..all() }));
}

#[test]
fn url_matching_is_substring_containment() {
    let w = widget("w", "http://localhost:8082/clock/index.html", &[]);
    assert!(widget_filter(&w, &QueryArgs { url: Some("clock".to_string()), ..all() }));
    assert!(!widget_filter(&w, &QueryArgs { url: Some("weather".to_string()), ..all() }));
}

#[test]
fn every_present_field_must_hold() {
    let w = widget("abc", "http://x/clock", &["bar"]);
    let query = QueryArgs {
        id: Some("b".to_string()),
        url: Some("clock".to_string()),
        tags: Some(vec!["bar".to_string()]),
    };
    assert!(widget_filter(&w, &query));
    assert!(!widget_filter(&w, &QueryArgs { id: Some("z".to_string()), ..query.clone() }));
    assert!(!widget_filter(&w, &QueryArgs { url: Some("z".to_string()), ..query.clone() }));
    assert!(!widget_filter(&w, &QueryArgs { tags: Some(vec!["z".to_string()]), ..query }));
}

#[test]
fn filter_keeps_registry_order() {
    let widgets = vec![
        widget("a1", "u", &["x"]),
        widget("b", "u", &["x"]),
        widget("a2", "u", &[]),
        widget("a3", "u", &["x", "y"]),
    ];
    let query = QueryArgs { id: Some("a".to_string()), tags: Some(vec!["x".to_string()]), url: None };
    let found = filter(&widgets, &query);
    let ids: Vec<&str> = found.iter().map(|w| w.id.as_str()).collect();
    assert_eq!(ids, vec!["a1", "a3"]);
    assert!(filter(&widgets, &QueryArgs { id: Some("zzz".to_string()), ..all() }).is_empty());
    assert!(filter(&Vec::new(), &all()).is_empty());
}

#[test]
fn directory_resolves_to_its_entry_document() {
    assert_eq!(resolve_directory("foo"), "http://localhost:8082/foo/index.html");
    assert_eq!(resolve_directory("foo/bar"), "http://localhost:8082/foo/bar/index.html");
}

#[test]
fn directory_with_trailing_separator_or_empty() {
    assert_eq!(resolve_directory("foo/"), "http://localhost:8082/foo/index.html");
    assert_eq!(resolve_directory(""), "http://localhost:8082/index.html");
}

#[test]
fn directory_resolves_as_path_join_does() {
    for directory in ["foo", "foo/", "", "a/b", "caf\u{e9}", "x//"] {
        let joined = std::path::Path::new(directory).join("index.html");
        assert_eq!(
            resolve_directory(directory),
            format!("http://localhost:8082/{}", joined.to_str().unwrap())
        );
    }
}

#[test]
fn source_is_exactly_one_of_directory_and_url() {
    assert_eq!(
        resolve_source(&CreateUrlGroup { directory: Some("foo".to_string()), url: None }),
        Ok("http://localhost:8082/foo/index.html".to_string())
    );
    assert_eq!(
        resolve_source(&CreateUrlGroup { directory: None, url: Some("https://e.org/".to_string()) }),
        Ok("https://e.org/".to_string())
    );
    assert_eq!(
        resolve_source(&CreateUrlGroup { directory: None, url: None }),
        Err(InvalidSourceError::NoSource)
    );
    assert_eq!(
        resolve_source(&CreateUrlGroup {
            directory: Some("foo".to_string()),
            url: Some("https://e.org/".to_string()),
        }),
        Err(InvalidSourceError::TwoSources)
    );
}

#[test]
fn create_needs_monitor_and_layer() {
    let group = CreateUrlGroup { directory: Some("foo".to_string()), url: None };
    assert_eq!(
        validate_create(&group, &args(Some(0), Some("top"))),
        Ok("http://localhost:8082/foo/index.html".to_string())
    );
    assert_eq!(
        validate_create(&group, &args(None, Some("top"))),
        Err(InvalidSourceError::MissingMetadata)
    );
    assert_eq!(
        validate_create(&group, &args(Some(0), None)),
        Err(InvalidSourceError::MissingMetadata)
    );
    assert_eq!(
        validate_create(&CreateUrlGroup { directory: None, url: None }, &args(None, None)),
        Err(InvalidSourceError::NoSource)
    );
}

#[test]
fn invalid_source_messages() {
    assert_eq!(
        InvalidSourceError::NoSource.message(),
        "invalid source: a directory or a url is required"
    );
    assert_eq!(
        InvalidSourceError::TwoSources.message(),
        "invalid source: directory and url exclude each other"
    );
    assert_eq!(InvalidSourceError::MissingMetadata.message(), "monitor and layer are required");
}
