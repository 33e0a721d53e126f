use crate::cli::{CreateUrlGroup, QueryArgs, WidgetMetadataArgs};
use crate::text::{contains, contains_text, texts};
use crate::widget::{Widget, WidgetView};
use vstd::prelude::*;

verus! {

/// The two tag lists have a tag in common.
pub open spec fn share_tag(a: Seq<Seq<char>>, b: Seq<Seq<char>>) -> bool {
    exists|i: int, j: int| 0 <= i < a.len() && 0 <= j < b.len() && #[trigger] a[i] == #[trigger] b[j]
}

/// A widget matches a query when every condition that the query holds is met: its id contains
/// the query's id, its source contains the query's url, and it carries one of the query's tags.
/// A field that the query lacks puts no condition.
pub open spec fn matches(widget: WidgetView, query: QueryArgs) -> bool {
    &&& query.id matches Some(part) ==> contains_text(widget.id, part@)
    &&& query.url matches Some(part) ==> contains_text(widget.url, part@)
    &&& query.tags matches Some(tags) ==> share_tag(widget.tags, texts(tags@))
}

/// The query that puts no condition.
pub open spec fn match_all() -> QueryArgs {
    QueryArgs { id: None, url: None, tags: None }
}

/// The test that `matches` makes, as a function of the widget.
pub open spec fn selector(query: QueryArgs) -> spec_fn(WidgetView) -> bool {
    |w: WidgetView| matches(w, query)
}

/// The test that `matches` fails, as a function of the widget.
pub open spec fn rejector(query: QueryArgs) -> spec_fn(WidgetView) -> bool {
    |w: WidgetView| !matches(w, query)
}

/// The widgets that match `query`, in the order in which they stand.
pub open spec fn selected(widgets: Seq<WidgetView>, query: QueryArgs) -> Seq<WidgetView> {
    widgets.filter(selector(query))
}

/// The widgets that a sequence of them holds.
pub open spec fn views(widgets: Seq<Widget>) -> Seq<WidgetView> {
    widgets.map_values(|w: Widget| w@)
}

/// The widgets that a sequence of references holds.
pub open spec fn ref_views(widgets: Seq<&Widget>) -> Seq<WidgetView> {
    widgets.map_values(|w: &Widget| w@)
}

/// The ids of `widgets`, in order.
pub open spec fn ids_of(widgets: Seq<WidgetView>) -> Seq<Seq<char>> {
    widgets.map_values(|w: WidgetView| w.id)
}

/// Tag matching is intersection: two tag lists share a tag exactly when some tag belongs to
/// both, however many tags either holds besides.
pub proof fn lemma_share_tag_is_intersection(a: Seq<Seq<char>>, b: Seq<Seq<char>>)
    ensures
        share_tag(a, b) <==> exists|t: Seq<char>| a.contains(t) && b.contains(t),
        share_tag(a, b) == share_tag(b, a),
{
    if share_tag(a, b) {
        let (i, j) = choose|i: int, j: int|
            0 <= i < a.len() && 0 <= j < b.len() && #[trigger] a[i] == #[trigger] b[j];
        assert(a.contains(a[i]) && b.contains(a[i]));
        assert(b[j] == a[i]);
    }
    if exists|t: Seq<char>| a.contains(t) && b.contains(t) {
        let t = choose|t: Seq<char>| a.contains(t) && b.contains(t);
        let i = choose|i: int| 0 <= i < a.len() && a[i] == t;
        let j = choose|j: int| 0 <= j < b.len() && b[j] == t;
        assert(a[i] == b[j]);
    }
    if share_tag(b, a) {
        let (j, i) = choose|j: int, i: int|
            0 <= j < b.len() && 0 <= i < a.len() && #[trigger] b[j] == #[trigger] a[i];
        assert(a[i] == b[j]);
    }
}

/// The empty query selects every widget, in the order in which they stand.
pub proof fn lemma_match_all_selects_all(widgets: Seq<WidgetView>)
    ensures
        selected(widgets, match_all()) == widgets,
    decreases widgets.len(),
{
    reveal(Seq::filter);
    if widgets.len() > 0 {
        lemma_match_all_selects_all(widgets.drop_last());
        assert(matches(widgets.last(), match_all()));
        assert(widgets.drop_last().push(widgets.last()) =~= widgets);
    }
}

/// Whether `tags` holds `tag`.
fn has_tag(tags: &Vec<String>, tag: &String) -> (found: bool)
    ensures
        found == texts(tags@).contains(tag@),
{
    let mut i: usize = 0;
    while i < tags.len()
        invariant
            i <= tags@.len(),
            forall|k: int| 0 <= k < i ==> texts(tags@)[k] != tag@,
        decreases tags@.len() - i,
    {
        if tags[i] == *tag {
            assert(texts(tags@)[i as int] == tag@);
            return true;
        }
        i += 1;
    }
    false
}

/// Whether two tag lists have a tag in common.
fn tags_intersect(a: &Vec<String>, b: &Vec<String>) -> (found: bool)
    ensures
        found == share_tag(texts(a@), texts(b@)),
{
    let mut i: usize = 0;
    while i < a.len()
        invariant
            i <= a@.len(),
            forall|k: int, j: int|
                0 <= k < i && 0 <= j < b@.len() ==> #[trigger] texts(a@)[k] != #[trigger] texts(
                    b@,
                )[j],
        decreases a@.len() - i,
    {
        if has_tag(b, &a[i]) {
            let ghost j = choose|j: int| 0 <= j < texts(b@).len() && texts(b@)[j] == a@[i as int]@;
            assert(texts(a@)[i as int] == texts(b@)[j]);
            return true;
        }
        assert forall|j: int| 0 <= j < b@.len() implies texts(a@)[i as int] != #[trigger] texts(
            b@,
        )[j] by {
            if texts(a@)[i as int] == texts(b@)[j] {
                assert(texts(b@).contains(a@[i as int]@));
            }
        }
        i += 1;
    }
    false
}

/// Whether `widget` matches `query`.
pub fn widget_filter(widget: &Widget, query: &QueryArgs) -> (selected: bool)
    ensures
        selected == matches(widget@, *query),
{
    if let Some(part) = &query.id {
        if !contains(widget.id.as_str(), part.as_str()) {
            return false;
        }
    }
    if let Some(part) = &query.url {
        if !contains(widget.url.as_str(), part.as_str()) {
            return false;
        }
    }
    if let Some(tags) = &query.tags {
        if !tags_intersect(&widget.tags, tags) {
            return false;
        }
    }
    true
}

/// The widgets that match `query`, in the order in which they stand in `widgets`.
pub fn filter<'a>(widgets: &'a Vec<Widget>, query: &QueryArgs) -> (found: Vec<&'a Widget>)
    ensures
        ref_views(found@) == selected(views(widgets@), *query),
{
    let ghost all = views(widgets@);
    let mut found: Vec<&'a Widget> = Vec::new();
    let mut i: usize = 0;
    proof {
        reveal(Seq::filter);
        assert(all.take(0) =~= Seq::<WidgetView>::empty());
        assert(ref_views(found@) =~= Seq::<WidgetView>::empty());
    }
    while i < widgets.len()
        invariant
            i <= widgets@.len(),
            all == views(widgets@),
            ref_views(found@) == selected(all.take(i as int), *query),
        decreases widgets@.len() - i,
    {
        let widget = &widgets[i];
        proof {
            assert(all.take(i + 1) =~= all.take(i as int).push(widget@));
            all.take(i as int).lemma_filter_push(widget@, selector(*query));
        }
        if widget_filter(widget, query) {
            proof {
                found@.lemma_push_map_commute(|w: &Widget| w@, widget);
            }
            found.push(widget);
        }
        i += 1;
    }
    assert(all.take(i as int) =~= all);
    found
}

/// The address under which the local file server serves widget directories.
pub open spec fn server_root() -> Seq<char> {
    "http://localhost:8082/"@
}

/// The path of the entry document of a directory: `index.html` below it, with one separator
/// between them unless the directory is empty or ends in one.
pub open spec fn index_path(directory: Seq<char>) -> Seq<char> {
    if directory.len() == 0 || directory.last() == '/' {
        directory + "index.html"@
    } else {
        directory + "/"@ + "index.html"@
    }
}

/// The address of the entry document of a local widget directory.
pub open spec fn directory_url(directory: Seq<char>) -> Seq<char> {
    server_root() + index_path(directory)
}

/// Why a source is refused.
#[derive(Clone, Copy, Debug, PartialEq, Eq)]
pub enum InvalidSourceError {
    /// Neither a directory nor a URL is given.
    NoSource,
    /// Both a directory and a URL are given.
    TwoSources,
    /// The monitor or the layer is missing.
    MissingMetadata,
}

impl InvalidSourceError {
    /// A fixed description of the error.
    pub open spec fn text(self) -> Seq<char> {
        match self {
            InvalidSourceError::NoSource => "invalid source: a directory or a url is required"@,
            InvalidSourceError::TwoSources => "invalid source: directory and url exclude each other"@,
            InvalidSourceError::MissingMetadata => "monitor and layer are required"@,
        }
    }

    /// A fixed, human-readable description of the error.
    pub fn message(&self) -> (text: String)
        ensures
            text@ == self.text(),
    {
        match self {
            InvalidSourceError::NoSource => "invalid source: a directory or a url is required".to_owned(),
            InvalidSourceError::TwoSources => "invalid source: directory and url exclude each other".to_owned(),
            InvalidSourceError::MissingMetadata => "monitor and layer are required".to_owned(),
        }
    }
}

/// The source that a group names: exactly one of directory and URL must be given.
pub open spec fn source_of(group: CreateUrlGroup) -> Result<Seq<char>, InvalidSourceError> {
    match (group.directory, group.url) {
        (Some(directory), None) => Ok(directory_url(directory@)),
        (None, Some(url)) => Ok(url@),
        (None, None) => Err(InvalidSourceError::NoSource),
        (Some(_), Some(_)) => Err(InvalidSourceError::TwoSources),
    }
}

/// What a request to create a widget must meet: exactly one source, and both a monitor and a
/// layer. Hands back the resolved source.
pub open spec fn create_request(group: CreateUrlGroup, metadata: WidgetMetadataArgs) -> Result<
    Seq<char>,
    InvalidSourceError,
> {
    match source_of(group) {
        Err(e) => Err(e),
        Ok(url) => if metadata.monitor is None || metadata.layer is None {
            Err(InvalidSourceError::MissingMetadata)
        } else {
            Ok(url)
        },
    }
}

/// The address of the entry document of a local widget directory.
pub fn resolve_directory(directory: &str) -> (url: String)
    ensures
        url@ == directory_url(directory@),
{
    let length = directory.unicode_len();
    let mut url = "http://localhost:8082/".to_owned();
    url.append(directory);
    if length > 0 && directory.get_char(length - 1) != '/' {
        url.append("/");
    }
    url.append("index.html");
    assert(url@ =~= directory_url(directory@));
    url
}

/// Resolves the source of a new widget.
pub fn resolve_source(group: &CreateUrlGroup) -> (source: Result<String, InvalidSourceError>)
    ensures
        match source {
            Ok(url) => source_of(*group) == Ok::<Seq<char>, InvalidSourceError>(url@),
            Err(e) => source_of(*group) == Err::<Seq<char>, InvalidSourceError>(e),
        },
{
    match (&group.directory, &group.url) {
        (Some(directory), None) => Ok(resolve_directory(directory.as_str())),
        (None, Some(url)) => Ok(url.clone()),
        (None, None) => Err(InvalidSourceError::NoSource),
        (Some(_), Some(_)) => Err(InvalidSourceError::TwoSources),
    }
}

/// Checks a request to create a widget and resolves its source.
pub fn validate_create(group: &CreateUrlGroup, metadata: &WidgetMetadataArgs) -> (source: Result<
    String,
    InvalidSourceError,
>)
    ensures
        match source {
            Ok(url) => create_request(*group, *metadata) == Ok::<Seq<char>, InvalidSourceError>(
                url@,
            ),
            Err(e) => create_request(*group, *metadata) == Err::<Seq<char>, InvalidSourceError>(e),
        },
{
    match resolve_source(group) {
        Err(e) => Err(e),
        Ok(url) => {
            if metadata.monitor.is_none() || metadata.layer.is_none() {
                Err(InvalidSourceError::MissingMetadata)
            } else {
                Ok(url)
            }
        },
    }
}

} // verus!
