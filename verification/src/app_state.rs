use crate::cli::{QueryArgs, WidgetMetadataArgs};
use crate::surface::{
    action, action_views, announce, announce_refresh, announcer, refresh, refresher, SurfaceAction,
    SurfaceActionView, SurfaceEffect,
};
use crate::text::{join, join_lines, texts};
use crate::utils::{filter, ids_of, ref_views, rejector, selected, selector, views, widget_filter};
use crate::widget::{
    initial_metadata, is_uuid_text, merged, random_id, resolved, MetadataPatch, Widget, WidgetView,
};
use vstd::prelude::*;

verus! {

/// A physical display output.
#[derive(Clone, Debug, PartialEq, Eq)]
pub struct Monitor {
    pub name: String,
    pub model: String,
}

/// A display output as plain values.
pub struct MonitorView {
    pub name: Seq<char>,
    pub model: Seq<char>,
}

impl View for Monitor {
    type V = MonitorView;

    open spec fn view(&self) -> MonitorView {
        MonitorView { name: self.name@, model: self.model@ }
    }
}

/// The outputs that a sequence of them holds.
pub open spec fn monitor_views(monitors: Seq<Monitor>) -> Seq<MonitorView> {
    monitors.map_values(|m: Monitor| m@)
}

/// Everything the daemon owns: the registry of widgets in the order in which they were created,
/// the surface actions that are waiting to be carried out, the display outputs, the daemon's
/// version, and whether it is still running.
pub struct AppState {
    widgets: Vec<Widget>,
    actions: Vec<SurfaceAction>,
    monitors: Vec<Monitor>,
    version: String,
    running: bool,
}

/// The daemon's state as plain values.
pub struct AppStateView {
    pub widgets: Seq<WidgetView>,
    pub actions: Seq<SurfaceActionView>,
    pub monitors: Seq<MonitorView>,
    pub version: Seq<char>,
    pub running: bool,
}

impl View for AppState {
    type V = AppStateView;

    closed spec fn view(&self) -> AppStateView {
        AppStateView {
            widgets: views(self.widgets@),
            actions: action_views(self.actions@),
            monitors: monitor_views(self.monitors@),
            version: self.version@,
            running: self.running,
        }
    }
}

/// No two widgets have the same id.
pub open spec fn unique_ids(widgets: Seq<WidgetView>) -> bool {
    forall|i: int, j: int|
        0 <= i < j < widgets.len() ==> (#[trigger] widgets[i]).id != (#[trigger] widgets[j]).id
}

/// The ids of the widgets that match `query`, one per line, in registry order.
pub open spec fn listing(state: AppStateView, query: QueryArgs) -> Seq<char> {
    join_lines(ids_of(selected(state.widgets, query)))
}

/// The state after `effect` was asked of every widget that matches `query`.
pub open spec fn after_effect(state: AppStateView, query: QueryArgs, effect: SurfaceEffect) -> AppStateView {
    AppStateView {
        actions: state.actions + announce(ids_of(selected(state.widgets, query)), effect),
        ..state
    }
}

/// What `update` does to one widget: a widget that matches takes the patch, any other stays.
pub open spec fn patcher(query: QueryArgs, patch: MetadataPatch) -> spec_fn(WidgetView) -> WidgetView {
    |w: WidgetView|
        if crate::utils::matches(w, query) {
            WidgetView { metadata: merged(w.metadata, patch), ..w }
        } else {
            w
        }
}

/// The state after `patch` was merged into every widget that matches `query`: each of them, in
/// registry order, has its surface follow the change and is handed its new state.
pub open spec fn after_update(state: AppStateView, query: QueryArgs, patch: MetadataPatch) -> AppStateView {
    AppStateView {
        widgets: state.widgets.map_values(patcher(query, patch)),
        actions: state.actions + announce_refresh(ids_of(selected(state.widgets, query)), patch),
        ..state
    }
}

/// The state after every widget that matches `query` was deleted: those that do not match stay,
/// in their order, and the surface of each deleted one is closed.
pub open spec fn after_delete(state: AppStateView, query: QueryArgs) -> AppStateView {
    AppStateView {
        widgets: state.widgets.filter(rejector(query)),
        actions: state.actions + announce(
            ids_of(selected(state.widgets, query)),
            SurfaceEffect::Close,
        ),
        ..state
    }
}

/// A widget that was just created and then took `patch`.
pub open spec fn created(
    id: Seq<char>,
    url: Seq<char>,
    tags: Seq<Seq<char>>,
    patch: MetadataPatch,
) -> WidgetView {
    WidgetView { id, tags, url, metadata: merged(initial_metadata(), patch) }
}

/// The state after a widget was created under `id`: it stands last in the registry with the
/// request merged into the initial state, and its surface is created, follows the request, and
/// is handed the widget's state.
pub open spec fn after_create(
    state: AppStateView,
    id: Seq<char>,
    url: Seq<char>,
    tags: Seq<Seq<char>>,
    args: WidgetMetadataArgs,
) -> AppStateView {
    let patch = resolved(args, state.monitors.len() as int);
    AppStateView {
        widgets: state.widgets.push(created(id, url, tags, patch)),
        actions: state.actions + seq![action(id, SurfaceEffect::Create)] + refresh(id, patch),
        ..state
    }
}

/// The state after the daemon was told to stop.
pub open spec fn after_kill(state: AppStateView) -> AppStateView {
    AppStateView { running: false, ..state }
}

/// The length of the longest of `ids`.
pub open spec fn longest(ids: Seq<Seq<char>>) -> nat
    decreases ids.len(),
{
    if ids.len() == 0 {
        0
    } else {
        let rest = longest(ids.drop_last());
        if ids.last().len() > rest {
            ids.last().len()
        } else {
            rest
        }
    }
}

/// `n` zeros.
pub open spec fn zeros(n: nat) -> Seq<char> {
    Seq::new(n, |i: int| '0')
}

/// An id that none of `ids` equals: the candidate itself if it is free, else the candidate
/// lengthened by zeros until it is longer than every id in use.
pub open spec fn fresh_from(ids: Seq<Seq<char>>, candidate: Seq<char>) -> Seq<char> {
    if ids.contains(candidate) {
        candidate + zeros((longest(ids) + 1 - candidate.len()) as nat)
    } else {
        candidate
    }
}

/// The line that describes one display output.
pub open spec fn monitor_line(monitor: MonitorView) -> Seq<char> {
    "monitor "@ + monitor.name + ": "@ + monitor.model
}

/// The answer to `Version`: the daemon's version, then one line for each display output.
pub open spec fn version_text(state: AppStateView) -> Seq<char> {
    join_lines(seq![state.version] + state.monitors.map_values(|m: MonitorView| monitor_line(m)))
}

proof fn lemma_longest(ids: Seq<Seq<char>>, i: int)
    requires
        0 <= i < ids.len(),
    ensures
        ids[i].len() <= longest(ids),
    decreases ids.len(),
{
    if i < ids.len() - 1 {
        lemma_longest(ids.drop_last(), i);
    }
}

/// The id that `fresh_from` gives is in fact free, and begins with the candidate.
pub proof fn lemma_fresh_from(ids: Seq<Seq<char>>, candidate: Seq<char>)
    ensures
        !ids.contains(fresh_from(ids, candidate)),
        candidate.is_prefix_of(fresh_from(ids, candidate)),
{
    if ids.contains(candidate) {
        let i = choose|i: int| 0 <= i < ids.len() && ids[i] == candidate;
        lemma_longest(ids, i);
        let fresh = fresh_from(ids, candidate);
        assert(fresh.len() == longest(ids) + 1);
        if ids.contains(fresh) {
            let j = choose|j: int| 0 <= j < ids.len() && ids[j] == fresh;
            lemma_longest(ids, j);
        }
    }
}

/// No widget of `widgets` matches `query`.
pub open spec fn none_match(widgets: Seq<WidgetView>, query: QueryArgs) -> bool {
    forall|i: int| 0 <= i < widgets.len() ==> !crate::utils::matches(#[trigger] widgets[i], query)
}

proof fn lemma_selected_none(widgets: Seq<WidgetView>, query: QueryArgs)
    requires
        none_match(widgets, query),
    ensures
        selected(widgets, query) == Seq::<WidgetView>::empty(),
        widgets.filter(rejector(query)) == widgets,
    decreases widgets.len(),
{
    reveal(Seq::filter);
    if widgets.len() > 0 {
        let rest = widgets.drop_last();
        assert forall|i: int| 0 <= i < rest.len() implies !crate::utils::matches(
            #[trigger] rest[i],
            query,
        ) by {
            assert(rest[i] == widgets[i]);
        }
        lemma_selected_none(rest, query);
        assert(!crate::utils::matches(widgets[widgets.len() - 1], query));
        assert(rest.push(widgets.last()) =~= widgets);
    }
}

/// A query that matches nothing is no error: the answer is empty and the state stays as it is,
/// whether the command updates, deletes, or asks an effect of the surfaces.
pub proof fn lemma_no_match_changes_nothing(
    state: AppStateView,
    query: QueryArgs,
    patch: MetadataPatch,
    effect: SurfaceEffect,
)
    requires
        none_match(state.widgets, query),
    ensures
        listing(state, query) == Seq::<char>::empty(),
        after_update(state, query, patch) == state,
        after_delete(state, query) == state,
        after_effect(state, query, effect) == state,
{
    lemma_selected_none(state.widgets, query);
    let none = Seq::<Seq<char>>::empty();
    assert(ids_of(selected(state.widgets, query)) =~= none);
    assert(announce(none, effect) =~= Seq::<SurfaceActionView>::empty());
    assert(announce(none, SurfaceEffect::Close) =~= Seq::<SurfaceActionView>::empty());
    assert(announce_refresh(none, patch) =~= Seq::<SurfaceActionView>::empty());
    assert(state.widgets.map_values(patcher(query, patch)) =~= state.widgets);
    assert(state.actions + Seq::<SurfaceActionView>::empty() =~= state.actions);
}

/// An update applied twice leaves the registry as applying it once leaves it.
pub proof fn lemma_update_twice(state: AppStateView, query: QueryArgs, patch: MetadataPatch)
    ensures
        after_update(after_update(state, query, patch), query, patch).widgets == after_update(
            state,
            query,
            patch,
        ).widgets,
{
    let once = after_update(state, query, patch).widgets;
    let twice = after_update(after_update(state, query, patch), query, patch).widgets;
    assert forall|i: int| 0 <= i < once.len() implies twice[i] == once[i] by {
        let w = state.widgets[i];
        assert(once[i] == patcher(query, patch)(w));
        assert(twice[i] == patcher(query, patch)(once[i]));
        assert(crate::utils::matches(once[i], query) == crate::utils::matches(w, query));
    }
    assert(twice =~= once);
}

/// An update changes the stored state of the widgets that match and of no other; ids, sources,
/// tags and the order of the registry stay.
pub proof fn lemma_update_touches_matches_only(
    state: AppStateView,
    query: QueryArgs,
    patch: MetadataPatch,
    i: int,
)
    requires
        0 <= i < state.widgets.len(),
    ensures
        after_update(state, query, patch).widgets.len() == state.widgets.len(),
        after_update(state, query, patch).widgets[i].id == state.widgets[i].id,
        after_update(state, query, patch).widgets[i].url == state.widgets[i].url,
        after_update(state, query, patch).widgets[i].tags == state.widgets[i].tags,
        after_update(state, query, patch).widgets[i].metadata == if crate::utils::matches(
            state.widgets[i],
            query,
        ) {
            merged(state.widgets[i].metadata, patch)
        } else {
            state.widgets[i].metadata
        },
{
}

/// What was deleted is gone: no widget that is left matches the query, so listing by the same
/// query gives nothing.
pub proof fn lemma_deleted_are_gone(state: AppStateView, query: QueryArgs)
    ensures
        none_match(after_delete(state, query).widgets, query),
        listing(after_delete(state, query), query) == Seq::<char>::empty(),
{
    let left = after_delete(state, query).widgets;
    state.widgets.filter_lemma(rejector(query));
    assert forall|i: int| 0 <= i < left.len() implies !crate::utils::matches(
        #[trigger] left[i],
        query,
    ) by {
        assert(rejector(query)(left[i]));
    }
    lemma_selected_none(left, query);
    assert(ids_of(selected(left, query)) =~= Seq::<Seq<char>>::empty());
}

/// A widget that was created is in the registry, behind all that were there, and the empty query
/// lists it.
pub proof fn lemma_created_is_listed(
    state: AppStateView,
    id: Seq<char>,
    url: Seq<char>,
    tags: Seq<Seq<char>>,
    args: WidgetMetadataArgs,
)
    ensures
        ids_of(selected(after_create(state, id, url, tags, args).widgets, crate::utils::match_all()))
            == ids_of(state.widgets).push(id),
{
    let created = after_create(state, id, url, tags, args).widgets;
    crate::utils::lemma_match_all_selects_all(created);
    assert(ids_of(created) =~= ids_of(state.widgets).push(id));
}

/// Two widgets that are created one after the other get different ids: the second id is one
/// that the registry, which then holds the first, does not have.
pub proof fn lemma_created_ids_differ(
    state: AppStateView,
    first: Seq<char>,
    url: Seq<char>,
    tags: Seq<Seq<char>>,
    args: WidgetMetadataArgs,
    second: Seq<char>,
)
    requires
        !ids_of(after_create(state, first, url, tags, args).widgets).contains(second),
    ensures
        first != second,
{
    let created = after_create(state, first, url, tags, args).widgets;
    assert(ids_of(created)[created.len() - 1] == first);
}

impl AppState {
    /// What holds of every state: ids are unique and there is a display output.
    pub open spec fn wf(&self) -> bool {
        &&& unique_ids(self@.widgets)
        &&& self@.monitors.len() >= 1
    }

    /// The state of a daemon that has just started: no widgets, nothing to do, running.
    pub fn new(version: String, monitors: Vec<Monitor>) -> (state: Self)
        requires
            monitors@.len() >= 1,
        ensures
            state.wf(),
            state@ == (AppStateView {
                widgets: Seq::empty(),
                actions: Seq::empty(),
                monitors: monitor_views(monitors@),
                version: version@,
                running: true,
            }),
    {
        let state = AppState {
            widgets: Vec::new(),
            actions: Vec::new(),
            monitors,
            version,
            running: true,
        };
        assert(state@.widgets =~= Seq::<WidgetView>::empty());
        assert(state@.actions =~= Seq::<SurfaceActionView>::empty());
        state
    }

    /// The registry, in insertion order.
    pub fn widgets(&self) -> (widgets: &Vec<Widget>)
        ensures
            views(widgets@) == self@.widgets,
    {
        &self.widgets
    }

    /// The display outputs.
    pub fn monitors(&self) -> (monitors: &Vec<Monitor>)
        ensures
            monitor_views(monitors@) == self@.monitors,
    {
        &self.monitors
    }

    /// The surface actions that are waiting, oldest first.
    pub fn actions(&self) -> (actions: &Vec<SurfaceAction>)
        ensures
            action_views(actions@) == self@.actions,
    {
        &self.actions
    }

    /// Whether the daemon is still running.
    pub fn is_running(&self) -> (running: bool)
        ensures
            running == self@.running,
    {
        self.running
    }

    /// Hands out the waiting surface actions, oldest first, and leaves none waiting.
    pub fn take_actions(&mut self) -> (actions: Vec<SurfaceAction>)
        ensures
            action_views(actions@) == old(self)@.actions,
            final(self)@ == (AppStateView { actions: Seq::empty(), ..old(self)@ }),
    {
        let mut actions: Vec<SurfaceAction> = Vec::new();
        core::mem::swap(&mut self.actions, &mut actions);
        assert(self@.actions =~= Seq::<SurfaceActionView>::empty());
        actions
    }

    /// Replaces the display outputs by the ones that are attached now.
    pub fn set_monitors(&mut self, monitors: Vec<Monitor>)
        requires
            monitors@.len() >= 1,
        ensures
            final(self)@ == (AppStateView { monitors: monitor_views(monitors@), ..old(self)@ }),
    {
        self.monitors = monitors;
    }

    /// The ids of the widgets that match `query`, in registry order.
    fn select_ids(&self, query: &QueryArgs) -> (ids: Vec<String>)
        ensures
            texts(ids@) == ids_of(selected(self@.widgets, *query)),
    {
        let found = filter(&self.widgets, query);
        let ghost all = ref_views(found@);
        let mut ids: Vec<String> = Vec::new();
        let mut i: usize = 0;
        assert(texts(ids@) =~= ids_of(all.take(0)));
        while i < found.len()
            invariant
                i <= found@.len(),
                all == ref_views(found@),
                texts(ids@) == ids_of(all.take(i as int)),
            decreases found@.len() - i,
        {
            proof {
                assert(all.take(i + 1) =~= all.take(i as int).push(found@[i as int]@));
                all.take(i as int).lemma_push_map_commute(|w: WidgetView| w.id, found@[i as int]@);
                ids@.lemma_push_map_commute(|s: String| s@, found@[i as int].id);
            }
            ids.push(found[i].id.clone());
            i += 1;
        }
        assert(all.take(i as int) =~= all);
        ids
    }

    /// Queues `effect` for each of `ids`, in order.
    fn announce_all(&mut self, ids: &Vec<String>, effect: SurfaceEffect)
        ensures
            final(self)@ == (AppStateView {
                actions: old(self)@.actions + announce(texts(ids@), effect),
                ..old(self)@
            }),
    {
        let ghost names = texts(ids@);
        let mut i: usize = 0;
        assert(self@.actions =~= old(self)@.actions + announce(names.take(0), effect));
        while i < ids.len()
            invariant
                i <= ids@.len(),
                names == texts(ids@),
                self@ == (AppStateView {
                    actions: old(self)@.actions + announce(names.take(i as int), effect),
                    ..old(self)@
                }),
            decreases ids@.len() - i,
        {
            let act = SurfaceAction { id: ids[i].clone(), effect };
            proof {
                assert(names.take(i + 1) =~= names.take(i as int).push(names[i as int]));
                names.take(i as int).lemma_push_map_commute(announcer(effect), names[i as int]);
                self.actions@.lemma_push_map_commute(|a: SurfaceAction| a@, act);
                assert(act@ == announcer(effect)(names[i as int]));
            }
            self.actions.push(act);
            assert(self@.actions =~= old(self)@.actions + announce(names.take(i + 1), effect));
            i += 1;
        }
        assert(names.take(i as int) =~= names);
    }

    /// Asks `effect` of every widget that matches `query` and lists their ids.
    fn broadcast(&mut self, query: &QueryArgs, effect: SurfaceEffect) -> (response: String)
        ensures
            final(self)@ == after_effect(old(self)@, *query, effect),
            response@ == listing(old(self)@, *query),
    {
        let ids = self.select_ids(query);
        self.announce_all(&ids, effect);
        join(&ids)
    }

    /// Lists the ids of the widgets that match `query`, one per line.
    pub fn list_widgets(&self, query: &QueryArgs) -> (response: String)
        ensures
            response@ == listing(self@, *query),
    {
        let ids = self.select_ids(query);
        join(&ids)
    }

    /// Hides every widget that matches `query` and lists their ids.
    pub fn hide_widget(&mut self, query: &QueryArgs) -> (response: String)
        ensures
            final(self)@ == after_effect(old(self)@, *query, SurfaceEffect::Hide),
            response@ == listing(old(self)@, *query),
    {
        self.broadcast(query, SurfaceEffect::Hide)
    }

    /// Shows every widget that matches `query` and lists their ids.
    pub fn show_widget(&mut self, query: &QueryArgs) -> (response: String)
        ensures
            final(self)@ == after_effect(old(self)@, *query, SurfaceEffect::Show),
            response@ == listing(old(self)@, *query),
    {
        self.broadcast(query, SurfaceEffect::Show)
    }

    /// Opens the inspector of every widget that matches `query` and lists their ids.
    pub fn inspect_widget(&mut self, query: &QueryArgs) -> (response: String)
        ensures
            final(self)@ == after_effect(old(self)@, *query, SurfaceEffect::Inspect),
            response@ == listing(old(self)@, *query),
    {
        self.broadcast(query, SurfaceEffect::Inspect)
    }

    /// Reloads every widget that matches `query` and lists their ids.
    pub fn reload_widget(&mut self, query: &QueryArgs) -> (response: String)
        ensures
            final(self)@ == after_effect(old(self)@, *query, SurfaceEffect::Reload),
            response@ == listing(old(self)@, *query),
    {
        self.broadcast(query, SurfaceEffect::Reload)
    }
    /// The widget with exactly this id, if there is one.
    pub fn widget(&self, id: &str) -> (found: Option<&Widget>)
        ensures
            match found {
                Some(w) => w.id@ == id@ && self@.widgets.contains(w@),
                None => !ids_of(self@.widgets).contains(id@),
            },
    {
        let mut i: usize = 0;
        while i < self.widgets.len()
            invariant
                i <= self.widgets@.len(),
                forall|k: int| 0 <= k < i ==> ids_of(self@.widgets)[k] != id@,
            decreases self.widgets@.len() - i,
        {
            if crate::text::same_text(self.widgets[i].id.as_str(), id) {
                assert(self@.widgets[i as int] == self.widgets@[i as int]@);
                return Some(&self.widgets[i]);
            }
            i += 1;
        }
        None
    }

    /// The length of the longest id in the registry.
    fn longest_id(&self) -> (length: usize)
        ensures
            length == longest(ids_of(self@.widgets)),
    {
        let ghost ids = ids_of(self@.widgets);
        let mut length: usize = 0;
        let mut i: usize = 0;
        assert(ids.take(0) =~= Seq::<Seq<char>>::empty());
        while i < self.widgets.len()
            invariant
                i <= self.widgets@.len(),
                ids == ids_of(self@.widgets),
                length == longest(ids.take(i as int)),
            decreases self.widgets@.len() - i,
        {
            proof {
                assert(ids.take(i + 1).drop_last() =~= ids.take(i as int));
                assert(ids.take(i + 1).last() == self.widgets@[i as int].id@);
            }
            let l = self.widgets[i].id.as_str().unicode_len();
            if l > length {
                length = l;
            }
            i += 1;
        }
        assert(ids.take(i as int) =~= ids);
        length
    }

    /// An id that no widget in the registry has, made from `candidate`.
    pub fn fresh_id(&self, candidate: String) -> (id: String)
        ensures
            id@ == fresh_from(ids_of(self@.widgets), candidate@),
    {
        if self.widget(candidate.as_str()).is_none() {
            return candidate;
        }
        let ghost ids = ids_of(self@.widgets);
        proof {
            let i = choose|i: int| 0 <= i < self@.widgets.len() && self@.widgets[i].id == candidate@;
            assert(ids[i] == candidate@);
            lemma_longest(ids, i);
        }
        let have: usize = candidate.as_str().unicode_len();
        let short: usize = self.longest_id() - have;
        let mut id = candidate;
        let mut k: usize = 0;
        proof {
            reveal_strlit("0");
            assert("0"@ =~= zeros(1));
        }
        loop
            invariant_except_break
                id@ == candidate@ + zeros(k as nat),
            invariant
                k <= short,
                short == longest(ids) - candidate@.len(),
                "0"@ == zeros(1),
            ensures
                id@ == candidate@ + zeros((short + 1) as nat),
            decreases short - k,
        {
            id.append("0");
            assert(id@ =~= candidate@ + zeros((k + 1) as nat));
            if k == short {
                break;
            }
            k += 1;
        }
        id
    }

    /// Creates a widget under an id made from `candidate` (see `fresh_from`), merges the request
    /// into its initial state, appends it to the registry and hands back its id.
    pub fn add_widget_with_id(
        &mut self,
        candidate: String,
        url: String,
        tags: Vec<String>,
        metadata: &WidgetMetadataArgs,
    ) -> (id: String)
        requires
            old(self).wf(),
        ensures
            final(self).wf(),
            id@ == fresh_from(ids_of(old(self)@.widgets), candidate@),
            final(self)@ == after_create(old(self)@, id@, url@, texts(tags@), *metadata),
    {
        let id = self.fresh_id(candidate);
        proof {
            lemma_fresh_from(ids_of(self@.widgets), candidate@);
        }
        let mut widget = Widget::with_id(id.clone(), url, tags);
        let patch = widget.update(metadata, self.monitors.len());
        let create = widget.act(SurfaceEffect::Create);
        let configure = widget.act(SurfaceEffect::Configure(patch));
        let inject = widget.act(SurfaceEffect::Inject);
        proof {
            let a0 = self.actions@;
            a0.lemma_push_map_commute(|a: SurfaceAction| a@, create);
            a0.push(create).lemma_push_map_commute(|a: SurfaceAction| a@, configure);
            a0.push(create).push(configure).lemma_push_map_commute(|a: SurfaceAction| a@, inject);
            self.widgets@.lemma_push_map_commute(|w: Widget| w@, widget);
        }
        self.actions.push(create);
        self.actions.push(configure);
        self.actions.push(inject);
        self.widgets.push(widget);
        proof {
            let goal = after_create(old(self)@, id@, url@, texts(tags@), *metadata);
            assert(self@.actions =~= goal.actions);
            assert(self@.widgets =~= goal.widgets);
            assert forall|i: int, j: int| 0 <= i < j < self@.widgets.len() implies (
            #[trigger] self@.widgets[i]).id != (#[trigger] self@.widgets[j]).id by {
                if j == self@.widgets.len() - 1 {
                    assert(ids_of(old(self)@.widgets)[i] == self@.widgets[i].id);
                } else {
                    assert(old(self)@.widgets[i] == self@.widgets[i]);
                    assert(old(self)@.widgets[j] == self@.widgets[j]);
                }
            }
        }
        id
    }

    /// Creates a widget under a random id: merges the request into its initial state, appends it
    /// to the registry and hands back its id. The id is made from a random identifier (see
    /// `fresh_from`), so no other widget has it.
    pub fn add_widget(&mut self, url: String, tags: Vec<String>, metadata: &WidgetMetadataArgs) -> (id:
        String)
        requires
            old(self).wf(),
        ensures
            final(self).wf(),
            exists|candidate: Seq<char>|
                is_uuid_text(candidate) && id@ == #[trigger] fresh_from(
                    ids_of(old(self)@.widgets),
                    candidate,
                ),
            id@.len() >= 36,
            !ids_of(old(self)@.widgets).contains(id@),
            final(self)@ == after_create(old(self)@, id@, url@, texts(tags@), *metadata),
    {
        let candidate = random_id();
        proof {
            lemma_fresh_from(ids_of(self@.widgets), candidate@);
        }
        self.add_widget_with_id(candidate, url, tags, metadata)
    }

    /// Merges the request into every widget that matches `query` and lists their ids.
    pub fn update_widget(&mut self, query: &QueryArgs, metadata: &WidgetMetadataArgs) -> (response:
        String)
        requires
            old(self).wf(),
        ensures
            final(self).wf(),
            final(self)@ == after_update(
                old(self)@,
                *query,
                resolved(*metadata, old(self)@.monitors.len() as int),
            ),
            response@ == listing(old(self)@, *query),
    {
        let ghost before = self@.widgets;
        let ghost patch = resolved(*metadata, self@.monitors.len() as int);
        let count = self.monitors.len();
        let mut ids: Vec<String> = Vec::new();
        let mut i: usize = 0;
        proof {
            reveal(Seq::filter);
            assert(before.take(0) =~= Seq::<WidgetView>::empty());
            assert(texts(ids@) =~= ids_of(selected(before.take(0), *query)));
            assert(announce_refresh(Seq::<Seq<char>>::empty(), patch) =~= Seq::<SurfaceActionView>::empty());
            assert(self@.actions =~= old(self)@.actions + announce_refresh(
                ids_of(selected(before.take(0), *query)),
                patch,
            ));
            assert(self@.widgets =~= before.take(0).map_values(patcher(*query, patch)) + before.skip(0));
        }
        while i < self.widgets.len()
            invariant
                i <= before.len(),
                self.widgets@.len() == before.len(),
                before == old(self)@.widgets,
                count == old(self)@.monitors.len() >= 1,
                patch == resolved(*metadata, count as int),
                texts(ids@) == ids_of(selected(before.take(i as int), *query)),
                self@ == (AppStateView {
                    widgets: before.take(i as int).map_values(patcher(*query, patch)) + before.skip(
                        i as int,
                    ),
                    actions: old(self)@.actions + announce_refresh(
                        ids_of(selected(before.take(i as int), *query)),
                        patch,
                    ),
                    ..old(self)@
                }),
            decreases before.len() - i,
        {
            let ghost w = before[i as int];
            let ghost done = selected(before.take(i as int), *query);
            let ghost start = self@.widgets;
            proof {
                assert(self@.widgets[i as int] == w);
                assert(before.take(i + 1) =~= before.take(i as int).push(w));
                before.take(i as int).lemma_filter_push(w, selector(*query));
            }
            if widget_filter(&self.widgets[i], query) {
                let ghost a0 = self.actions@;
                let ghost w0 = self.widgets@;
                let applied = self.widgets[i].update(metadata, count);
                let configure = self.widgets[i].act(SurfaceEffect::Configure(applied));
                let inject = self.widgets[i].act(SurfaceEffect::Inject);
                proof {
                    assert(self.widgets@ =~= w0.update(i as int, self.widgets@[i as int]));
                    assert(self.widgets@[i as int]@ == patcher(*query, patch)(w));
                    assert forall|j: int| 0 <= j < before.len() && j != i implies self@.widgets[j]
                        == start[j] by {
                        assert(self.widgets@[j] == w0[j]);
                    }
                    done.lemma_push_map_commute(|v: WidgetView| v.id, w);
                    ids@.lemma_push_map_commute(|s: String| s@, self.widgets@[i as int].id);
                    ids_of(done).lemma_flat_map_push(refresher(patch), w.id);
                    a0.lemma_push_map_commute(|a: SurfaceAction| a@, configure);
                    a0.push(configure).lemma_push_map_commute(|a: SurfaceAction| a@, inject);
                }
                ids.push(self.widgets[i].id.clone());
                self.actions.push(configure);
                self.actions.push(inject);
                proof {
                    assert(self@.actions =~= old(self)@.actions + announce_refresh(
                        ids_of(selected(before.take(i + 1), *query)),
                        patch,
                    ));
                }
            }
            proof {
                let goal = before.take(i + 1).map_values(patcher(*query, patch)) + before.skip(
                    i + 1,
                );
                assert(self@.widgets[i as int] == patcher(*query, patch)(w));
                assert forall|j: int| 0 <= j < before.len() implies self@.widgets[j] == goal[j] by {
                    if j < i {
                        assert(self@.widgets[j] == start[j]);
                        assert(start[j] == patcher(*query, patch)(before.take(i as int)[j]));
                        assert(goal[j] == patcher(*query, patch)(before.take(i + 1)[j]));
                    } else if j > i {
                        assert(self@.widgets[j] == start[j]);
                        assert(start[j] == before.skip(i as int)[j - i]);
                        assert(goal[j] == before.skip(i + 1)[j - i - 1]);
                    }
                }
                assert(self@.widgets =~= goal);
            }
            i += 1;
        }
        proof {
            assert(before.take(i as int) =~= before);
            assert(self@.widgets =~= before.map_values(patcher(*query, patch)));
            assert forall|a: int, b: int| 0 <= a < b < self@.widgets.len() implies (
            #[trigger] self@.widgets[a]).id != (#[trigger] self@.widgets[b]).id by {
                assert(self@.widgets[a].id == before[a].id);
                assert(self@.widgets[b].id == before[b].id);
            }
        }
        join(&ids)
    }

    /// Deletes every widget that matches `query`, closes their surfaces and lists their ids.
    pub fn delete_widget(&mut self, query: &QueryArgs) -> (response: String)
        requires
            old(self).wf(),
        ensures
            final(self).wf(),
            final(self)@ == after_delete(old(self)@, *query),
            response@ == listing(old(self)@, *query),
    {
        let ghost before = self@.widgets;
        let total: usize = self.widgets.len();
        let mut ids: Vec<String> = Vec::new();
        let mut i: usize = 0;
        let mut removed: usize = 0;
        proof {
            reveal(Seq::filter);
            assert(before.take(0) =~= Seq::<WidgetView>::empty());
            assert(texts(ids@) =~= ids_of(selected(before.take(0), *query)));
            assert(self@.actions =~= old(self)@.actions + announce(
                ids_of(selected(before.take(0), *query)),
                SurfaceEffect::Close,
            ));
            assert(self@.widgets =~= before.take(0).filter(rejector(*query)) + before.skip(0));
        }
        while i < self.widgets.len()
            invariant
                before == old(self)@.widgets,
                before.len() == total,
                i + removed <= before.len(),
                self.widgets@.len() + removed == before.len(),
                i == before.take(i + removed).filter(rejector(*query)).len(),
                unique_ids(self@.widgets),
                texts(ids@) == ids_of(selected(before.take(i + removed), *query)),
                self@ == (AppStateView {
                    widgets: before.take(i + removed).filter(rejector(*query)) + before.skip(
                        i + removed,
                    ),
                    actions: old(self)@.actions + announce(
                        ids_of(selected(before.take(i + removed), *query)),
                        SurfaceEffect::Close,
                    ),
                    ..old(self)@
                }),
            decreases before.len() - i - removed,
        {
            let ghost k = i + removed;
            let ghost w = before[k];
            let ghost done = selected(before.take(k), *query);
            let ghost kept = before.take(k).filter(rejector(*query));
            proof {
                assert(self@.widgets[i as int] == w);
                assert(before.take(k + 1) =~= before.take(k).push(w));
                before.take(k).lemma_filter_push(w, selector(*query));
                before.take(k).lemma_filter_push(w, rejector(*query));
            }
            if widget_filter(&self.widgets[i], query) {
                let ghost a0 = self.actions@;
                let ghost w0 = self@.widgets;
                let ghost e0 = self.widgets@;
                let close = self.widgets[i].close();
                proof {
                    done.lemma_push_map_commute(|v: WidgetView| v.id, w);
                    ids@.lemma_push_map_commute(|s: String| s@, self.widgets@[i as int].id);
                    ids_of(done).lemma_push_map_commute(announcer(SurfaceEffect::Close), w.id);
                    a0.lemma_push_map_commute(|a: SurfaceAction| a@, close);
                }
                ids.push(self.widgets[i].id.clone());
                self.actions.push(close);
                self.widgets.remove(i);
                removed += 1;
                proof {
                    assert(self.widgets@ =~= e0.remove(i as int));
                    assert forall|j: int| 0 <= j < self.widgets@.len() implies self@.widgets[j]
                        == w0.remove(i as int)[j] by {
                        if j < i {
                            assert(self.widgets@[j] == e0[j]);
                        } else {
                            assert(self.widgets@[j] == e0[j + 1]);
                        }
                    }
                    assert(self@.widgets =~= w0.remove(i as int));
                    assert(w0.remove(i as int) =~= kept + before.skip(k + 1));
                    assert forall|a: int, b: int| 0 <= a < b < self@.widgets.len() implies (
                    #[trigger] self@.widgets[a]).id != (#[trigger] self@.widgets[b]).id by {
                        let a1 = if a < i { a } else { a + 1 };
                        let b1 = if b < i { b } else { b + 1 };
                        assert(self@.widgets[a] == w0[a1]);
                        assert(self@.widgets[b] == w0[b1]);
                    }
                    assert(self@.actions =~= old(self)@.actions + announce(
                        ids_of(selected(before.take(k + 1), *query)),
                        SurfaceEffect::Close,
                    ));
                }
            } else {
                proof {
                    assert(self@.widgets =~= kept.push(w) + before.skip(k + 1));
                }
                i += 1;
            }
        }
        proof {
            assert(before.take(i + removed) =~= before);
            assert(self@.widgets =~= before.filter(rejector(*query)));
        }
        join(&ids)
    }

    /// Queues one effect for the surface of the widget `id`.
    pub fn request(&mut self, id: &str, effect: SurfaceEffect)
        ensures
            final(self)@ == (AppStateView {
                actions: old(self)@.actions.push(action(id@, effect)),
                ..old(self)@
            }),
    {
        let act = SurfaceAction { id: id.to_owned(), effect };
        proof {
            self.actions@.lemma_push_map_commute(|a: SurfaceAction| a@, act);
        }
        self.actions.push(act);
    }

    /// Tells the daemon to stop: from now on it is no longer running.
    pub fn kill_application(&mut self)
        ensures
            final(self)@ == after_kill(old(self)@),
    {
        self.running = false;
    }

    /// The daemon's version, then one line for each display output.
    pub fn version(&self) -> (response: String)
        ensures
            response@ == version_text(self@),
    {
        let ghost rows = self@.monitors.map_values(|m: MonitorView| monitor_line(m));
        let mut lines: Vec<String> = Vec::new();
        lines.push(self.version.clone());
        let mut i: usize = 0;
        assert(texts(lines@) =~= seq![self@.version] + rows.take(0));
        while i < self.monitors.len()
            invariant
                i <= self.monitors@.len(),
                rows == self@.monitors.map_values(|m: MonitorView| monitor_line(m)),
                texts(lines@) == seq![self@.version] + rows.take(i as int),
            decreases self.monitors@.len() - i,
        {
            let mut line = "monitor ".to_owned();
            line.append(self.monitors[i].name.as_str());
            line.append(": ");
            line.append(self.monitors[i].model.as_str());
            proof {
                assert(line@ =~= monitor_line(self.monitors@[i as int]@));
                assert(rows[i as int] == monitor_line(self@.monitors[i as int]));
                lines@.lemma_push_map_commute(|s: String| s@, line);
                assert(rows.take(i + 1) =~= rows.take(i as int).push(line@));
            }
            lines.push(line);
            assert(texts(lines@) =~= seq![self@.version] + rows.take(i + 1));
            i += 1;
        }
        assert(rows.take(i as int) =~= rows);
        join(&lines)
    }
}

} // verus!
