use crate::widget::MetadataPatch;
use vstd::prelude::*;

verus! {

/// Something to do to the on-screen surface of one widget.
#[derive(Clone, Copy, Debug, PartialEq, Eq)]
pub enum SurfaceEffect {
    /// Create the surface and load the widget's source into it.
    Create,
    /// Apply the attributes that the patch holds.
    Configure(MetadataPatch),
    /// Hand the widget's current state to the page that the surface shows.
    Inject,
    Show,
    Hide,
    Reload,
    /// Open the inspector of the surface.
    Inspect,
    /// Destroy the surface.
    Close,
}

/// An effect on the surface of the widget with the given id.
#[derive(Clone, Debug, PartialEq, Eq)]
pub struct SurfaceAction {
    pub id: String,
    pub effect: SurfaceEffect,
}

/// A surface action as plain values.
pub struct SurfaceActionView {
    pub id: Seq<char>,
    pub effect: SurfaceEffect,
}

impl View for SurfaceAction {
    type V = SurfaceActionView;

    open spec fn view(&self) -> SurfaceActionView {
        SurfaceActionView { id: self.id@, effect: self.effect }
    }
}

/// The actions that a sequence of them holds.
pub open spec fn action_views(actions: Seq<SurfaceAction>) -> Seq<SurfaceActionView> {
    actions.map_values(|a: SurfaceAction| a@)
}

/// The action that applies `effect` to the widget `id`.
pub open spec fn action(id: Seq<char>, effect: SurfaceEffect) -> SurfaceActionView {
    SurfaceActionView { id, effect }
}

/// The action with a fixed effect, as a function of the widget's id.
pub open spec fn announcer(effect: SurfaceEffect) -> spec_fn(Seq<char>) -> SurfaceActionView {
    |id: Seq<char>| action(id, effect)
}

/// One action for each id, in order, all with the same effect.
pub open spec fn announce(ids: Seq<Seq<char>>, effect: SurfaceEffect) -> Seq<SurfaceActionView> {
    ids.map_values(announcer(effect))
}

/// What follows a change of attributes on one surface: the change itself, then the state
/// handed to the page again.
pub open spec fn refresh(id: Seq<char>, patch: MetadataPatch) -> Seq<SurfaceActionView> {
    seq![action(id, SurfaceEffect::Configure(patch)), action(id, SurfaceEffect::Inject)]
}

/// The actions that follow a fixed change, as a function of the widget's id.
pub open spec fn refresher(patch: MetadataPatch) -> spec_fn(Seq<char>) -> Seq<SurfaceActionView> {
    |id: Seq<char>| refresh(id, patch)
}

/// The actions of a change of attributes on each of `ids`, in order.
pub open spec fn announce_refresh(ids: Seq<Seq<char>>, patch: MetadataPatch) -> Seq<
    SurfaceActionView,
> {
    ids.flat_map(refresher(patch))
}

/// The script that hands a widget's serialized state to its page.
pub open spec fn injection_script(state: Seq<char>) -> Seq<char> {
    "window.www = "@ + state + ";"@
}

/// Writes the script that hands `state`, a widget serialized as JSON, to the widget's page.
pub fn inject_javascript(state: &str) -> (script: String)
    ensures
        script@ == injection_script(state@),
{
    let mut script = "window.www = ".to_owned();
    script.append(state);
    script.append(";");
    script
}

} // verus!
