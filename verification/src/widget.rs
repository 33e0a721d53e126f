use crate::cli::{WidgetDefaultSize, WidgetMargins, WidgetMetadataArgs};
use crate::surface::{action, SurfaceAction, SurfaceEffect};
use crate::text::{same_text, texts};
use vstd::prelude::*;

verus! {

/// The stacking layer of a surface.
#[derive(Clone, Copy, Debug, PartialEq, Eq)]
pub enum Layer {
    Background,
    Bottom,
    Top,
    Overlay,
}

/// How a surface takes keyboard input.
#[derive(Clone, Copy, Debug, PartialEq, Eq)]
pub enum KeyboardMode {
    Off,
    Exclusive,
    OnDemand,
}

/// An edge of the screen.
#[derive(Clone, Copy, Debug, PartialEq, Eq)]
pub enum Edge {
    Top,
    Right,
    Bottom,
    Left,
}

/// The edges a surface is anchored to.
#[derive(Clone, Copy, Debug, PartialEq, Eq)]
pub struct WidgetMetadataAnchors {
    pub top: bool,
    pub right: bool,
    pub bottom: bool,
    pub left: bool,
}

/// The margin of a surface at each edge.
#[derive(Clone, Copy, Debug, PartialEq, Eq)]
pub struct WidgetMetadataMargins {
    pub top: i32,
    pub right: i32,
    pub bottom: i32,
    pub left: i32,
}

/// The requested size of a surface; `-1` stands for the natural size.
#[derive(Clone, Copy, Debug, PartialEq, Eq)]
pub struct WidgetMetadataSize {
    pub width: i32,
    pub height: i32,
}

/// The presentation state of a widget.
#[derive(Clone, Copy, Debug, PartialEq, Eq)]
pub struct WidgetMetadata {
    pub monitor: Option<i32>,
    pub layer: Option<Layer>,
    pub anchors: WidgetMetadataAnchors,
    pub margins: WidgetMetadataMargins,
    pub size: WidgetMetadataSize,
    pub click_through: bool,
    pub exclusive: bool,
    pub keyboard_mode: Option<KeyboardMode>,
}

/// The attributes that one request sets, with names resolved and the monitor clamped. A field
/// that is `None` is left alone.
#[derive(Clone, Copy, Debug, PartialEq, Eq)]
pub struct MetadataPatch {
    pub monitor: Option<i32>,
    pub layer: Option<Layer>,
    pub anchors: Option<WidgetMetadataAnchors>,
    pub margin_top: Option<i32>,
    pub margin_right: Option<i32>,
    pub margin_bottom: Option<i32>,
    pub margin_left: Option<i32>,
    pub width: Option<i32>,
    pub height: Option<i32>,
    pub click_through: Option<bool>,
    pub exclusive: Option<bool>,
    pub keyboard_mode: Option<KeyboardMode>,
}

/// One managed overlay surface, as the registry knows it.
#[derive(Clone, Debug, PartialEq, Eq)]
pub struct Widget {
    pub id: String,
    pub tags: Vec<String>,
    pub url: String,
    pub metadata: WidgetMetadata,
}

/// A widget as plain values.
pub struct WidgetView {
    pub id: Seq<char>,
    pub tags: Seq<Seq<char>>,
    pub url: Seq<char>,
    pub metadata: WidgetMetadata,
}

impl View for Widget {
    type V = WidgetView;

    open spec fn view(&self) -> WidgetView {
        WidgetView { id: self.id@, tags: texts(self.tags@), url: self.url@, metadata: self.metadata }
    }
}

/// The state of a widget that nothing has been set on.
pub open spec fn initial_metadata() -> WidgetMetadata {
    WidgetMetadata {
        monitor: None,
        layer: None,
        anchors: WidgetMetadataAnchors { top: false, right: false, bottom: false, left: false },
        margins: WidgetMetadataMargins { top: 0, right: 0, bottom: 0, left: 0 },
        size: WidgetMetadataSize { width: -1i32, height: -1i32 },
        click_through: false,
        exclusive: false,
        keyboard_mode: None,
    }
}

/// The monitor index that is stored for a requested one, with `count` monitors attached.
pub open spec fn clamp_monitor(requested: int, count: int) -> int {
    let floor = if requested > 0 {
        requested
    } else {
        0
    };
    if floor < count - 1 {
        floor
    } else {
        count - 1
    }
}

/// The layer that a name stands for; an unknown name stands for the background.
pub open spec fn layer_of(name: Seq<char>) -> Layer {
    if name == "bottom"@ {
        Layer::Bottom
    } else if name == "top"@ {
        Layer::Top
    } else if name == "overlay"@ {
        Layer::Overlay
    } else {
        Layer::Background
    }
}

/// The keyboard mode that a name stands for; an unknown name stands for no keyboard input.
pub open spec fn keyboard_mode_of(name: Seq<char>) -> KeyboardMode {
    if name == "on-demand"@ {
        KeyboardMode::OnDemand
    } else if name == "exclusive"@ {
        KeyboardMode::Exclusive
    } else {
        KeyboardMode::Off
    }
}

/// The edge that a name stands for; an unknown name stands for the top edge.
pub open spec fn edge_of(name: Seq<char>) -> Edge {
    if name == "right"@ {
        Edge::Right
    } else if name == "bottom"@ {
        Edge::Bottom
    } else if name == "left"@ {
        Edge::Left
    } else {
        Edge::Top
    }
}

/// One of `names` stands for `edge`.
pub open spec fn names_edge(names: Seq<Seq<char>>, edge: Edge) -> bool {
    exists|i: int| 0 <= i < names.len() && edge_of(#[trigger] names[i]) == edge
}

/// The anchors that a list of edge names asks for: exactly the named edges.
pub open spec fn anchors_of(names: Seq<Seq<char>>) -> WidgetMetadataAnchors {
    WidgetMetadataAnchors {
        top: names_edge(names, Edge::Top),
        right: names_edge(names, Edge::Right),
        bottom: names_edge(names, Edge::Bottom),
        left: names_edge(names, Edge::Left),
    }
}

/// `value` where it is present, `stored` where it is not.
pub open spec fn or_stored<T>(value: Option<T>, stored: T) -> T {
    match value {
        Some(v) => v,
        None => stored,
    }
}

/// `value` where it is present; where it is not, what is stored, which may be nothing.
pub open spec fn or_keep<T>(value: Option<T>, stored: Option<T>) -> Option<T> {
    match value {
        Some(v) => Some(v),
        None => stored,
    }
}

/// What a request sets, with `count` monitors attached.
pub open spec fn resolved(args: WidgetMetadataArgs, count: int) -> MetadataPatch {
    MetadataPatch {
        monitor: match args.monitor {
            Some(m) => Some(clamp_monitor(m as int, count) as i32),
            None => None,
        },
        layer: match args.layer {
            Some(name) => Some(layer_of(name@)),
            None => None,
        },
        anchors: match args.anchors {
            Some(names) => Some(anchors_of(texts(names@))),
            None => None,
        },
        margin_top: match args.margins {
            Some(m) => m.top,
            None => None,
        },
        margin_right: match args.margins {
            Some(m) => m.right,
            None => None,
        },
        margin_bottom: match args.margins {
            Some(m) => m.bottom,
            None => None,
        },
        margin_left: match args.margins {
            Some(m) => m.left,
            None => None,
        },
        width: match args.size {
            Some(s) => s.width,
            None => None,
        },
        height: match args.size {
            Some(s) => s.height,
            None => None,
        },
        click_through: args.click_through,
        exclusive: args.exclusive,
        keyboard_mode: match args.keyboard_mode {
            Some(name) => Some(keyboard_mode_of(name@)),
            None => None,
        },
    }
}

/// The stored state after `patch`: each attribute that the patch holds takes the patch's value,
/// every other attribute keeps its own.
pub open spec fn merged(stored: WidgetMetadata, patch: MetadataPatch) -> WidgetMetadata {
    WidgetMetadata {
        monitor: or_keep(patch.monitor, stored.monitor),
        layer: or_keep(patch.layer, stored.layer),
        anchors: or_stored(patch.anchors, stored.anchors),
        margins: WidgetMetadataMargins {
            top: or_stored(patch.margin_top, stored.margins.top),
            right: or_stored(patch.margin_right, stored.margins.right),
            bottom: or_stored(patch.margin_bottom, stored.margins.bottom),
            left: or_stored(patch.margin_left, stored.margins.left),
        },
        size: WidgetMetadataSize {
            width: or_stored(patch.width, stored.size.width),
            height: or_stored(patch.height, stored.size.height),
        },
        click_through: or_stored(patch.click_through, stored.click_through),
        exclusive: or_stored(patch.exclusive, stored.exclusive),
        keyboard_mode: or_keep(patch.keyboard_mode, stored.keyboard_mode),
    }
}

/// Idempotence of the merge: a patch applied a second time changes nothing.
pub proof fn lemma_merge_idempotent(stored: WidgetMetadata, patch: MetadataPatch)
    ensures
        merged(merged(stored, patch), patch) == merged(stored, patch),
{
}

/// Idempotence of an update: the same request applied twice, with the same monitors attached,
/// stores what applying it once stores.
pub proof fn lemma_update_idempotent(stored: WidgetMetadata, args: WidgetMetadataArgs, count: int)
    ensures
        merged(merged(stored, resolved(args, count)), resolved(args, count)) == merged(
            stored,
            resolved(args, count),
        ),
{
}

/// Independence of the merge: an attribute that the patch does not hold keeps its stored value,
/// whatever else the patch holds.
pub proof fn lemma_merge_independent(stored: WidgetMetadata, patch: MetadataPatch)
    ensures
        patch.monitor is None ==> merged(stored, patch).monitor == stored.monitor,
        patch.layer is None ==> merged(stored, patch).layer == stored.layer,
        patch.anchors is None ==> merged(stored, patch).anchors == stored.anchors,
        patch.margin_top is None ==> merged(stored, patch).margins.top == stored.margins.top,
        patch.margin_right is None ==> merged(stored, patch).margins.right == stored.margins.right,
        patch.margin_bottom is None ==> merged(stored, patch).margins.bottom
            == stored.margins.bottom,
        patch.margin_left is None ==> merged(stored, patch).margins.left == stored.margins.left,
        patch.width is None ==> merged(stored, patch).size.width == stored.size.width,
        patch.height is None ==> merged(stored, patch).size.height == stored.size.height,
        patch.click_through is None ==> merged(stored, patch).click_through
            == stored.click_through,
        patch.exclusive is None ==> merged(stored, patch).exclusive == stored.exclusive,
        patch.keyboard_mode is None ==> merged(stored, patch).keyboard_mode
            == stored.keyboard_mode,
{
}

/// A request that holds nothing but a top margin.
pub open spec fn only_top_margin(args: WidgetMetadataArgs) -> bool {
    &&& args.monitor is None
    &&& args.layer is None
    &&& args.anchors is None
    &&& args.margins matches Some(m)
    &&& m.right is None
    &&& m.bottom is None
    &&& m.left is None
    &&& args.size is None
    &&& args.click_through is None
    &&& args.exclusive is None
    &&& args.keyboard_mode is None
}

/// Independence of margins: a request that holds only a top margin changes the stored top
/// margin, if it names one, and nothing else.
pub proof fn lemma_top_margin_alone(stored: WidgetMetadata, args: WidgetMetadataArgs, count: int)
    requires
        only_top_margin(args),
    ensures
        merged(stored, resolved(args, count)) == (WidgetMetadata {
            margins: WidgetMetadataMargins {
                top: or_stored(args.margins->0.top, stored.margins.top),
                ..stored.margins
            },
            ..stored
        }),
{
}

/// Clamping: with at least one monitor attached, the stored index is a valid one; a request at
/// or below zero stores zero, and a request at or above the last index stores the last index.
pub proof fn lemma_clamp_monitor(requested: int, count: int)
    requires
        count >= 1,
    ensures
        0 <= clamp_monitor(requested, count) <= count - 1,
        requested <= 0 ==> clamp_monitor(requested, count) == 0,
        requested >= count - 1 ==> clamp_monitor(requested, count) == count - 1,
        0 <= requested <= count - 1 ==> clamp_monitor(requested, count) == requested,
{
}

/// Clamping as an update stores it: the monitor of a request is stored clamped.
pub proof fn lemma_update_clamps_monitor(
    stored: WidgetMetadata,
    args: WidgetMetadataArgs,
    count: int,
)
    requires
        count >= 1,
        args.monitor is Some,
    ensures
        merged(stored, resolved(args, count)).monitor == Some(
            clamp_monitor(args.monitor->0 as int, count) as i32,
        ),
        args.monitor->0 <= 0 ==> merged(stored, resolved(args, count)).monitor == Some(0i32),
        args.monitor->0 >= count - 1 ==> merged(stored, resolved(args, count)).monitor == Some(
            (count - 1) as i32,
        ),
{
}

/// The monitor index to store for a requested one.
pub fn update_monitor(monitor: i32, monitor_count: usize) -> (target: i32)
    requires
        monitor_count >= 1,
    ensures
        target == clamp_monitor(monitor as int, monitor_count as int),
{
    if monitor <= 0 {
        0
    } else if monitor as usize >= monitor_count {
        (monitor_count - 1) as i32
    } else {
        monitor
    }
}

/// The layer that a name stands for.
pub fn update_layer(layer: &str) -> (target: Layer)
    ensures
        target == layer_of(layer@),
{
    if same_text(layer, "bottom") {
        Layer::Bottom
    } else if same_text(layer, "top") {
        Layer::Top
    } else if same_text(layer, "overlay") {
        Layer::Overlay
    } else {
        Layer::Background
    }
}

/// The margins to store: each edge that the request names takes the request's value.
pub fn update_margins(stored: &WidgetMetadataMargins, margins: &WidgetMargins) -> (ret:
    WidgetMetadataMargins)
    ensures
        ret == (WidgetMetadataMargins {
            top: or_stored(margins.top, stored.top),
            right: or_stored(margins.right, stored.right),
            bottom: or_stored(margins.bottom, stored.bottom),
            left: or_stored(margins.left, stored.left),
        }),
{
    let mut ret = *stored;
    if let Some(top) = margins.top {
        ret.top = top;
    }
    if let Some(right) = margins.right {
        ret.right = right;
    }
    if let Some(bottom) = margins.bottom {
        ret.bottom = bottom;
    }
    if let Some(left) = margins.left {
        ret.left = left;
    }
    ret
}

/// The edge that a name stands for.
fn edge_named(name: &str) -> (edge: Edge)
    ensures
        edge == edge_of(name@),
{
    if same_text(name, "right") {
        Edge::Right
    } else if same_text(name, "bottom") {
        Edge::Bottom
    } else if same_text(name, "left") {
        Edge::Left
    } else {
        Edge::Top
    }
}

/// The anchors to store: the edges that `anchors` names, and no others.
pub fn update_anchors(anchors: &Vec<String>) -> (ret: WidgetMetadataAnchors)
    ensures
        ret == anchors_of(texts(anchors@)),
{
    let ghost names = texts(anchors@);
    let mut ret = WidgetMetadataAnchors { top: false, right: false, bottom: false, left: false };
    let mut i: usize = 0;
    while i < anchors.len()
        invariant
            i <= anchors@.len(),
            names == texts(anchors@),
            ret == anchors_of(names.take(i as int)),
        decreases anchors@.len() - i,
    {
        let ghost before = names.take(i as int);
        let ghost after = names.take(i + 1);
        let edge = edge_named(anchors[i].as_str());
        proof {
            assert(after[i as int] == names[i as int]);
            assert forall|e: Edge| names_edge(after, e) == (names_edge(before, e) || e == edge) by {
                if names_edge(before, e) {
                    let j = choose|j: int| 0 <= j < before.len() && edge_of(#[trigger] before[j]) == e;
                    assert(after[j] == before[j]);
                }
                if names_edge(after, e) {
                    let j = choose|j: int| 0 <= j < after.len() && edge_of(#[trigger] after[j]) == e;
                    if j < i {
                        assert(before[j] == after[j]);
                    }
                }
            }
        }
        match edge {
            Edge::Top => {
                ret.top = true;
            },
            Edge::Right => {
                ret.right = true;
            },
            Edge::Bottom => {
                ret.bottom = true;
            },
            Edge::Left => {
                ret.left = true;
            },
        }
        i += 1;
    }
    assert(names.take(i as int) =~= names);
    ret
}

/// The size to store: each dimension that the request names takes the request's value.
pub fn update_size(stored: &WidgetMetadataSize, size: &WidgetDefaultSize) -> (ret:
    WidgetMetadataSize)
    ensures
        ret == (WidgetMetadataSize {
            width: or_stored(size.width, stored.width),
            height: or_stored(size.height, stored.height),
        }),
{
    let mut ret = *stored;
    if let Some(width) = size.width {
        ret.width = width;
    }
    if let Some(height) = size.height {
        ret.height = height;
    }
    ret
}

/// The keyboard mode that a name stands for.
pub fn update_keyboard_mode(keyboard_mode: &str) -> (target: KeyboardMode)
    ensures
        target == keyboard_mode_of(keyboard_mode@),
{
    if same_text(keyboard_mode, "on-demand") {
        KeyboardMode::OnDemand
    } else if same_text(keyboard_mode, "exclusive") {
        KeyboardMode::Exclusive
    } else {
        KeyboardMode::Off
    }
}

/// A lower-case hexadecimal digit.
pub open spec fn is_lower_hex(c: char) -> bool {
    48 <= c as u32 <= 57 || 97 <= c as u32 <= 102
}

/// The form in which a random identifier is written: 36 characters, of which the ninth, the
/// fourteenth, the nineteenth and the twenty-fourth are hyphens and all others lower-case
/// hexadecimal digits.
pub open spec fn is_uuid_text(s: Seq<char>) -> bool {
    &&& s.len() == 36
    &&& forall|i: int|
        0 <= i < 36 ==> if i == 8 || i == 13 || i == 18 || i == 23 {
            s[i] == '-'
        } else {
            is_lower_hex(#[trigger] s[i])
        }
}

/// Asks `uuid::Uuid::new_v4` for a random identifier and writes it the way `Uuid` displays
/// itself, which is its hyphenated lower-case form: 32 hexadecimal digits in groups of 8, 4, 4, 4
/// and 12 with a hyphen between each two groups. Which identifier comes back is left open. The
/// call aborts if the operating system hands out no random bytes.
#[verifier::external_body]
pub(crate) fn random_id() -> (id: String)
    ensures
        is_uuid_text(id@),
{
    uuid::Uuid::new_v4().to_string()
}

impl Widget {
    /// A widget with the given id that nothing has been set on.
    pub fn with_id(id: String, url: String, tags: Vec<String>) -> (widget: Self)
        ensures
            widget@ == (WidgetView {
                id: id@,
                tags: texts(tags@),
                url: url@,
                metadata: initial_metadata(),
            }),
    {
        Widget { id, tags, url, metadata: WidgetMetadata::new() }
    }

    /// A widget with a random id that nothing has been set on.
    pub fn new(url: String, tags: Vec<String>) -> (widget: Self)
        ensures
            widget@ == (WidgetView {
                id: widget.id@,
                tags: texts(tags@),
                url: url@,
                metadata: initial_metadata(),
            }),
            is_uuid_text(widget.id@),
    {
        Widget::with_id(random_id(), url, tags)
    }

    /// Merges a request into the stored state, attribute by attribute, and hands back what was
    /// set, for the surface to follow.
    pub fn update(&mut self, metadata: &WidgetMetadataArgs, monitor_count: usize) -> (patch:
        MetadataPatch)
        requires
            monitor_count >= 1,
        ensures
            patch == resolved(*metadata, monitor_count as int),
            final(self)@ == (WidgetView {
                metadata: merged(old(self).metadata, patch),
                ..old(self)@
            }),
    {
        let mut patch = MetadataPatch {
            monitor: None,
            layer: None,
            anchors: None,
            margin_top: None,
            margin_right: None,
            margin_bottom: None,
            margin_left: None,
            width: None,
            height: None,
            click_through: None,
            exclusive: None,
            keyboard_mode: None,
        };
        if let Some(monitor) = metadata.monitor {
            let target = update_monitor(monitor, monitor_count);
            self.metadata.monitor = Some(target);
            patch.monitor = Some(target);
        }
        if let Some(layer) = &metadata.layer {
            let target = update_layer(layer.as_str());
            self.metadata.layer = Some(target);
            patch.layer = Some(target);
        }
        if let Some(margins) = &metadata.margins {
            self.metadata.margins = update_margins(&self.metadata.margins, margins);
            patch.margin_top = margins.top;
            patch.margin_right = margins.right;
            patch.margin_bottom = margins.bottom;
            patch.margin_left = margins.left;
        }
        if let Some(anchors) = &metadata.anchors {
            let target = update_anchors(anchors);
            self.metadata.anchors = target;
            patch.anchors = Some(target);
        }
        if let Some(size) = &metadata.size {
            self.metadata.size = update_size(&self.metadata.size, size);
            patch.width = size.width;
            patch.height = size.height;
        }
        if let Some(click_through) = metadata.click_through {
            self.metadata.click_through = click_through;
            patch.click_through = Some(click_through);
        }
        if let Some(exclusive) = metadata.exclusive {
            self.metadata.exclusive = exclusive;
            patch.exclusive = Some(exclusive);
        }
        if let Some(keyboard_mode) = &metadata.keyboard_mode {
            let target = update_keyboard_mode(keyboard_mode.as_str());
            self.metadata.keyboard_mode = Some(target);
            patch.keyboard_mode = Some(target);
        }
        patch
    }

    /// The action on this widget's surface with the given effect.
    pub fn act(&self, effect: SurfaceEffect) -> (act: SurfaceAction)
        ensures
            act@ == action(self.id@, effect),
    {
        SurfaceAction { id: self.id.clone(), effect }
    }

    /// The action that shows this widget's surface.
    pub fn show(&self) -> (act: SurfaceAction)
        ensures
            act@ == action(self.id@, SurfaceEffect::Show),
    {
        self.act(SurfaceEffect::Show)
    }

    /// The action that hides this widget's surface.
    pub fn hide_window(&self) -> (act: SurfaceAction)
        ensures
            act@ == action(self.id@, SurfaceEffect::Hide),
    {
        self.act(SurfaceEffect::Hide)
    }

    /// The action that destroys this widget's surface.
    pub fn close(&self) -> (act: SurfaceAction)
        ensures
            act@ == action(self.id@, SurfaceEffect::Close),
    {
        self.act(SurfaceEffect::Close)
    }

    /// The action that reloads the page of this widget's surface.
    pub fn reload(&self) -> (act: SurfaceAction)
        ensures
            act@ == action(self.id@, SurfaceEffect::Reload),
    {
        self.act(SurfaceEffect::Reload)
    }

    /// The action that opens the inspector of this widget's surface.
    pub fn inspect(&self) -> (act: SurfaceAction)
        ensures
            act@ == action(self.id@, SurfaceEffect::Inspect),
    {
        self.act(SurfaceEffect::Inspect)
    }
}

impl WidgetMetadata {
    /// The state of a widget that nothing has been set on.
    pub fn new() -> (metadata: Self)
        ensures
            metadata == initial_metadata(),
    {
        WidgetMetadata {
            monitor: None,
            layer: None,
            anchors: WidgetMetadataAnchors { top: false, right: false, bottom: false, left: false },
            margins: WidgetMetadataMargins { top: 0, right: 0, bottom: 0, left: 0 },
            size: WidgetMetadataSize { width: -1, height: -1 },
            click_through: false,
            exclusive: false,
            keyboard_mode: None,
        }
    }
}

} // verus!
