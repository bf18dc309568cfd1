use vstd::prelude::*;
use crate::bounds::{Bounds, offscreen_spec};
use crate::engine::{CommandModel, ScriptModel, SurfaceModel};
use crate::weburl::parsed_url;

verus! {

/// How tabs are backed by native surfaces.
#[derive(Clone, Copy, Debug, PartialEq, Eq, Structural)]
pub enum BackendMode {
    /// One surface per tab.
    MultiInstance,
    /// One surface, switched between tabs; background tabs hold none.
    SharedInstance,
}

/// The lifecycle of a live tab. A closed tab is no longer in the registry.
#[derive(Clone, Copy, Debug, PartialEq, Eq, Structural)]
pub enum Lifecycle {
    /// Created, waiting for the engine to confirm the surface.
    Initializing,
    Active,
    /// Activity paused and surface moved off-screen.
    Frozen,
    /// Shared surface only: a background tab that holds no surface and keeps
    /// a snapshot of its last url and title.
    Parked,
}

/// What the registry knows of one tab.
pub struct TabModel {
    pub state: Lifecycle,
    /// Last known url.
    pub url: Seq<char>,
    /// Last known title.
    pub title: Seq<char>,
    /// A navigation requested while parked, applied on the next switch.
    pub pending_url: Option<Seq<char>>,
    /// Last known visible bounds, as the host layout gave them.
    pub bounds: Bounds,
    /// Whether the host asked for the tab to be hidden.
    pub hidden: bool,
}

/// The registry as a value.
pub struct RegistryModel {
    pub mode: BackendMode,
    pub tabs: Map<Seq<char>, TabModel>,
    /// The tab bound to the shared surface.
    pub foreground: Option<Seq<char>>,
    /// Whether the shared surface exists (or its creation was requested).
    pub surface_live: bool,
}

/// The invariant of the registry: at most one tab per id (by the map), every
/// tab but the foreground one parked under a shared surface, none parked
/// otherwise, and no navigation left pending for the tab in front.
pub open spec fn model_wf(m: RegistryModel) -> bool {
    &&& m.foreground matches Some(f) ==> m.tabs.contains_key(f) && m.tabs[f].pending_url is None
    &&& m.mode == BackendMode::MultiInstance ==> {
        &&& m.foreground is None
        &&& forall|k| #[trigger] m.tabs.contains_key(k) ==> m.tabs[k].state != Lifecycle::Parked
    }
    &&& m.mode == BackendMode::SharedInstance ==> {
        &&& forall|k| #[trigger] m.tabs.contains_key(k) ==>
            (m.tabs[k].state == Lifecycle::Parked <==> m.foreground != Some(k))
        &&& m.foreground is Some ==> m.surface_live
    }
}

/// The empty registry.
pub open spec fn empty_model(mode: BackendMode) -> RegistryModel {
    RegistryModel { mode, tabs: Map::empty(), foreground: None, surface_live: false }
}

pub open spec fn surface_for(m: RegistryModel, id: Seq<char>) -> SurfaceModel {
    match m.mode {
        BackendMode::MultiInstance => SurfaceModel::Tab(id),
        BackendMode::SharedInstance => SurfaceModel::Shared,
    }
}

/// Whether the tab is currently displayed by a live surface.
pub open spec fn holds_surface(m: RegistryModel, id: Seq<char>) -> bool {
    &&& m.tabs.contains_key(id)
    &&& match m.mode {
        BackendMode::MultiInstance => true,
        BackendMode::SharedInstance => m.foreground == Some(id),
    }
}

/// Where the tab's surface is placed: off-screen while frozen or hidden,
/// at its layout bounds otherwise.
pub open spec fn shown(t: TabModel) -> Bounds {
    if t.state == Lifecycle::Frozen || t.hidden {
        offscreen_spec(t.bounds)
    } else {
        t.bounds
    }
}

/// The bounds last applied to the surface that displays the tab, if one does.
pub open spec fn applied_bounds(m: RegistryModel, id: Seq<char>) -> Option<Bounds> {
    if holds_surface(m, id) {
        Some(shown(m.tabs[id]))
    } else {
        None
    }
}

/// The tab whose surface emitted an event, if it is live.
pub open spec fn tab_of_surface(m: RegistryModel, s: SurfaceModel) -> Option<Seq<char>> {
    match (m.mode, s) {
        (BackendMode::MultiInstance, SurfaceModel::Tab(id)) => if m.tabs.contains_key(id) {
            Some(id)
        } else {
            None
        },
        (BackendMode::SharedInstance, SurfaceModel::Shared) => m.foreground,
        _ => None,
    }
}

pub open spec fn with_tab(m: RegistryModel, id: Seq<char>, t: TabModel) -> RegistryModel {
    RegistryModel { tabs: m.tabs.insert(id, t), ..m }
}

/// A bounds command, unless the surface is already where it should be.
pub open spec fn move_commands(m: RegistryModel, id: Seq<char>, before: Bounds, after: Bounds) -> Seq<
    CommandModel,
> {
    if before == after {
        seq![]
    } else {
        seq![CommandModel::SetBounds { surface: surface_for(m, id), bounds: after }]
    }
}

/// The outgoing foreground tab, if any, becomes parked.
pub open spec fn park_foreground(m: RegistryModel) -> Map<Seq<char>, TabModel> {
    match m.foreground {
        Some(f) => if m.tabs.contains_key(f) {
            m.tabs.insert(f, TabModel { state: Lifecycle::Parked, ..m.tabs[f] })
        } else {
            m.tabs
        },
        None => m.tabs,
    }
}

/// A successful create of a new tab `id` at the parsed url `href`.
pub open spec fn create_spec(m: RegistryModel, id: Seq<char>, href: Seq<char>, b: Bounds) -> (
    RegistryModel,
    Seq<CommandModel>,
) {
    let t = TabModel {
        state: Lifecycle::Initializing,
        url: href,
        title: seq![],
        pending_url: None,
        bounds: b,
        hidden: false,
    };
    match m.mode {
        BackendMode::MultiInstance => (
            with_tab(m, id, t),
            seq![CommandModel::CreateSurface { surface: SurfaceModel::Tab(id), url: href, bounds: b }],
        ),
        BackendMode::SharedInstance => (
            RegistryModel {
                tabs: park_foreground(m).insert(id, t),
                foreground: Some(id),
                surface_live: true,
                ..m
            },
            if m.surface_live {
                seq![
                    CommandModel::Navigate { surface: SurfaceModel::Shared, url: href },
                    CommandModel::SetBounds { surface: SurfaceModel::Shared, bounds: b },
                ]
            } else {
                seq![CommandModel::CreateSurface { surface: SurfaceModel::Shared, url: href, bounds: b }]
            },
        ),
    }
}

/// The tab is dropped; a surface it holds is released.
pub open spec fn close_spec(m: RegistryModel, id: Seq<char>) -> (RegistryModel, Seq<CommandModel>) {
    if !m.tabs.contains_key(id) {
        (m, seq![])
    } else if m.mode == BackendMode::MultiInstance {
        (
            RegistryModel { tabs: m.tabs.remove(id), ..m },
            seq![CommandModel::CloseSurface { surface: SurfaceModel::Tab(id) }],
        )
    } else if m.foreground == Some(id) {
        (
            RegistryModel {
                tabs: m.tabs.remove(id),
                foreground: None,
                surface_live: false,
                ..m
            },
            seq![CommandModel::CloseSurface { surface: SurfaceModel::Shared }],
        )
    } else {
        (RegistryModel { tabs: m.tabs.remove(id), ..m }, seq![])
    }
}

/// Whether the tab waits for the engine's answer to its create.
pub open spec fn awaits_confirm(m: RegistryModel, id: Seq<char>) -> bool {
    m.tabs.contains_key(id) && m.tabs[id].state == Lifecycle::Initializing
}

/// The tab alone is dropped, with the shared surface it was being shown in.
pub open spec fn drop_created(m: RegistryModel, id: Seq<char>) -> RegistryModel {
    if m.mode == BackendMode::MultiInstance {
        RegistryModel { tabs: m.tabs.remove(id), ..m }
    } else {
        RegistryModel { tabs: m.tabs.remove(id), foreground: None, surface_live: false, ..m }
    }
}

/// The engine's answer to a create. Success makes the tab active. Failure
/// undoes the create: where `before`, the state kept from before the step
/// still outstanding, is the state before this tab's create (it has no such
/// tab), the registry goes back to it; otherwise the tab alone is dropped.
pub open spec fn confirm_spec(m: RegistryModel, before: Option<RegistryModel>, id: Seq<char>, ok: bool) -> RegistryModel {
    if !awaits_confirm(m, id) {
        m
    } else if ok {
        with_tab(m, id, TabModel { state: Lifecycle::Active, ..m.tabs[id] })
    } else {
        match before {
            Some(b) => if !b.tabs.contains_key(id) {
                b
            } else {
                drop_created(m, id)
            },
            None => drop_created(m, id),
        }
    }
}

/// What `create` does: refuse a live id, then a text that is not an
/// absolute URL, and otherwise open the tab.
pub enum CreateOutcome {
    AlreadyExists,
    InvalidUrl,
    Created(RegistryModel, Seq<CommandModel>),
}

pub open spec fn create_outcome(m: RegistryModel, id: Seq<char>, text: Seq<char>, b: Bounds) -> CreateOutcome {
    if m.tabs.contains_key(id) {
        CreateOutcome::AlreadyExists
    } else {
        match parsed_url(text) {
            None => CreateOutcome::InvalidUrl,
            Some(p) => {
                let (m2, c) = create_spec(m, id, p.1, b);
                CreateOutcome::Created(m2, c)
            },
        }
    }
}

/// Whether a confirm reports a failed create.
pub open spec fn confirm_fails(m: RegistryModel, id: Seq<char>, ok: bool) -> bool {
    m.tabs.contains_key(id) && m.tabs[id].state == Lifecycle::Initializing && !ok
}

/// Navigation of a live tab to the parsed url `href`: a displayed tab goes
/// there now, a parked one on its next switch.
pub open spec fn navigate_spec(m: RegistryModel, id: Seq<char>, href: Seq<char>) -> (
    RegistryModel,
    Seq<CommandModel>,
) {
    if !m.tabs.contains_key(id) {
        (m, seq![])
    } else if holds_surface(m, id) {
        (
            with_tab(m, id, TabModel { url: href, ..m.tabs[id] }),
            seq![CommandModel::Navigate { surface: surface_for(m, id), url: href }],
        )
    } else {
        (with_tab(m, id, TabModel { pending_url: Some(href), ..m.tabs[id] }), seq![])
    }
}

/// A script runs only where a surface displays the tab.
pub open spec fn eval_spec(m: RegistryModel, id: Seq<char>, script: ScriptModel) -> Seq<CommandModel> {
    if holds_surface(m, id) {
        seq![CommandModel::Eval { surface: surface_for(m, id), script }]
    } else {
        seq![]
    }
}

/// New layout bounds: recorded, and applied where they move the surface.
pub open spec fn set_bounds_spec(m: RegistryModel, id: Seq<char>, b: Bounds) -> (
    RegistryModel,
    Seq<CommandModel>,
) {
    if !m.tabs.contains_key(id) {
        (m, seq![])
    } else {
        let t = m.tabs[id];
        let t2 = TabModel { bounds: b, ..t };
        (
            with_tab(m, id, t2),
            if holds_surface(m, id) {
                move_commands(m, id, shown(t), shown(t2))
            } else {
                seq![]
            },
        )
    }
}

/// Hiding moves the surface off-screen without pausing anything.
pub open spec fn set_visible_spec(m: RegistryModel, id: Seq<char>, visible: bool) -> (
    RegistryModel,
    Seq<CommandModel>,
) {
    if !m.tabs.contains_key(id) {
        (m, seq![])
    } else {
        let t = m.tabs[id];
        let t2 = TabModel { hidden: !visible, ..t };
        (
            with_tab(m, id, t2),
            if holds_surface(m, id) {
                move_commands(m, id, shown(t), shown(t2))
            } else {
                seq![]
            },
        )
    }
}

/// An active tab is frozen: its content is paused and its surface moved
/// off-screen. Any other tab is left as it is.
pub open spec fn freeze_spec(m: RegistryModel, id: Seq<char>) -> (RegistryModel, Seq<CommandModel>) {
    if !m.tabs.contains_key(id) || m.tabs[id].state != Lifecycle::Active {
        (m, seq![])
    } else {
        let t = m.tabs[id];
        let t2 = TabModel { state: Lifecycle::Frozen, ..t };
        (
            with_tab(m, id, t2),
            seq![CommandModel::Eval { surface: surface_for(m, id), script: ScriptModel::Freeze }]
                + move_commands(m, id, shown(t), shown(t2)),
        )
    }
}

/// A frozen tab is resumed and put back at its visible bounds. Any other tab
/// is left as it is.
pub open spec fn unfreeze_spec(m: RegistryModel, id: Seq<char>) -> (RegistryModel, Seq<CommandModel>) {
    if !m.tabs.contains_key(id) || m.tabs[id].state != Lifecycle::Frozen {
        (m, seq![])
    } else {
        let t = m.tabs[id];
        let t2 = TabModel { state: Lifecycle::Active, ..t };
        (
            with_tab(m, id, t2),
            seq![CommandModel::Eval { surface: surface_for(m, id), script: ScriptModel::Unfreeze }]
                + move_commands(m, id, shown(t), shown(t2)),
        )
    }
}

/// The url a parked tab shows when it comes to the foreground.
pub open spec fn resume_url(t: TabModel) -> Seq<char> {
    match t.pending_url {
        Some(p) => p,
        None => t.url,
    }
}

/// Shared surface: the foreground tab is parked with its snapshot, and the
/// surface is pointed at the incoming tab's url and bounds.
pub open spec fn switch_spec(m: RegistryModel, id: Seq<char>) -> (RegistryModel, Seq<CommandModel>) {
    if m.mode != BackendMode::SharedInstance || !m.tabs.contains_key(id) || m.foreground == Some(id) {
        (m, seq![])
    } else {
        let t = m.tabs[id];
        let target = resume_url(t);
        let t2 = TabModel { state: Lifecycle::Active, url: target, pending_url: None, ..t };
        (
            RegistryModel {
                tabs: park_foreground(m).insert(id, t2),
                foreground: Some(id),
                surface_live: true,
                ..m
            },
            if m.surface_live {
                seq![
                    CommandModel::Navigate { surface: SurfaceModel::Shared, url: target },
                    CommandModel::SetBounds { surface: SurfaceModel::Shared, bounds: shown(t2) },
                ]
            } else {
                seq![
                    CommandModel::CreateSurface {
                        surface: SurfaceModel::Shared,
                        url: target,
                        bounds: shown(t2),
                    },
                ]
            },
        )
    }
}

/// The engine reports a new url for the tab it displays.
pub open spec fn url_changed_spec(m: RegistryModel, s: SurfaceModel, url: Seq<char>) -> RegistryModel {
    match tab_of_surface(m, s) {
        Some(id) => with_tab(m, id, TabModel { url, ..m.tabs[id] }),
        None => m,
    }
}

/// The engine reports a new title for the tab it displays.
pub open spec fn title_changed_spec(m: RegistryModel, s: SurfaceModel, title: Seq<char>) -> RegistryModel {
    match tab_of_surface(m, s) {
        Some(id) => with_tab(m, id, TabModel { title, ..m.tabs[id] }),
        None => m,
    }
}

} // verus!

verus! {

/// Replacing a live tab by one that is parked exactly when it was keeps the
/// invariant.
pub proof fn lemma_with_tab_wf(m: RegistryModel, id: Seq<char>, t: TabModel)
    requires
        model_wf(m),
        m.tabs.contains_key(id),
        (t.state == Lifecycle::Parked) == (m.tabs[id].state == Lifecycle::Parked),
        m.foreground == Some(id) ==> t.pending_url is None,
    ensures
        model_wf(with_tab(m, id, t)),
{
    let m2 = with_tab(m, id, t);
    assert forall|k| #[trigger] m2.tabs.contains_key(k) implies m.tabs.contains_key(k) by {}
}

} // verus!
