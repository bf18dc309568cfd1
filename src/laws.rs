use vstd::prelude::*;
use crate::bounds::Bounds;
use crate::engine::{CommandModel, ScriptModel, SurfaceModel};
use crate::model::{
    BackendMode, CreateOutcome, Lifecycle, RegistryModel, applied_bounds, close_spec, confirm_fails,
    confirm_spec, create_outcome, create_spec, eval_spec, freeze_spec, model_wf, navigate_spec,
    resume_url, set_bounds_spec, set_visible_spec, surface_for, switch_spec, tab_of_surface,
    title_changed_spec, unfreeze_spec, url_changed_spec,
};

verus! {

/// Once a tab is closed, its id is unknown: every later operation on it other
/// than `create` leaves the registry as it is and asks nothing of the engine,
/// and no surface reports on its behalf.
pub proof fn law_closed_tab_is_forgotten(
    m: RegistryModel,
    t: Seq<char>,
    href: Seq<char>,
    b: Bounds,
    visible: bool,
    ok: bool,
    script: ScriptModel,
    s: SurfaceModel,
    text: Seq<char>,
    before: Option<RegistryModel>,
)
    requires
        model_wf(m),
    ensures
        ({
            let m1 = close_spec(m, t).0;
            &&& !m1.tabs.contains_key(t)
            &&& close_spec(m1, t) == (m1, Seq::<CommandModel>::empty())
            &&& navigate_spec(m1, t, href) == (m1, Seq::<CommandModel>::empty())
            &&& set_bounds_spec(m1, t, b) == (m1, Seq::<CommandModel>::empty())
            &&& set_visible_spec(m1, t, visible) == (m1, Seq::<CommandModel>::empty())
            &&& freeze_spec(m1, t) == (m1, Seq::<CommandModel>::empty())
            &&& unfreeze_spec(m1, t) == (m1, Seq::<CommandModel>::empty())
            &&& switch_spec(m1, t) == (m1, Seq::<CommandModel>::empty())
            &&& eval_spec(m1, t, script) == Seq::<CommandModel>::empty()
            &&& confirm_spec(m1, before, t, ok) == m1 && !confirm_fails(m1, t, ok)
            &&& applied_bounds(m1, t) is None
            &&& tab_of_surface(m1, s) != Some(t)
            &&& !(create_outcome(m1, t, text, b) is AlreadyExists)
        }),
{
}

/// Freezing twice is freezing once, and so is unfreezing twice.
pub proof fn law_freeze_idempotent(m: RegistryModel, t: Seq<char>)
    ensures
        freeze_spec(freeze_spec(m, t).0, t) == (freeze_spec(m, t).0, Seq::<CommandModel>::empty()),
        unfreeze_spec(unfreeze_spec(m, t).0, t) == (
            unfreeze_spec(m, t).0,
            Seq::<CommandModel>::empty(),
        ),
{
}

/// Freezing a tab that is not frozen and then unfreezing it puts its surface
/// back at the bounds it had before; an active tab comes back exactly as it
/// was.
pub proof fn law_freeze_then_unfreeze_restores(m: RegistryModel, t: Seq<char>)
    requires
        m.tabs.contains_key(t) ==> m.tabs[t].state != Lifecycle::Frozen,
    ensures
        applied_bounds(unfreeze_spec(freeze_spec(m, t).0, t).0, t) == applied_bounds(m, t),
        m.tabs.contains_key(t) && m.tabs[t].state == Lifecycle::Active ==> unfreeze_spec(
            freeze_spec(m, t).0,
            t,
        ).0 == m,
{
    if m.tabs.contains_key(t) && m.tabs[t].state == Lifecycle::Active {
        let m2 = unfreeze_spec(freeze_spec(m, t).0, t).0;
        assert(m2.tabs =~= m.tabs);
    }
}

/// After a tab is created at bounds `b1` and given bounds `b2`, the surface
/// that displays it was last placed at `b2`.
pub proof fn law_set_bounds_after_create(m: RegistryModel, t: Seq<char>, href: Seq<char>, b1: Bounds, b2: Bounds)
    requires
        !m.tabs.contains_key(t),
    ensures
        ({
            let m1 = create_spec(m, t, href, b1).0;
            let (m2, c2) = set_bounds_spec(m1, t, b2);
            &&& applied_bounds(m2, t) == Some(b2)
            &&& c2 == if b1 == b2 {
                Seq::<CommandModel>::empty()
            } else {
                seq![CommandModel::SetBounds { surface: surface_for(m, t), bounds: b2 }]
            }
        }),
{
}

/// Shared surface: bringing `b` to the front while `a` is there parks `a`
/// with its last url and title and points the surface at `b`'s url;
/// bringing `a` back points the surface at `a`'s url again.
pub proof fn law_switch_keeps_snapshots(m: RegistryModel, a: Seq<char>, b: Seq<char>)
    requires
        model_wf(m),
        m.mode == BackendMode::SharedInstance,
        m.foreground == Some(a),
        m.tabs.contains_key(b),
        a != b,
    ensures
        ({
            let (m1, c1) = switch_spec(m, b);
            let (m2, c2) = switch_spec(m1, a);
            &&& m1.foreground == Some(b)
            &&& m1.tabs[a].state == Lifecycle::Parked
            &&& m1.tabs[a].url == m.tabs[a].url
            &&& m1.tabs[a].title == m.tabs[a].title
            &&& c1[0] == CommandModel::Navigate { surface: SurfaceModel::Shared, url: resume_url(m.tabs[b]) }
            &&& m2.foreground == Some(a)
            &&& c2[0] == CommandModel::Navigate { surface: SurfaceModel::Shared, url: m.tabs[a].url }
        }),
{
}

/// A create the engine fails, answered while it is the outstanding step,
/// leaves the registry exactly as it was before the create: with a shared
/// surface, the tab that was in front is in front again, as it was.
pub proof fn law_failed_create_rolls_back(m: RegistryModel, t: Seq<char>, href: Seq<char>, b: Bounds)
    requires
        !m.tabs.contains_key(t),
    ensures
        confirm_spec(create_spec(m, t, href, b).0, Some(m), t, false) == m,
{
}

/// A second create of a live id is refused: nothing changes and no surface
/// is asked for.
pub proof fn law_second_create_refused(
    m: RegistryModel,
    t: Seq<char>,
    text: Seq<char>,
    b: Bounds,
    text2: Seq<char>,
    b2: Bounds,
)
    requires
        create_outcome(m, t, text, b) is Created,
    ensures
        create_outcome(create_outcome(m, t, text, b)->Created_0, t, text2, b2) == CreateOutcome::AlreadyExists,
{
}

/// Engine reports change nothing but the url or title of the tab they
/// concern.
pub proof fn law_reports_touch_one_tab(m: RegistryModel, s: SurfaceModel, text: Seq<char>, k: Seq<char>)
    requires
        model_wf(m),
        m.tabs.contains_key(k),
        tab_of_surface(m, s) != Some(k),
    ensures
        url_changed_spec(m, s, text).tabs[k] == m.tabs[k],
        title_changed_spec(m, s, text).tabs[k] == m.tabs[k],
{
}

} // verus!
