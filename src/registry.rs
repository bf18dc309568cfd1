use vstd::prelude::*;
use crate::bounds::Bounds;
use crate::engine::{EngineCommand, HostEvent, Script, SurfaceId, commands_view};
use crate::error::AppError;
use crate::model::{
    BackendMode, CreateOutcome, Lifecycle, create_outcome, RegistryModel, TabModel, applied_bounds, close_spec, confirm_fails,
    awaits_confirm, confirm_spec, create_spec, empty_model, eval_spec, freeze_spec, holds_surface,
    lemma_with_tab_wf, model_wf, navigate_spec, park_foreground, set_bounds_spec,
    set_visible_spec, shown, surface_for, switch_spec, tab_of_surface, title_changed_spec,
    unfreeze_spec, url_changed_spec, with_tab,
};
use crate::engine::EventModel;
use crate::weburl::{WebUrl, parsed_url};

verus! {

pub open spec fn opt_str_view(o: Option<String>) -> Option<Seq<char>> {
    match o {
        Some(s) => Some(s@),
        None => None,
    }
}

/// One live tab.
struct TabHandle {
    id: String,
    state: Lifecycle,
    url: String,
    title: String,
    pending_url: Option<String>,
    bounds: Bounds,
    hidden: bool,
}

impl View for TabHandle {
    type V = TabModel;

    closed spec fn view(&self) -> TabModel {
        TabModel {
            state: self.state,
            url: self.url@,
            title: self.title@,
            pending_url: opt_str_view(self.pending_url),
            bounds: self.bounds,
            hidden: self.hidden,
        }
    }
}

fn copy_text(o: &Option<String>) -> (r: Option<String>)
    ensures
        r == *o,
{
    match o {
        Some(s) => Some(s.clone()),
        None => None,
    }
}

fn copy_handle(h: &TabHandle) -> (r: TabHandle)
    ensures
        r == *h,
{
    TabHandle {
        id: h.id.clone(),
        state: h.state,
        url: h.url.clone(),
        title: h.title.clone(),
        pending_url: copy_text(&h.pending_url),
        bounds: h.bounds,
        hidden: h.hidden,
    }
}

/// A copy of the registry's state, kept so that a step the engine failed
/// can be undone.
struct Saved {
    tabs: Vec<TabHandle>,
    foreground: Option<String>,
    surface_live: bool,
    model: Ghost<Map<Seq<char>, TabModel>>,
}

/// The vector of handles holds exactly the tabs of the model, one per id.
spec fn vec_links(tabs: Seq<TabHandle>, model: Map<Seq<char>, TabModel>) -> bool {
    &&& forall|i: int|
        0 <= i < tabs.len() ==> #[trigger] model.contains_key(tabs[i].id@) && model[tabs[i].id@]
            == tabs[i]@
    &&& forall|k: Seq<char>| #[trigger]
        model.contains_key(k) ==> exists|i: int| 0 <= i < tabs.len() && #[trigger] tabs[i].id@ == k
    &&& forall|i: int, j: int|
        0 <= i < tabs.len() && 0 <= j < tabs.len() && #[trigger] tabs[i].id@ == #[trigger] tabs[j].id@
            ==> i == j
}

spec fn saved_view(mode: BackendMode, s: Saved) -> RegistryModel {
    RegistryModel {
        mode,
        tabs: s.model@,
        foreground: opt_str_view(s.foreground),
        surface_live: s.surface_live,
    }
}

/// The index of the tab `id` in a vector of handles, if it is there.
fn find_in(tabs: &Vec<TabHandle>, Ghost(model): Ghost<Map<Seq<char>, TabModel>>, id: &String) -> (r:
    Option<usize>)
    requires
        vec_links(tabs@, model),
    ensures
        r matches Some(i) ==> i < tabs@.len() && tabs@[i as int].id@ == id@,
        r is None <==> !model.contains_key(id@),
{
    let mut i: usize = 0;
    while i < tabs.len()
        invariant
            vec_links(tabs@, model),
            i <= tabs@.len(),
            forall|j: int| 0 <= j < i ==> tabs@[j].id@ != id@,
        decreases tabs@.len() - i,
    {
        if tabs[i].id == *id {
            return Some(i);
        }
        i = i + 1;
    }
    proof {
        if model.contains_key(id@) {
            let j = choose|j: int| 0 <= j < tabs@.len() && #[trigger] tabs@[j].id@ == id@;
            assert(tabs@[j].id@ == id@);
        }
    }
    None
}

/// The single source of truth for which tabs exist and what backs them.
pub struct TabRegistry {
    mode: BackendMode,
    tabs: Vec<TabHandle>,
    foreground: Option<String>,
    surface_live: bool,
    model: Ghost<Map<Seq<char>, TabModel>>,
    /// The state before the last step that asked something of the engine,
    /// until the engine's answer to that step is reported.
    saved: Option<Saved>,
}

impl View for TabRegistry {
    type V = RegistryModel;

    closed spec fn view(&self) -> RegistryModel {
        RegistryModel {
            mode: self.mode,
            tabs: self.model@,
            foreground: opt_str_view(self.foreground),
            surface_live: self.surface_live,
        }
    }
}

impl TabRegistry {
    closed spec fn links(&self) -> bool {
        vec_links(self.tabs@, self.model@)
    }

    /// The state a failed engine step rolls back to: the state before the
    /// last step that sent engine commands, while its answer is outstanding.
    pub closed spec fn before(&self) -> Option<RegistryModel> {
        match self.saved {
            Some(s) => Some(saved_view(self.mode, s)),
            None => None,
        }
    }

    /// The registry's invariant.
    pub closed spec fn wf(&self) -> bool {
        &&& self.links()
        &&& model_wf(self@)
        &&& self.saved matches Some(s) ==> vec_links(s.tabs@, s.model@) && model_wf(
            saved_view(self.mode, s),
        )
    }

    /// A well-formed registry's model meets the registry invariant.
    pub proof fn lemma_model_wf(&self)
        requires
            self.wf(),
        ensures
            model_wf(self@),
    {
    }

    /// An empty registry for the given backend.
    pub fn new(mode: BackendMode) -> (r: TabRegistry)
        ensures
            r.wf(),
            r@ == empty_model(mode),
            r.before() is None,
    {
        let r = TabRegistry {
            mode,
            tabs: Vec::new(),
            foreground: None,
            surface_live: false,
            model: Ghost(Map::empty()),
            saved: None,
        };
        assert(r@.tabs =~= Map::empty());
        r
    }

    /// The index of the tab `id`, if it is live.
    fn find(&self, id: &String) -> (r: Option<usize>)
        requires
            self.links(),
        ensures
            r matches Some(i) ==> i < self.tabs@.len() && self.tabs@[i as int].id@ == id@,
            r is None <==> !self@.tabs.contains_key(id@),
    {
        find_in(&self.tabs, Ghost(self.model@), id)
    }

    /// A copy of the current state.
    fn save(&self) -> (r: Saved)
        requires
            self.links(),
        ensures
            vec_links(r.tabs@, r.model@),
            saved_view(self.mode, r) == self@,
    {
        let mut tabs: Vec<TabHandle> = Vec::new();
        let mut i: usize = 0;
        while i < self.tabs.len()
            invariant
                i <= self.tabs@.len(),
                tabs@ =~= self.tabs@.subrange(0, i as int),
            decreases self.tabs@.len() - i,
        {
            tabs.push(copy_handle(&self.tabs[i]));
            i = i + 1;
        }
        assert(tabs@ =~= self.tabs@);
        Saved {
            tabs,
            foreground: copy_text(&self.foreground),
            surface_live: self.surface_live,
            model: Ghost(self.model@),
        }
    }

    /// Keeps `s`, the state before a step, when the step sent commands.
    fn remember(&mut self, s: Saved, sent: bool)
        requires
            old(self).wf(),
            vec_links(s.tabs@, s.model@),
            model_wf(saved_view(old(self).mode, s)),
        ensures
            final(self).wf(),
            final(self)@ == old(self)@,
            final(self).before() == (if sent {
                Some(saved_view(old(self).mode, s))
            } else {
                old(self).before()
            }),
    {
        if sent {
            self.saved = Some(s);
        }
    }

    /// Puts back a saved state.
    fn restore(&mut self, s: Saved)
        requires
            vec_links(s.tabs@, s.model@),
            model_wf(saved_view(old(self).mode, s)),
        ensures
            final(self).wf(),
            final(self)@ == saved_view(old(self).mode, s),
            final(self).before() is None,
    {
        self.tabs = s.tabs;
        self.foreground = s.foreground;
        self.surface_live = s.surface_live;
        self.model = s.model;
        self.saved = None;
    }

    /// Replaces the handle at `i` with one of the same id.
    fn set_tab(&mut self, i: usize, h: TabHandle)
        requires
            old(self).links(),
            i < old(self).tabs@.len(),
            h.id@ == old(self).tabs@[i as int].id@,
        ensures
            final(self).links(),
            final(self).saved == old(self).saved,
            final(self).mode == old(self).mode,
            final(self)@ == with_tab(old(self)@, h.id@, h@),
            final(self).tabs@.len() == old(self).tabs@.len(),
    {
        let ghost k = h.id@;
        self.tabs.set(i, h);
        self.model = Ghost(self.model@.insert(k, self.tabs@[i as int]@));
        assert forall|k2: Seq<char>| #[trigger] self.model@.contains_key(k2) implies exists|j: int|
            0 <= j < self.tabs@.len() && #[trigger] self.tabs@[j].id@ == k2 by {
            if k2 == k {
                assert(self.tabs@[i as int].id@ == k2);
            } else {
                assert(old(self).model@.contains_key(k2));
                let j = choose|j: int| 0 <= j < old(self).tabs@.len() && #[trigger] old(self).tabs@[j].id@ == k2;
                assert(self.tabs@[j].id@ == k2);
            }
        }
        assert(self@ =~= with_tab(old(self)@, k, self.tabs@[i as int]@));
    }

    /// Adds a handle whose id is not live.
    fn push_tab(&mut self, h: TabHandle)
        requires
            old(self).links(),
            !old(self)@.tabs.contains_key(h.id@),
        ensures
            final(self).links(),
            final(self).saved == old(self).saved,
            final(self).mode == old(self).mode,
            final(self)@ == with_tab(old(self)@, h.id@, h@),
    {
        let ghost k = h.id@;
        let ghost v = h@;
        self.tabs.push(h);
        self.model = Ghost(self.model@.insert(k, v));
        let ghost n = self.tabs@.len() - 1;
        assert(self.tabs@[n].id@ == k);
        assert forall|k2: Seq<char>| #[trigger] self.model@.contains_key(k2) implies exists|j: int|
            0 <= j < self.tabs@.len() && #[trigger] self.tabs@[j].id@ == k2 by {
            if k2 == k {
                assert(self.tabs@[n].id@ == k2);
            } else {
                assert(old(self).model@.contains_key(k2));
                let j = choose|j: int| 0 <= j < old(self).tabs@.len() && #[trigger] old(self).tabs@[j].id@ == k2;
                assert(self.tabs@[j].id@ == k2);
            }
        }
        assert forall|i: int|
            0 <= i < self.tabs@.len() implies #[trigger] self.model@.contains_key(self.tabs@[i].id@)
                && self.model@[self.tabs@[i].id@] == self.tabs@[i]@ by {
            if i < n {
                assert(old(self).model@.contains_key(old(self).tabs@[i].id@));
            }
        }
        assert(self@ =~= with_tab(old(self)@, k, v));
    }

    /// Drops the handle at `i`.
    fn remove_tab(&mut self, i: usize)
        requires
            old(self).links(),
            i < old(self).tabs@.len(),
        ensures
            final(self).links(),
            final(self).saved == old(self).saved,
            final(self).mode == old(self).mode,
            final(self)@ == (RegistryModel { tabs: old(self)@.tabs.remove(old(self).tabs@[i as int].id@), ..old(self)@ }),
    {
        let ghost k = self.tabs@[i as int].id@;
        let ghost s0 = self.tabs@;
        let _h = self.tabs.remove(i);
        self.model = Ghost(self.model@.remove(k));
        assert forall|k2: Seq<char>| #[trigger] self.model@.contains_key(k2) implies exists|j: int|
            0 <= j < self.tabs@.len() && #[trigger] self.tabs@[j].id@ == k2 by {
            assert(old(self).model@.contains_key(k2));
            let j = choose|j: int| 0 <= j < s0.len() && #[trigger] s0[j].id@ == k2;
            assert(j != i);
            if j < i {
                assert(self.tabs@[j].id@ == k2);
            } else {
                assert(self.tabs@[j - 1].id@ == k2);
            }
        }
        assert forall|a: int|
            0 <= a < self.tabs@.len() implies #[trigger] self.model@.contains_key(self.tabs@[a].id@)
                && self.model@[self.tabs@[a].id@] == self.tabs@[a]@ by {
            let b = if a < i { a } else { a + 1 };
            assert(self.tabs@[a] == s0[b]);
            assert(s0[b].id@ != k);
        }
        assert forall|a: int, c: int|
            0 <= a < self.tabs@.len() && 0 <= c < self.tabs@.len() && #[trigger] self.tabs@[a].id@
                == #[trigger] self.tabs@[c].id@ implies a == c by {
            let a2 = if a < i { a } else { a + 1 };
            let c2 = if c < i { c } else { c + 1 };
            assert(self.tabs@[a] == s0[a2]);
            assert(self.tabs@[c] == s0[c2]);
        }
    }

    /// Whether a tab with this id is live.
    pub fn tab_exists(&self, tab_id: &String) -> (r: bool)
        requires
            self.wf(),
        ensures
            r == self@.tabs.contains_key(tab_id@),
    {
        self.find(tab_id).is_some()
    }

    fn surface_id(&self, id: &String) -> (r: SurfaceId)
        ensures
            r@ == surface_for(self@, id@),
    {
        match self.mode {
            BackendMode::MultiInstance => SurfaceId::Tab(id.clone()),
            BackendMode::SharedInstance => SurfaceId::Shared,
        }
    }

    /// Whether the tab at `i` is displayed by a live surface.
    fn holds_at(&self, i: usize) -> (r: bool)
        requires
            self.links(),
            i < self.tabs@.len(),
        ensures
            r == holds_surface(self@, self.tabs@[i as int].id@),
    {
        assert(self@.tabs.contains_key(self.tabs@[i as int].id@));
        match self.mode {
            BackendMode::MultiInstance => true,
            BackendMode::SharedInstance => match &self.foreground {
                Some(f) => *f == self.tabs[i].id,
                None => false,
            },
        }
    }

    /// New layout bounds for a tab. The surface that displays it is moved
    /// only where its placement changes; unknown ids are ignored.
    fn set_bounds_step(&mut self, tab_id: &String, bounds: Bounds) -> (r: Vec<EngineCommand>)
        requires
            old(self).wf(),
        ensures
            final(self).wf(),
            final(self).saved == old(self).saved,
            final(self).mode == old(self).mode,
            (final(self)@, commands_view(r@)) == set_bounds_spec(old(self)@, tab_id@, bounds),
    {
        let mut cmds: Vec<EngineCommand> = Vec::new();
        match self.find(tab_id) {
            None => {},
            Some(i) => {
                let before = shown_of(&self.tabs[i]);
                let holds = self.holds_at(i);
                let surface = self.surface_id(tab_id);
                let mut h = copy_handle(&self.tabs[i]);
                h.bounds = bounds;
                let after = shown_of(&h);
                proof {
                    lemma_with_tab_wf(self@, tab_id@, h@);
                }
                self.set_tab(i, h);
                if holds && before != after {
                    cmds.push(EngineCommand::SetBounds { surface, bounds: after });
                }
            },
        }
        assert(commands_view(cmds@) =~= set_bounds_spec(old(self)@, tab_id@, bounds).1);
        cmds
    }

    /// Shows or hides a tab. Hiding moves its surface off-screen and pauses
    /// nothing; unknown ids are ignored.
    fn set_visible_step(&mut self, tab_id: &String, visible: bool) -> (r: Vec<EngineCommand>)
        requires
            old(self).wf(),
        ensures
            final(self).wf(),
            final(self).saved == old(self).saved,
            final(self).mode == old(self).mode,
            (final(self)@, commands_view(r@)) == set_visible_spec(old(self)@, tab_id@, visible),
    {
        let mut cmds: Vec<EngineCommand> = Vec::new();
        match self.find(tab_id) {
            None => {},
            Some(i) => {
                let before = shown_of(&self.tabs[i]);
                let holds = self.holds_at(i);
                let surface = self.surface_id(tab_id);
                let mut h = copy_handle(&self.tabs[i]);
                h.hidden = !visible;
                let after = shown_of(&h);
                proof {
                    lemma_with_tab_wf(self@, tab_id@, h@);
                }
                self.set_tab(i, h);
                if holds && before != after {
                    cmds.push(EngineCommand::SetBounds { surface, bounds: after });
                }
            },
        }
        assert(commands_view(cmds@) =~= set_visible_spec(old(self)@, tab_id@, visible).1);
        cmds
    }

    /// Freezes an active tab: its content is paused and its surface moved
    /// off-screen. Freezing any other tab, a frozen one included, does nothing.
    pub fn freeze(&mut self, tab_id: &String) -> (r: Vec<EngineCommand>)
        requires
            old(self).wf(),
        ensures
            final(self).wf(),
            (final(self)@, commands_view(r@)) == freeze_spec(old(self)@, tab_id@),
            final(self).before() == (if r@.len() > 0 {
                Some(old(self)@)
            } else {
                old(self).before()
            }),
    {
        let s = self.save();
        let r = self.toggle_frozen(tab_id, true);
        self.remember(s, r.len() > 0);
        r
    }

    /// Resumes a frozen tab and puts its surface back where it was shown.
    /// Unfreezing any other tab does nothing.
    pub fn unfreeze(&mut self, tab_id: &String) -> (r: Vec<EngineCommand>)
        requires
            old(self).wf(),
        ensures
            final(self).wf(),
            (final(self)@, commands_view(r@)) == unfreeze_spec(old(self)@, tab_id@),
            final(self).before() == (if r@.len() > 0 {
                Some(old(self)@)
            } else {
                old(self).before()
            }),
    {
        let s = self.save();
        let r = self.toggle_frozen(tab_id, false);
        self.remember(s, r.len() > 0);
        r
    }

    fn toggle_frozen(&mut self, tab_id: &String, freeze: bool) -> (r: Vec<EngineCommand>)
        requires
            old(self).wf(),
        ensures
            final(self).wf(),
            final(self).saved == old(self).saved,
            final(self).mode == old(self).mode,
            (final(self)@, commands_view(r@)) == if freeze {
                freeze_spec(old(self)@, tab_id@)
            } else {
                unfreeze_spec(old(self)@, tab_id@)
            },
    {
        let from = if freeze { Lifecycle::Active } else { Lifecycle::Frozen };
        let to = if freeze { Lifecycle::Frozen } else { Lifecycle::Active };
        let mut cmds: Vec<EngineCommand> = Vec::new();
        match self.find(tab_id) {
            None => {},
            Some(i) => {
                if self.tabs[i].state == from {
                    let before = shown_of(&self.tabs[i]);
                    let surface = self.surface_id(tab_id);
                    let eval_surface = self.surface_id(tab_id);
                    let mut h = copy_handle(&self.tabs[i]);
                    h.state = to;
                    let after = shown_of(&h);
                    proof {
                        lemma_with_tab_wf(self@, tab_id@, h@);
                    }
                    self.set_tab(i, h);
                    let script = if freeze { Script::Freeze } else { Script::Unfreeze };
                    cmds.push(EngineCommand::Eval { surface: eval_surface, script });
                    if before != after {
                        cmds.push(EngineCommand::SetBounds { surface, bounds: after });
                    }
                }
            },
        }
        proof {
            let spec = if freeze {
                freeze_spec(old(self)@, tab_id@)
            } else {
                unfreeze_spec(old(self)@, tab_id@)
            };
            assert(commands_view(cmds@) =~= spec.1);
        }
        cmds
    }

    /// Runs a script in the tab's content, where a surface displays it.
    /// Scripts for parked or unknown tabs are dropped.
    pub fn eval_script(&self, tab_id: &String, script: Script) -> (r: Vec<EngineCommand>)
        requires
            self.wf(),
        ensures
            commands_view(r@) == eval_spec(self@, tab_id@, script@),
    {
        let mut cmds: Vec<EngineCommand> = Vec::new();
        match self.find(tab_id) {
            None => {},
            Some(i) => {
                if self.holds_at(i) {
                    cmds.push(EngineCommand::Eval { surface: self.surface_id(tab_id), script });
                }
            },
        }
        assert(commands_view(cmds@) =~= eval_spec(self@, tab_id@, script@));
        cmds
    }

    /// Parks the foreground tab, if any.
    fn park_current(&mut self)
        requires
            old(self).links(),
            old(self)@.foreground matches Some(f) ==> old(self)@.tabs.contains_key(f),
        ensures
            final(self).links(),
            final(self).saved == old(self).saved,
            final(self).mode == old(self).mode,
            final(self)@ == (RegistryModel { tabs: park_foreground(old(self)@), ..old(self)@ }),
    {
        let fg = copy_text(&self.foreground);
        match fg {
            None => {},
            Some(f) => {
                match self.find(&f) {
                    None => {},
                    Some(j) => {
                        let mut h = copy_handle(&self.tabs[j]);
                        h.state = Lifecycle::Parked;
                        self.set_tab(j, h);
                    },
                }
            },
        }
    }

    /// Opens a tab at `url`, placed at `bounds`. An id that is already live
    /// is refused, as is a text that is not an absolute URL, before anything
    /// is asked of the engine. The tab stays `Initializing` until
    /// `finish_create` reports the engine's answer. With a shared surface the
    /// new tab takes the foreground and the previous one is parked.
    pub fn create(&mut self, tab_id: &String, url: &str, bounds: Bounds) -> (r: Result<
        Vec<EngineCommand>,
        AppError,
    >)
        requires
            old(self).wf(),
        ensures
            final(self).wf(),
            r is Err ==> final(self)@ == old(self)@,
            old(self)@.tabs.contains_key(tab_id@) ==> (r matches Err(AppError::AlreadyExists(e))
                && e@ == tab_id@),
            !old(self)@.tabs.contains_key(tab_id@) && parsed_url(url@) is None ==> (r matches Err(
                AppError::InvalidUrl(e),
            ) && e@ == url@),
            !old(self)@.tabs.contains_key(tab_id@) ==> (parsed_url(url@) matches Some(p) ==> (r matches Ok(c)
                && (final(self)@, commands_view(c@)) == create_spec(old(self)@, tab_id@, p.1, bounds))),
            create_outcome(old(self)@, tab_id@, url@, bounds) matches CreateOutcome::Created(m2, c2) ==> (
            r matches Ok(c) && final(self)@ == m2 && commands_view(c@) == c2),
            r is Ok ==> final(self).before() == Some(old(self)@),
            r is Err ==> final(self).before() == old(self).before(),
    {
        if self.find(tab_id).is_some() {
            return Err(AppError::AlreadyExists(tab_id.clone()));
        }
        match WebUrl::parse(url) {
            None => Err(AppError::InvalidUrl(url.to_owned())),
            Some(u) => self.create_at(tab_id, u, bounds),
        }
    }

    /// Opens a tab at an already parsed url, as `create` does.
    fn create_step(&mut self, tab_id: &String, u: WebUrl, bounds: Bounds) -> (r: Result<
        Vec<EngineCommand>,
        AppError,
    >)
        requires
            old(self).wf(),
        ensures
            final(self).wf(),
            final(self).saved == old(self).saved,
            final(self).mode == old(self).mode,
            old(self)@.tabs.contains_key(tab_id@) ==> (r matches Err(AppError::AlreadyExists(e))
                && e@ == tab_id@ && final(self)@ == old(self)@),
            !old(self)@.tabs.contains_key(tab_id@) ==> (r matches Ok(c) && (final(self)@, commands_view(
                c@,
            )) == create_spec(old(self)@, tab_id@, u.href@, bounds)),
    {
        if self.find(tab_id).is_some() {
            return Err(AppError::AlreadyExists(tab_id.clone()));
        }
        let ghost m = self@;
        let ghost href = u.href@;
        let mut cmds: Vec<EngineCommand> = Vec::new();
        match self.mode {
            BackendMode::MultiInstance => {
                cmds.push(
                    EngineCommand::CreateSurface {
                        surface: SurfaceId::Tab(tab_id.clone()),
                        url: u.href.clone(),
                        bounds,
                    },
                );
            },
            BackendMode::SharedInstance => {
                self.park_current();
                if self.surface_live {
                    cmds.push(EngineCommand::Navigate { surface: SurfaceId::Shared, url: u.href.clone() });
                    cmds.push(EngineCommand::SetBounds { surface: SurfaceId::Shared, bounds });
                } else {
                    cmds.push(
                        EngineCommand::CreateSurface {
                            surface: SurfaceId::Shared,
                            url: u.href.clone(),
                            bounds,
                        },
                    );
                }
                self.foreground = Some(tab_id.clone());
                self.surface_live = true;
            },
        }
        let h = TabHandle {
            id: tab_id.clone(),
            state: Lifecycle::Initializing,
            url: u.href,
            title: String::new(),
            pending_url: None,
            bounds,
            hidden: false,
        };
        proof {
            assert(!self@.tabs.contains_key(tab_id@)) by {
                if self@.tabs.contains_key(tab_id@) {
                    assert(m.tabs.contains_key(tab_id@));
                }
            }
        }
        self.push_tab(h);
        proof {
            let spec = create_spec(m, tab_id@, href, bounds);
            assert(self@.tabs =~= spec.0.tabs);
            assert(commands_view(cmds@) =~= spec.1);
            assert forall|k| #[trigger] self@.tabs.contains_key(k) implies k == tab_id@ || m.tabs.contains_key(k) by {
                if k != tab_id@ && m.foreground is Some {
                    assert(park_foreground(m).contains_key(k));
                }
            }
        }
        Ok(cmds)
    }

    /// The engine's answer to the creation of `tab_id`'s surface. Only a tab
    /// that is `Initializing` is concerned: for any other id this does
    /// nothing. Success makes the tab active. Failure is reported and undoes
    /// the create: when the create is the step still outstanding, the
    /// registry goes back to the state before it (under a shared surface,
    /// the tab that was in front comes back as it was); otherwise the tab
    /// alone is removed.
    pub fn finish_create(&mut self, tab_id: &String, ok: bool) -> (r: Result<(), AppError>)
        requires
            old(self).wf(),
        ensures
            final(self).wf(),
            final(self)@ == confirm_spec(old(self)@, old(self).before(), tab_id@, ok),
            r is Err <==> confirm_fails(old(self)@, tab_id@, ok),
            r matches Err(e) ==> e matches AppError::BackendError(s) && s@ == tab_id@,
            final(self).before() == (if awaits_confirm(old(self)@, tab_id@) {
                None
            } else {
                old(self).before()
            }),
    {
        match self.find(tab_id) {
            None => Ok(()),
            Some(i) => {
                if self.tabs[i].state != Lifecycle::Initializing {
                    return Ok(());
                }
                if ok {
                    let mut h = copy_handle(&self.tabs[i]);
                    h.state = Lifecycle::Active;
                    proof {
                        lemma_with_tab_wf(self@, tab_id@, h@);
                    }
                    self.set_tab(i, h);
                    self.saved = None;
                    Ok(())
                } else {
                    let ghost m = self@;
                    let saved = self.saved.take();
                    match saved {
                        Some(s) => {
                            if find_in(&s.tabs, Ghost(s.model@), tab_id).is_none() {
                                self.restore(s);
                                return Err(AppError::BackendError(tab_id.clone()));
                            }
                        },
                        None => {},
                    }
                    if self.mode == BackendMode::SharedInstance {
                        self.foreground = None;
                        self.surface_live = false;
                    }
                    self.remove_tab(i);
                    proof {
                        assert forall|k| #[trigger] self@.tabs.contains_key(k) implies m.tabs.contains_key(k)
                            && k != tab_id@ && self@.tabs[k] == m.tabs[k] by {}
                    }
                    Err(AppError::BackendError(tab_id.clone()))
                }
            },
        }
    }

    /// Closes a tab and releases the surface it holds. Closing an unknown
    /// id does nothing.
    fn close_step(&mut self, tab_id: &String) -> (r: Vec<EngineCommand>)
        requires
            old(self).wf(),
        ensures
            final(self).wf(),
            final(self).saved == old(self).saved,
            final(self).mode == old(self).mode,
            (final(self)@, commands_view(r@)) == close_spec(old(self)@, tab_id@),
    {
        let mut cmds: Vec<EngineCommand> = Vec::new();
        let ghost m = self@;
        match self.find(tab_id) {
            None => {},
            Some(i) => {
                match self.mode {
                    BackendMode::MultiInstance => {
                        cmds.push(EngineCommand::CloseSurface { surface: SurfaceId::Tab(tab_id.clone()) });
                    },
                    BackendMode::SharedInstance => {
                        if self.holds_at(i) {
                            cmds.push(EngineCommand::CloseSurface { surface: SurfaceId::Shared });
                            self.foreground = None;
                            self.surface_live = false;
                        }
                    },
                }
                self.remove_tab(i);
                proof {
                    assert forall|k| #[trigger] self@.tabs.contains_key(k) implies m.tabs.contains_key(k)
                        && k != tab_id@ && self@.tabs[k] == m.tabs[k] by {}
                }
            },
        }
        assert(commands_view(cmds@) =~= close_spec(m, tab_id@).1);
        cmds
    }

    /// Navigates a tab. The surface that displays it goes to the url at
    /// once; a parked tab keeps the url for its next switch. An unknown id is
    /// ignored; a text that is not an absolute URL is refused before any
    /// engine call.
    pub fn navigate(&mut self, tab_id: &String, url: &str) -> (r: Result<Vec<EngineCommand>, AppError>)
        requires
            old(self).wf(),
        ensures
            final(self).wf(),
            r is Err ==> final(self)@ == old(self)@,
            !old(self)@.tabs.contains_key(tab_id@) ==> (r matches Ok(c) && c@.len() == 0
                && final(self)@ == old(self)@),
            old(self)@.tabs.contains_key(tab_id@) && parsed_url(url@) is None ==> (r matches Err(
                AppError::InvalidUrl(e),
            ) && e@ == url@),
            parsed_url(url@) matches Some(p) ==> (r matches Ok(c) && (final(self)@, commands_view(c@))
                == navigate_spec(old(self)@, tab_id@, p.1)),
            r matches Ok(c) ==> final(self).before() == (if c@.len() > 0 {
                Some(old(self)@)
            } else {
                old(self).before()
            }),
            r is Err ==> final(self).before() == old(self).before(),
    {
        if self.find(tab_id).is_none() {
            return Ok(Vec::new());
        }
        match WebUrl::parse(url) {
            None => Err(AppError::InvalidUrl(url.to_owned())),
            Some(u) => Ok(self.navigate_to(tab_id, u)),
        }
    }

    /// Navigates a tab to an already parsed url, as `navigate` does.
    fn navigate_step(&mut self, tab_id: &String, u: WebUrl) -> (r: Vec<EngineCommand>)
        requires
            old(self).wf(),
        ensures
            final(self).wf(),
            final(self).saved == old(self).saved,
            final(self).mode == old(self).mode,
            (final(self)@, commands_view(r@)) == navigate_spec(old(self)@, tab_id@, u.href@),
    {
        let ghost m = self@;
        let ghost href = u.href@;
        let mut cmds: Vec<EngineCommand> = Vec::new();
        match self.find(tab_id) {
            None => {},
            Some(i) => {
                let holds = self.holds_at(i);
                let surface = self.surface_id(tab_id);
                let mut h = copy_handle(&self.tabs[i]);
                if holds {
                    h.url = u.href.clone();
                    cmds.push(EngineCommand::Navigate { surface, url: u.href });
                } else {
                    h.pending_url = Some(u.href);
                }
                proof {
                    lemma_with_tab_wf(self@, tab_id@, h@);
                }
                self.set_tab(i, h);
            },
        }
        assert(commands_view(cmds@) =~= navigate_spec(m, tab_id@, href).1);
        cmds
    }

    /// Shared surface: brings `tab_id` to the foreground. The outgoing tab is
    /// parked with its last url and title; the surface goes to the incoming
    /// tab's pending url, or else its last url, at its bounds. Does nothing
    /// for an unknown id, for the tab already in front, and with one surface
    /// per tab.
    fn switch_step(&mut self, tab_id: &String) -> (r: Vec<EngineCommand>)
        requires
            old(self).wf(),
        ensures
            final(self).wf(),
            final(self).saved == old(self).saved,
            final(self).mode == old(self).mode,
            (final(self)@, commands_view(r@)) == switch_spec(old(self)@, tab_id@),
    {
        let mut cmds: Vec<EngineCommand> = Vec::new();
        if self.mode == BackendMode::MultiInstance {
            return cmds;
        }
        let i = match self.find(tab_id) {
            None => {
                return cmds;
            },
            Some(i) => i,
        };
        if self.holds_at(i) {
            return cmds;
        }
        let ghost m = self@;
        let mut h = copy_handle(&self.tabs[i]);
        let target = match &h.pending_url {
            Some(p) => p.clone(),
            None => h.url.clone(),
        };
        h.state = Lifecycle::Active;
        h.url = target.clone();
        h.pending_url = None;
        let after = shown_of(&h);
        self.park_current();
        if self.surface_live {
            cmds.push(EngineCommand::Navigate { surface: SurfaceId::Shared, url: target });
            cmds.push(EngineCommand::SetBounds { surface: SurfaceId::Shared, bounds: after });
        } else {
            cmds.push(EngineCommand::CreateSurface { surface: SurfaceId::Shared, url: target, bounds: after });
        }
        self.foreground = Some(tab_id.clone());
        self.surface_live = true;
        proof {
            if m.foreground is Some {
                assert(park_foreground(m).contains_key(tab_id@));
            }
        }
        match self.find(tab_id) {
            None => {},
            Some(j) => {
                self.set_tab(j, h);
            },
        }
        proof {
            let spec = switch_spec(m, tab_id@);
            assert(self@.tabs =~= spec.0.tabs);
            assert(commands_view(cmds@) =~= spec.1);
            assert forall|k| #[trigger] self@.tabs.contains_key(k) implies m.tabs.contains_key(k) by {
                if k != tab_id@ && m.foreground is Some {
                    assert(park_foreground(m).contains_key(k));
                }
            }
        }
        cmds
    }

    /// The live tab displayed by a surface: the tab that owns it, or the
    /// foreground tab for the shared surface.
    pub fn tab_of_surface(&self, surface: &SurfaceId) -> (r: Option<String>)
        requires
            self.wf(),
        ensures
            opt_str_view(r) == tab_of_surface(self@, surface@),
    {
        match (self.mode, surface) {
            (BackendMode::MultiInstance, SurfaceId::Tab(id)) => {
                if self.find(id).is_some() {
                    Some(id.clone())
                } else {
                    None
                }
            },
            (BackendMode::SharedInstance, SurfaceId::Shared) => copy_text(&self.foreground),
            _ => None,
        }
    }

    /// Index of the live tab displayed by a surface.
    fn displayed_index(&self, surface: &SurfaceId) -> (r: Option<usize>)
        requires
            self.wf(),
        ensures
            r is None <==> tab_of_surface(self@, surface@) is None,
            r matches Some(i) ==> i < self.tabs@.len() && tab_of_surface(self@, surface@) == Some(
                self.tabs@[i as int].id@,
            ),
    {
        let t = self.tab_of_surface(surface);
        match t {
            None => None,
            Some(id) => self.find(&id),
        }
    }

    /// The engine reports that a surface now shows `url`: the displayed tab
    /// records it and the host is told. Events of surfaces that display no
    /// live tab are dropped.
    pub fn on_url_changed(&mut self, surface: &SurfaceId, url: String) -> (r: Option<HostEvent>)
        requires
            old(self).wf(),
        ensures
            final(self).wf(),
            final(self).before() == old(self).before(),
            final(self)@ == url_changed_spec(old(self)@, surface@, url@),
            r is None <==> tab_of_surface(old(self)@, surface@) is None,
            r matches Some(e) ==> e@ == (EventModel::UrlChanged {
                tab_id: tab_of_surface(old(self)@, surface@)->0,
                url: url@,
            }),
    {
        match self.displayed_index(surface) {
            None => None,
            Some(i) => {
                let mut h = copy_handle(&self.tabs[i]);
                let tab_id = h.id.clone();
                h.url = url.clone();
                proof {
                    lemma_with_tab_wf(self@, tab_id@, h@);
                }
                self.set_tab(i, h);
                Some(HostEvent::UrlChanged { tab_id, url })
            },
        }
    }

    /// The engine reports a new title for a surface's page: the displayed
    /// tab records it and the host is told.
    pub fn on_title_changed(&mut self, surface: &SurfaceId, title: String) -> (r: Option<HostEvent>)
        requires
            old(self).wf(),
        ensures
            final(self).wf(),
            final(self).before() == old(self).before(),
            final(self)@ == title_changed_spec(old(self)@, surface@, title@),
            r is None <==> tab_of_surface(old(self)@, surface@) is None,
            r matches Some(e) ==> e@ == (EventModel::TitleChanged {
                tab_id: tab_of_surface(old(self)@, surface@)->0,
                title: title@,
            }),
    {
        match self.displayed_index(surface) {
            None => None,
            Some(i) => {
                let mut h = copy_handle(&self.tabs[i]);
                let tab_id = h.id.clone();
                h.title = title.clone();
                proof {
                    lemma_with_tab_wf(self@, tab_id@, h@);
                }
                self.set_tab(i, h);
                Some(HostEvent::TitleChanged { tab_id, title })
            },
        }
    }

    /// The engine reports that a surface started or stopped loading.
    pub fn on_loading_changed(&self, surface: &SurfaceId, is_loading: bool) -> (r: Option<HostEvent>)
        requires
            self.wf(),
        ensures
            r is None <==> tab_of_surface(self@, surface@) is None,
            r matches Some(e) ==> e@ == (EventModel::LoadingStateChanged {
                tab_id: tab_of_surface(self@, surface@)->0,
                is_loading,
            }),
    {
        match self.tab_of_surface(surface) {
            None => None,
            Some(tab_id) => Some(HostEvent::LoadingStateChanged { tab_id, is_loading }),
        }
    }

    /// The backend this registry drives.
    pub fn mode(&self) -> (r: BackendMode)
        ensures
            r == self@.mode,
    {
        self.mode
    }

    /// The tab bound to the shared surface, if any.
    pub fn foreground_tab(&self) -> (r: Option<String>)
        ensures
            opt_str_view(r) == self@.foreground,
    {
        copy_text(&self.foreground)
    }

    /// The lifecycle state of a live tab.
    pub fn state_of(&self, tab_id: &String) -> (r: Option<Lifecycle>)
        requires
            self.wf(),
        ensures
            r == (if self@.tabs.contains_key(tab_id@) {
                Some(self@.tabs[tab_id@].state)
            } else {
                None
            }),
    {
        match self.find(tab_id) {
            None => None,
            Some(i) => Some(self.tabs[i].state),
        }
    }

    /// The last known url and title of a live tab: for a parked tab, the
    /// snapshot taken when it left the foreground.
    pub fn snapshot(&self, tab_id: &String) -> (r: Option<(String, String)>)
        requires
            self.wf(),
        ensures
            r is None <==> !self@.tabs.contains_key(tab_id@),
            r matches Some(p) ==> p.0@ == self@.tabs[tab_id@].url && p.1@ == self@.tabs[tab_id@].title,
    {
        match self.find(tab_id) {
            None => None,
            Some(i) => Some((self.tabs[i].url.clone(), self.tabs[i].title.clone())),
        }
    }

    /// The url a parked tab will show on its next switch, if one was asked
    /// for while it was parked.
    pub fn pending_url(&self, tab_id: &String) -> (r: Option<String>)
        requires
            self.wf(),
        ensures
            opt_str_view(r) == (if self@.tabs.contains_key(tab_id@) {
                self@.tabs[tab_id@].pending_url
            } else {
                None
            }),
    {
        match self.find(tab_id) {
            None => None,
            Some(i) => copy_text(&self.tabs[i].pending_url),
        }
    }

    /// The bounds last applied to the surface that displays the tab, if a
    /// surface displays it.
    pub fn last_applied_bounds(&self, tab_id: &String) -> (r: Option<Bounds>)
        requires
            self.wf(),
        ensures
            r == applied_bounds(self@, tab_id@),
    {
        match self.find(tab_id) {
            None => None,
            Some(i) => {
                if self.holds_at(i) {
                    Some(shown_of(&self.tabs[i]))
                } else {
                    None
                }
            },
        }
    }

    /// The number of live tabs.
    pub fn len(&self) -> (r: usize)
        requires
            self.wf(),
        ensures
            r == self@.tabs.len(),
    {
        proof {
            self.lemma_len();
        }
        self.tabs.len()
    }

    proof fn lemma_len(&self)
        requires
            self.links(),
        ensures
            self.tabs@.len() == self@.tabs.len(),
    {
        let ids = Seq::new(self.tabs@.len(), |i: int| self.tabs@[i].id@);
        assert(ids.no_duplicates()) by {
            assert forall|a: int, b: int| 0 <= a < ids.len() && 0 <= b < ids.len() && a != b implies ids[a] != ids[b] by {
                if ids[a] == ids[b] {
                    assert(self.tabs@[a].id@ == self.tabs@[b].id@);
                }
            }
        }
        assert(ids.to_set() =~= self@.tabs.dom()) by {
            assert forall|k| #[trigger] self@.tabs.dom().contains(k) implies ids.to_set().contains(k) by {
                let j = choose|j: int| 0 <= j < self.tabs@.len() && #[trigger] self.tabs@[j].id@ == k;
                assert(ids[j] == k);
            }
            assert forall|k| ids.to_set().contains(k) implies #[trigger] self@.tabs.dom().contains(k) by {
                let j = choose|j: int| 0 <= j < ids.len() && ids[j] == k;
                assert(self.tabs@[j].id@ == k);
            }
        }
        ids.unique_seq_to_set();
    }
}

impl TabRegistry {
    /// New layout bounds for a tab. The surface that displays it is moved
    /// only where its placement changes; unknown ids are ignored.
    pub fn set_bounds(&mut self, tab_id: &String, bounds: Bounds) -> (r: Vec<EngineCommand>)
        requires
            old(self).wf(),
        ensures
            final(self).wf(),
            (final(self)@, commands_view(r@)) == set_bounds_spec(old(self)@, tab_id@, bounds),
            final(self).before() == (if r@.len() > 0 {
                Some(old(self)@)
            } else {
                old(self).before()
            }),
    {
        let s = self.save();
        let r = self.set_bounds_step(tab_id, bounds);
        self.remember(s, r.len() > 0);
        r
    }

    /// Shows or hides a tab. Hiding moves its surface off-screen and pauses
    /// nothing; unknown ids are ignored.
    pub fn set_visible(&mut self, tab_id: &String, visible: bool) -> (r: Vec<EngineCommand>)
        requires
            old(self).wf(),
        ensures
            final(self).wf(),
            (final(self)@, commands_view(r@)) == set_visible_spec(old(self)@, tab_id@, visible),
            final(self).before() == (if r@.len() > 0 {
                Some(old(self)@)
            } else {
                old(self).before()
            }),
    {
        let s = self.save();
        let r = self.set_visible_step(tab_id, visible);
        self.remember(s, r.len() > 0);
        r
    }

    /// Opens a tab at an already parsed url, as `create` does.
    pub fn create_at(&mut self, tab_id: &String, u: WebUrl, bounds: Bounds) -> (r: Result<
        Vec<EngineCommand>,
        AppError,
    >)
        requires
            old(self).wf(),
        ensures
            final(self).wf(),
            old(self)@.tabs.contains_key(tab_id@) ==> (r matches Err(AppError::AlreadyExists(e))
                && e@ == tab_id@ && final(self)@ == old(self)@),
            !old(self)@.tabs.contains_key(tab_id@) ==> (r matches Ok(c) && (final(self)@, commands_view(
                c@,
            )) == create_spec(old(self)@, tab_id@, u.href@, bounds)),
            r is Ok ==> final(self).before() == Some(old(self)@),
            r is Err ==> final(self).before() == old(self).before(),
    {
        let s = self.save();
        let r = self.create_step(tab_id, u, bounds);
        self.remember(s, r.is_ok());
        r
    }

    /// Closes a tab and releases the surface it holds. Closing an unknown
    /// id does nothing.
    pub fn close(&mut self, tab_id: &String) -> (r: Vec<EngineCommand>)
        requires
            old(self).wf(),
        ensures
            final(self).wf(),
            (final(self)@, commands_view(r@)) == close_spec(old(self)@, tab_id@),
            final(self).before() == (if r@.len() > 0 {
                Some(old(self)@)
            } else {
                old(self).before()
            }),
    {
        let s = self.save();
        let r = self.close_step(tab_id);
        self.remember(s, r.len() > 0);
        r
    }

    /// Navigates a tab to an already parsed url, as `navigate` does.
    pub fn navigate_to(&mut self, tab_id: &String, u: WebUrl) -> (r: Vec<EngineCommand>)
        requires
            old(self).wf(),
        ensures
            final(self).wf(),
            (final(self)@, commands_view(r@)) == navigate_spec(old(self)@, tab_id@, u.href@),
            final(self).before() == (if r@.len() > 0 {
                Some(old(self)@)
            } else {
                old(self).before()
            }),
    {
        let s = self.save();
        let r = self.navigate_step(tab_id, u);
        self.remember(s, r.len() > 0);
        r
    }

    /// Shared surface: brings `tab_id` to the foreground. The outgoing tab is
    /// parked with its last url and title; the surface goes to the incoming
    /// tab's pending url, or else its last url, at its bounds. Does nothing
    /// for an unknown id, for the tab already in front, and with one surface
    /// per tab.
    pub fn switch_foreground(&mut self, tab_id: &String) -> (r: Vec<EngineCommand>)
        requires
            old(self).wf(),
        ensures
            final(self).wf(),
            (final(self)@, commands_view(r@)) == switch_spec(old(self)@, tab_id@),
            final(self).before() == (if r@.len() > 0 {
                Some(old(self)@)
            } else {
                old(self).before()
            }),
    {
        let s = self.save();
        let r = self.switch_step(tab_id);
        self.remember(s, r.len() > 0);
        r
    }

    /// The engine's answer to the last step that sent it commands. On
    /// success the step stands; on failure the registry goes back to the
    /// state it had before that step. With no step outstanding this does
    /// nothing.
    pub fn finish_step(&mut self, ok: bool)
        requires
            old(self).wf(),
        ensures
            final(self).wf(),
            final(self)@ == (match old(self).before() {
                Some(b) => if ok {
                    old(self)@
                } else {
                    b
                },
                None => old(self)@,
            }),
            final(self).before() is None,
    {
        let saved = self.saved.take();
        match saved {
            Some(s) => {
                if !ok {
                    self.restore(s);
                }
            },
            None => {},
        }
    }
}

fn shown_of(h: &TabHandle) -> (r: Bounds)
    ensures
        r == shown(h@),
{
    if h.state == Lifecycle::Frozen || h.hidden {
        h.bounds.offscreen()
    } else {
        h.bounds
    }
}

} // verus!
