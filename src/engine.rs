use vstd::prelude::*;
use crate::bounds::Bounds;

verus! {

/// A native surface, as the host addresses it.
#[derive(Clone, Debug, PartialEq, Eq)]
pub enum SurfaceId {
    /// The surface owned by one tab (one surface per tab).
    Tab(String),
    /// The single surface shared by all tabs.
    Shared,
}

/// A script the host runs in a surface's content.
#[derive(Clone, Debug, PartialEq, Eq)]
pub enum Script {
    GoBack,
    GoForward,
    Reload,
    /// Pause media and animations, remembering what was playing.
    Freeze,
    /// Resume what the freeze paused.
    Unfreeze,
    /// Script text supplied by the host.
    Custom(String),
}

/// An action the host must carry out on the browser engine.
#[derive(Clone, Debug, PartialEq, Eq)]
pub enum EngineCommand {
    /// Create the surface (replacing any surface of that id) at `url`.
    CreateSurface { surface: SurfaceId, url: String, bounds: Bounds },
    Navigate { surface: SurfaceId, url: String },
    Eval { surface: SurfaceId, script: Script },
    SetBounds { surface: SurfaceId, bounds: Bounds },
    CloseSurface { surface: SurfaceId },
}

/// A notification for the host application.
#[derive(Clone, Debug, PartialEq, Eq)]
pub enum HostEvent {
    UrlChanged { tab_id: String, url: String },
    TitleChanged { tab_id: String, title: String },
    LoadingStateChanged { tab_id: String, is_loading: bool },
}

pub enum SurfaceModel {
    Tab(Seq<char>),
    Shared,
}

pub enum ScriptModel {
    GoBack,
    GoForward,
    Reload,
    Freeze,
    Unfreeze,
    Custom(Seq<char>),
}

pub enum CommandModel {
    CreateSurface { surface: SurfaceModel, url: Seq<char>, bounds: Bounds },
    Navigate { surface: SurfaceModel, url: Seq<char> },
    Eval { surface: SurfaceModel, script: ScriptModel },
    SetBounds { surface: SurfaceModel, bounds: Bounds },
    CloseSurface { surface: SurfaceModel },
}

pub enum EventModel {
    UrlChanged { tab_id: Seq<char>, url: Seq<char> },
    TitleChanged { tab_id: Seq<char>, title: Seq<char> },
    LoadingStateChanged { tab_id: Seq<char>, is_loading: bool },
}

impl View for SurfaceId {
    type V = SurfaceModel;

    open spec fn view(&self) -> SurfaceModel {
        match self {
            SurfaceId::Tab(id) => SurfaceModel::Tab(id@),
            SurfaceId::Shared => SurfaceModel::Shared,
        }
    }
}

impl View for Script {
    type V = ScriptModel;

    open spec fn view(&self) -> ScriptModel {
        match self {
            Script::GoBack => ScriptModel::GoBack,
            Script::GoForward => ScriptModel::GoForward,
            Script::Reload => ScriptModel::Reload,
            Script::Freeze => ScriptModel::Freeze,
            Script::Unfreeze => ScriptModel::Unfreeze,
            Script::Custom(s) => ScriptModel::Custom(s@),
        }
    }
}

impl View for EngineCommand {
    type V = CommandModel;

    open spec fn view(&self) -> CommandModel {
        match self {
            EngineCommand::CreateSurface { surface, url, bounds } =>
                CommandModel::CreateSurface { surface: surface@, url: url@, bounds: *bounds },
            EngineCommand::Navigate { surface, url } =>
                CommandModel::Navigate { surface: surface@, url: url@ },
            EngineCommand::Eval { surface, script } =>
                CommandModel::Eval { surface: surface@, script: script@ },
            EngineCommand::SetBounds { surface, bounds } =>
                CommandModel::SetBounds { surface: surface@, bounds: *bounds },
            EngineCommand::CloseSurface { surface } => CommandModel::CloseSurface { surface: surface@ },
        }
    }
}

impl View for HostEvent {
    type V = EventModel;

    open spec fn view(&self) -> EventModel {
        match self {
            HostEvent::UrlChanged { tab_id, url } => EventModel::UrlChanged { tab_id: tab_id@, url: url@ },
            HostEvent::TitleChanged { tab_id, title } =>
                EventModel::TitleChanged { tab_id: tab_id@, title: title@ },
            HostEvent::LoadingStateChanged { tab_id, is_loading } =>
                EventModel::LoadingStateChanged { tab_id: tab_id@, is_loading: *is_loading },
        }
    }
}

/// The commands of a list, as values.
pub open spec fn commands_view(v: Seq<EngineCommand>) -> Seq<CommandModel> {
    v.map_values(|c: EngineCommand| c@)
}

} // verus!
