//! The messages that cross the boundary between the backend and its
//! front end, and the load states they speak of.

use vstd::prelude::*;
use crate::game_output::GameOutputLogLevel;
use crate::instance::{
    InstanceID, InstanceServerSummary, InstanceServerSummaryView, InstanceStatus,
    InstanceWorldSummary, InstanceWorldSummaryView,
};
use crate::loader::Loader;
use crate::metadata::{MinecraftVersionLink, MinecraftVersionLinkView, version_links_view};
use crate::text::strings_view;

verus! {

/// Severity of a notification shown to the user.
#[derive(Debug, Clone, Copy, PartialEq, Eq, Structural)]
pub enum BridgeNotificationType {
    Success,
    Info,
    Error,
    Warning,
}

/// How far a lazily loaded collection of an instance (its worlds, its
/// servers) has come. The dirty states record that the data on disk changed,
/// or a load was asked for, while the collection was loading or loaded.
#[derive(Debug, Clone, Copy, PartialEq, Eq, Structural)]
pub enum BridgeDataLoadState {
    Unloaded,
    LoadingDirty,
    LoadedDirty,
    Loading,
    Loaded,
}

/// What a request to load a collection led to.
#[derive(Debug, Clone, Copy, PartialEq, Eq, Structural)]
pub enum StartLoadResult {
    /// The collection was never loaded: its first load starts now.
    Initial,
    /// The collection was loaded and stale: a fresh load starts now.
    Reload,
    /// A load is in flight: another one follows when it completes.
    Deferred,
    /// The collection is loaded and current: nothing starts.
    UpToDate,
}

impl BridgeDataLoadState {
    /// Whether a holder of this state should ask for a load.
    pub open spec fn spec_should_send_load_request(self) -> bool {
        self == BridgeDataLoadState::Unloaded || self == BridgeDataLoadState::LoadedDirty
    }

    /// Whether a holder of this state should ask for a load: only where
    /// nothing was loaded yet, or what was loaded is stale and no load is in
    /// flight.
    #[verifier::when_used_as_spec(spec_should_send_load_request)]
    pub fn should_send_load_request(self) -> (res: bool)
        ensures
            res == self.spec_should_send_load_request(),
    {
        match self {
            BridgeDataLoadState::Unloaded => true,
            BridgeDataLoadState::LoadingDirty => false,
            BridgeDataLoadState::LoadedDirty => true,
            BridgeDataLoadState::Loading => false,
            BridgeDataLoadState::Loaded => false,
        }
    }

    /// Whether a load is in flight in this state.
    pub open spec fn is_loading(self) -> bool {
        self == BridgeDataLoadState::Loading || self == BridgeDataLoadState::LoadingDirty
    }

    /// The state after a load was asked for, and what the request led to.
    pub open spec fn after_request(self) -> (BridgeDataLoadState, StartLoadResult) {
        match self {
            BridgeDataLoadState::Unloaded => (BridgeDataLoadState::Loading, StartLoadResult::Initial),
            BridgeDataLoadState::LoadedDirty => (
                BridgeDataLoadState::Loading,
                StartLoadResult::Reload,
            ),
            BridgeDataLoadState::Loading => (
                BridgeDataLoadState::LoadingDirty,
                StartLoadResult::Deferred,
            ),
            BridgeDataLoadState::LoadingDirty => (
                BridgeDataLoadState::LoadingDirty,
                StartLoadResult::Deferred,
            ),
            BridgeDataLoadState::Loaded => (BridgeDataLoadState::Loaded, StartLoadResult::UpToDate),
        }
    }

    /// The state after a load completed, and whether another load starts at
    /// once because one was asked for in the meantime.
    pub open spec fn after_completion(self) -> (BridgeDataLoadState, bool) {
        match self {
            BridgeDataLoadState::Loading => (BridgeDataLoadState::Loaded, false),
            BridgeDataLoadState::LoadingDirty => (BridgeDataLoadState::Loading, true),
            _ => (self, false),
        }
    }

    /// The state after the data on disk changed.
    pub open spec fn after_change(self) -> BridgeDataLoadState {
        match self {
            BridgeDataLoadState::Loaded => BridgeDataLoadState::LoadedDirty,
            BridgeDataLoadState::Loading => BridgeDataLoadState::LoadingDirty,
            _ => self,
        }
    }

    /// Records a request to load the collection. A load starts where none is
    /// in flight and the collection is missing or stale; a request made
    /// during a load is remembered and served when that load completes.
    pub fn start_load(&mut self) -> (res: StartLoadResult)
        ensures
            (*final(self), res) == old(self).after_request(),
    {
        let (next, result) = match *self {
            BridgeDataLoadState::Unloaded => (BridgeDataLoadState::Loading, StartLoadResult::Initial),
            BridgeDataLoadState::LoadedDirty => (
                BridgeDataLoadState::Loading,
                StartLoadResult::Reload,
            ),
            BridgeDataLoadState::Loading | BridgeDataLoadState::LoadingDirty => (
                BridgeDataLoadState::LoadingDirty,
                StartLoadResult::Deferred,
            ),
            BridgeDataLoadState::Loaded => (BridgeDataLoadState::Loaded, StartLoadResult::UpToDate),
        };
        *self = next;
        result
    }

    /// Records that the load in flight completed. Returns whether another
    /// load has to start at once.
    pub fn finish_load(&mut self) -> (reload: bool)
        ensures
            (*final(self), reload) == old(self).after_completion(),
    {
        match *self {
            BridgeDataLoadState::Loading => {
                *self = BridgeDataLoadState::Loaded;
                false
            },
            BridgeDataLoadState::LoadingDirty => {
                *self = BridgeDataLoadState::Loading;
                true
            },
            _ => false,
        }
    }

    /// Records that the data on disk changed.
    pub fn mark_dirty(&mut self)
        ensures
            *final(self) == old(self).after_change(),
    {
        match *self {
            BridgeDataLoadState::Loaded => {
                *self = BridgeDataLoadState::LoadedDirty;
            },
            BridgeDataLoadState::Loading => {
                *self = BridgeDataLoadState::LoadingDirty;
            },
            _ => {},
        }
    }
}

/// A load is asked for exactly in the two states without a load in flight
/// whose data is missing or stale, and in no other state.
pub proof fn lemma_load_request_states(state: BridgeDataLoadState)
    ensures
        state.spec_should_send_load_request() <==> (state == BridgeDataLoadState::Unloaded || state
            == BridgeDataLoadState::LoadedDirty),
        state == BridgeDataLoadState::Loading || state == BridgeDataLoadState::LoadingDirty || state
            == BridgeDataLoadState::Loaded ==> !state.spec_should_send_load_request(),
{
}

/// A request made while a load is in flight is not dropped: the state turns
/// dirty, and the completion of the load in flight starts another one, after
/// which the state is loading again.
pub proof fn lemma_request_during_load_is_served(state: BridgeDataLoadState)
    requires
        state.is_loading(),
    ensures
        state.after_request().0 == BridgeDataLoadState::LoadingDirty,
        state.after_request().0.after_completion() == (BridgeDataLoadState::Loading, true),
{
}

/// Where a launch takes the player once the game is up.
#[derive(Debug, Clone, PartialEq, Eq)]
pub enum QuickPlayLaunch {
    Singleplayer(String),
    Multiplayer(String),
    Realms(String),
}

/// Mathematical model of a [`QuickPlayLaunch`].
pub ghost enum QuickPlayLaunchView {
    Singleplayer(Seq<char>),
    Multiplayer(Seq<char>),
    Realms(Seq<char>),
}

impl View for QuickPlayLaunch {
    type V = QuickPlayLaunchView;

    open spec fn view(&self) -> QuickPlayLaunchView {
        match self {
            QuickPlayLaunch::Singleplayer(world) => QuickPlayLaunchView::Singleplayer(world@),
            QuickPlayLaunch::Multiplayer(address) => QuickPlayLaunchView::Multiplayer(address@),
            QuickPlayLaunch::Realms(code) => QuickPlayLaunchView::Realms(code@),
        }
    }
}

/// The model of an optional quick-play target.
pub open spec fn quick_play_view(target: Option<QuickPlayLaunch>) -> Option<QuickPlayLaunchView> {
    match target {
        Some(t) => Some(t@),
        None => None,
    }
}

/// A command from the front end.
#[derive(Debug, Clone, PartialEq, Eq)]
pub enum MessageToBackend {
    LoadVersionManifest { reload: bool },
    CreateInstance { name: String, version: String, loader: Loader },
    KillInstance { id: InstanceID },
    StartInstance { id: InstanceID, quick_play: Option<QuickPlayLaunch> },
    RequestLoadWorlds { id: InstanceID },
    RequestLoadServers { id: InstanceID },
    DownloadAllMetadata,
}

/// Mathematical model of a [`MessageToBackend`].
pub ghost enum MessageToBackendView {
    LoadVersionManifest { reload: bool },
    CreateInstance { name: Seq<char>, version: Seq<char>, loader: Loader },
    KillInstance { id: InstanceID },
    StartInstance { id: InstanceID, quick_play: Option<QuickPlayLaunchView> },
    RequestLoadWorlds { id: InstanceID },
    RequestLoadServers { id: InstanceID },
    DownloadAllMetadata,
}

impl View for MessageToBackend {
    type V = MessageToBackendView;

    open spec fn view(&self) -> MessageToBackendView {
        match self {
            MessageToBackend::LoadVersionManifest { reload } => {
                MessageToBackendView::LoadVersionManifest { reload: *reload }
            },
            MessageToBackend::CreateInstance { name, version, loader } => {
                MessageToBackendView::CreateInstance {
                    name: name@,
                    version: version@,
                    loader: *loader,
                }
            },
            MessageToBackend::KillInstance { id } => MessageToBackendView::KillInstance { id: *id },
            MessageToBackend::StartInstance { id, quick_play } => {
                MessageToBackendView::StartInstance {
                    id: *id,
                    quick_play: quick_play_view(*quick_play),
                }
            },
            MessageToBackend::RequestLoadWorlds { id } => {
                MessageToBackendView::RequestLoadWorlds { id: *id }
            },
            MessageToBackend::RequestLoadServers { id } => {
                MessageToBackendView::RequestLoadServers { id: *id }
            },
            MessageToBackend::DownloadAllMetadata => MessageToBackendView::DownloadAllMetadata,
        }
    }
}

/// A notification to the front end.
#[derive(Debug, PartialEq, Eq)]
pub enum MessageToFrontend {
    VersionManifestUpdated(Result<Vec<MinecraftVersionLink>, String>),
    InstanceAdded {
        id: InstanceID,
        name: String,
        version: String,
        loader: Loader,
        worlds_state: BridgeDataLoadState,
        servers_state: BridgeDataLoadState,
    },
    InstanceRemoved { id: InstanceID },
    InstanceModified {
        id: InstanceID,
        name: String,
        version: String,
        loader: Loader,
        status: InstanceStatus,
    },
    InstanceWorldsUpdated { id: InstanceID, worlds: Vec<InstanceWorldSummary> },
    InstanceServersUpdated { id: InstanceID, servers: Vec<InstanceServerSummary> },
    CreateGameOutputWindow { id: usize },
    AddGameOutput {
        id: usize,
        time: i64,
        thread: String,
        level: GameOutputLogLevel,
        text: Vec<String>,
    },
    AddNotification { notification_type: BridgeNotificationType, message: String },
    Refresh,
}

/// Mathematical model of a [`MessageToFrontend`].
pub ghost enum MessageToFrontendView {
    VersionManifestUpdated(Result<Seq<MinecraftVersionLinkView>, Seq<char>>),
    InstanceAdded {
        id: InstanceID,
        name: Seq<char>,
        version: Seq<char>,
        loader: Loader,
        worlds_state: BridgeDataLoadState,
        servers_state: BridgeDataLoadState,
    },
    InstanceRemoved { id: InstanceID },
    InstanceModified {
        id: InstanceID,
        name: Seq<char>,
        version: Seq<char>,
        loader: Loader,
        status: InstanceStatus,
    },
    InstanceWorldsUpdated { id: InstanceID, worlds: Seq<InstanceWorldSummaryView> },
    InstanceServersUpdated { id: InstanceID, servers: Seq<InstanceServerSummaryView> },
    CreateGameOutputWindow { id: usize },
    AddGameOutput {
        id: usize,
        time: i64,
        thread: Seq<char>,
        level: GameOutputLogLevel,
        text: Seq<Seq<char>>,
    },
    AddNotification { notification_type: BridgeNotificationType, message: Seq<char> },
    Refresh,
}

/// The models of a sequence of world summaries.
pub open spec fn worlds_view(worlds: Seq<InstanceWorldSummary>) -> Seq<InstanceWorldSummaryView> {
    worlds.map_values(|w: InstanceWorldSummary| w@)
}

/// The models of a sequence of server summaries.
pub open spec fn servers_view(servers: Seq<InstanceServerSummary>) -> Seq<
    InstanceServerSummaryView,
> {
    servers.map_values(|s: InstanceServerSummary| s@)
}

impl View for MessageToFrontend {
    type V = MessageToFrontendView;

    open spec fn view(&self) -> MessageToFrontendView {
        match self {
            MessageToFrontend::VersionManifestUpdated(result) => {
                MessageToFrontendView::VersionManifestUpdated(
                    match result {
                        Ok(links) => Ok(version_links_view(links@)),
                        Err(error) => Err(error@),
                    },
                )
            },
            MessageToFrontend::InstanceAdded {
                id,
                name,
                version,
                loader,
                worlds_state,
                servers_state,
            } => MessageToFrontendView::InstanceAdded {
                id: *id,
                name: name@,
                version: version@,
                loader: *loader,
                worlds_state: *worlds_state,
                servers_state: *servers_state,
            },
            MessageToFrontend::InstanceRemoved { id } => {
                MessageToFrontendView::InstanceRemoved { id: *id }
            },
            MessageToFrontend::InstanceModified { id, name, version, loader, status } => {
                MessageToFrontendView::InstanceModified {
                    id: *id,
                    name: name@,
                    version: version@,
                    loader: *loader,
                    status: *status,
                }
            },
            MessageToFrontend::InstanceWorldsUpdated { id, worlds } => {
                MessageToFrontendView::InstanceWorldsUpdated {
                    id: *id,
                    worlds: worlds_view(worlds@),
                }
            },
            MessageToFrontend::InstanceServersUpdated { id, servers } => {
                MessageToFrontendView::InstanceServersUpdated {
                    id: *id,
                    servers: servers_view(servers@),
                }
            },
            MessageToFrontend::CreateGameOutputWindow { id } => {
                MessageToFrontendView::CreateGameOutputWindow { id: *id }
            },
            MessageToFrontend::AddGameOutput { id, time, thread, level, text } => {
                MessageToFrontendView::AddGameOutput {
                    id: *id,
                    time: *time,
                    thread: thread@,
                    level: *level,
                    text: strings_view(text@),
                }
            },
            MessageToFrontend::AddNotification { notification_type, message } => {
                MessageToFrontendView::AddNotification {
                    notification_type: *notification_type,
                    message: message@,
                }
            },
            MessageToFrontend::Refresh => MessageToFrontendView::Refresh,
        }
    }
}

impl MessageToFrontendView {
    /// A notification of the given severity.
    pub open spec fn notification(
        notification_type: BridgeNotificationType,
        message: Seq<char>,
    ) -> MessageToFrontendView {
        MessageToFrontendView::AddNotification { notification_type, message }
    }
}

impl MessageToFrontend {
    /// A notification of the given severity.
    pub fn notification(notification_type: BridgeNotificationType, message: String) -> (res:
        MessageToFrontend)
        ensures
            res@ == MessageToFrontendView::notification(notification_type, message@),
    {
        MessageToFrontend::AddNotification { notification_type, message }
    }
}

} // verus!
