//! Instances and the identifiers that address them.

use vstd::prelude::*;
use crate::loader::Loader;
use crate::message::BridgeDataLoadState;

verus! {

/// Identifier of a registered instance: the slot it occupies and the value of
/// the registry's generation counter when it was registered. Slots are used
/// again after a removal; the generation tells the occupants apart.
#[derive(Debug, Clone, Copy, PartialEq, Eq, Hash, Structural)]
pub struct InstanceID {
    pub index: usize,
    pub generation: usize,
}

impl InstanceID {
    /// An identifier for an instance that is not registered yet.
    pub fn dangling() -> (res: InstanceID)
        ensures
            res == (InstanceID { index: usize::MAX, generation: usize::MAX }),
    {
        InstanceID { index: usize::MAX, generation: usize::MAX }
    }
}

/// Where an instance stands in the life cycle of its game process.
#[derive(Debug, Clone, Copy, PartialEq, Eq, Structural)]
pub enum InstanceStatus {
    Idle,
    Launching,
    Running,
}

/// The collections of an instance that are loaded when they are first asked
/// for.
#[derive(Debug, Clone, Copy, PartialEq, Eq, Structural)]
pub enum LazyData {
    Worlds,
    Servers,
}

/// What an instance descriptor file states.
#[derive(Debug, Clone, PartialEq, Eq)]
pub struct InstanceInfo {
    pub minecraft_version: String,
    pub loader: Loader,
}

/// Mathematical model of an [`InstanceInfo`].
pub ghost struct InstanceInfoView {
    pub minecraft_version: Seq<char>,
    pub loader: Loader,
}

impl View for InstanceInfo {
    type V = InstanceInfoView;

    open spec fn view(&self) -> InstanceInfoView {
        InstanceInfoView { minecraft_version: self.minecraft_version@, loader: self.loader }
    }
}

/// A directory-backed installation of the game.
#[derive(Debug, Clone, PartialEq, Eq)]
pub struct Instance {
    pub id: InstanceID,
    pub name: String,
    pub version: String,
    pub loader: Loader,
    pub root_path: String,
    pub saves_path: String,
    pub server_dat_path: String,
    pub worlds_state: BridgeDataLoadState,
    pub servers_state: BridgeDataLoadState,
    pub status: InstanceStatus,
}

/// Mathematical model of an [`Instance`].
pub ghost struct InstanceView {
    pub id: InstanceID,
    pub name: Seq<char>,
    pub version: Seq<char>,
    pub loader: Loader,
    pub root_path: Seq<char>,
    pub saves_path: Seq<char>,
    pub server_dat_path: Seq<char>,
    pub worlds_state: BridgeDataLoadState,
    pub servers_state: BridgeDataLoadState,
    pub status: InstanceStatus,
}

impl View for Instance {
    type V = InstanceView;

    open spec fn view(&self) -> InstanceView {
        InstanceView {
            id: self.id,
            name: self.name@,
            version: self.version@,
            loader: self.loader,
            root_path: self.root_path@,
            saves_path: self.saves_path@,
            server_dat_path: self.server_dat_path@,
            worlds_state: self.worlds_state,
            servers_state: self.servers_state,
            status: self.status,
        }
    }
}

impl InstanceView {
    /// The instance as it is right after discovery: not registered, nothing
    /// loaded, no process.
    pub open spec fn discovered(
        name: Seq<char>,
        info: InstanceInfoView,
        root_path: Seq<char>,
        saves_path: Seq<char>,
        server_dat_path: Seq<char>,
    ) -> InstanceView {
        InstanceView {
            id: InstanceID { index: usize::MAX, generation: usize::MAX },
            name,
            version: info.minecraft_version,
            loader: info.loader,
            root_path,
            saves_path,
            server_dat_path,
            worlds_state: BridgeDataLoadState::Unloaded,
            servers_state: BridgeDataLoadState::Unloaded,
            status: InstanceStatus::Idle,
        }
    }

    /// This instance with another process status.
    pub open spec fn with_status(self, status: InstanceStatus) -> InstanceView {
        InstanceView { status, ..self }
    }

    /// The load state of one of the lazily loaded collections.
    pub open spec fn load_state(self, which: LazyData) -> BridgeDataLoadState {
        match which {
            LazyData::Worlds => self.worlds_state,
            LazyData::Servers => self.servers_state,
        }
    }

    /// This instance with another load state for one of its collections.
    pub open spec fn with_load_state(
        self,
        which: LazyData,
        state: BridgeDataLoadState,
    ) -> InstanceView {
        match which {
            LazyData::Worlds => InstanceView { worlds_state: state, ..self },
            LazyData::Servers => InstanceView { servers_state: state, ..self },
        }
    }

    /// The path that holds one of the lazily loaded collections.
    pub open spec fn data_path(self, which: LazyData) -> Seq<char> {
        match which {
            LazyData::Worlds => self.saves_path,
            LazyData::Servers => self.server_dat_path,
        }
    }

    /// This instance with the name, version and loader of `other`.
    pub open spec fn with_basic_attributes_of(self, other: InstanceView) -> InstanceView {
        InstanceView { name: other.name, version: other.version, loader: other.loader, ..self }
    }
}

impl Instance {
    /// The instance found in the directory `root_path`, named `name`, whose
    /// descriptor states `info`.
    pub fn new(
        name: String,
        info: InstanceInfo,
        root_path: String,
        saves_path: String,
        server_dat_path: String,
    ) -> (res: Instance)
        ensures
            res@ == InstanceView::discovered(
                name@,
                info@,
                root_path@,
                saves_path@,
                server_dat_path@,
            ),
    {
        Instance {
            id: InstanceID::dangling(),
            name,
            version: info.minecraft_version,
            loader: info.loader,
            root_path,
            saves_path,
            server_dat_path,
            worlds_state: BridgeDataLoadState::Unloaded,
            servers_state: BridgeDataLoadState::Unloaded,
            status: InstanceStatus::Idle,
        }
    }

    /// Takes over the name, version and loader of `other`, a newer reading of
    /// the same directory. Identity, paths, load states and process status
    /// stay.
    pub fn copy_basic_attributes_from(&mut self, other: Instance)
        ensures
            final(self)@ == old(self)@.with_basic_attributes_of(other@),
    {
        self.name = other.name;
        self.version = other.version;
        self.loader = other.loader;
    }

    /// A copy of this instance.
    pub fn duplicate(&self) -> (res: Instance)
        ensures
            res@ == self@,
    {
        Instance {
            id: self.id,
            name: self.name.clone(),
            version: self.version.clone(),
            loader: self.loader,
            root_path: self.root_path.clone(),
            saves_path: self.saves_path.clone(),
            server_dat_path: self.server_dat_path.clone(),
            worlds_state: self.worlds_state,
            servers_state: self.servers_state,
            status: self.status,
        }
    }
}

/// One world found in an instance's saves directory.
#[derive(Debug, Clone, PartialEq, Eq)]
pub struct InstanceWorldSummary {
    pub title: String,
    pub level_path: String,
}

/// Mathematical model of an [`InstanceWorldSummary`].
pub ghost struct InstanceWorldSummaryView {
    pub title: Seq<char>,
    pub level_path: Seq<char>,
}

impl View for InstanceWorldSummary {
    type V = InstanceWorldSummaryView;

    open spec fn view(&self) -> InstanceWorldSummaryView {
        InstanceWorldSummaryView { title: self.title@, level_path: self.level_path@ }
    }
}

/// One entry of an instance's server list.
#[derive(Debug, Clone, PartialEq, Eq)]
pub struct InstanceServerSummary {
    pub name: String,
    pub ip: String,
}

/// Mathematical model of an [`InstanceServerSummary`].
pub ghost struct InstanceServerSummaryView {
    pub name: Seq<char>,
    pub ip: Seq<char>,
}

impl View for InstanceServerSummary {
    type V = InstanceServerSummaryView;

    open spec fn view(&self) -> InstanceServerSummaryView {
        InstanceServerSummaryView { name: self.name@, ip: self.ip@ }
    }
}

} // verus!
