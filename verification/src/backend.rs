//! The instance registry: which instances are known, under which
//! identifiers and paths, and which paths are watched for what.
//!
//! The registry performs no input or output. Every operation takes what was
//! observed outside and returns the [`Action`]s that follow from it, in the
//! order in which they are to be carried out.

use vstd::prelude::*;
use slab::Slab;
use crate::instance::{
    Instance, InstanceID, InstanceInfo, InstanceInfoView, InstanceStatus, InstanceView, LazyData,
};
use crate::message::{
    BridgeDataLoadState, BridgeNotificationType, MessageToFrontend, MessageToFrontendView,
    QuickPlayLaunch, QuickPlayLaunchView, StartLoadResult, quick_play_view,
};
use crate::text::str_eq;
use crate::path_table::PathTable;
use crate::slab_store::{
    slab_entries, slab_get, slab_get_mut, slab_insert, slab_keys, slab_new, slab_next_key,
    slab_remove, slab_vacant_key,
};
use crate::coherence::{
    lemma_empty_is_coherent, lemma_load_decides_presence, lemma_load_keeps_coherent,
    lemma_load_state_keeps_coherent, lemma_removal_keeps_coherent, lemma_status_keeps_coherent,
    lemma_watch_keeps_coherent,
};
use crate::text::{concat3, debug_quoted, quote_debug};

verus! {

/// What a watched path means to the registry.
#[derive(Debug, Clone, Copy, PartialEq, Eq, Structural)]
pub enum WatchTarget {
    /// The directory that holds the instance directories.
    InstancesDir,
    /// The root directory of an instance.
    InstanceDir { id: InstanceID },
    /// A directory under the instances directory that holds no valid
    /// instance. It stays watched so that a later repair is noticed.
    InvalidInstanceDir,
    /// The directory of one world of an instance.
    InstanceLevelDir { id: InstanceID },
    /// The saves directory of an instance.
    InstanceSavesDir { id: InstanceID },
    /// The server list file of an instance.
    ServersDat { id: InstanceID },
}

/// A request to watch a path, not recursively.
#[derive(Debug, Clone, PartialEq, Eq)]
pub struct WatchRequest {
    pub path: String,
    pub target: WatchTarget,
    /// Whether the user is told when the path cannot be watched.
    pub report_failure: bool,
}

/// Mathematical model of a [`WatchRequest`].
pub ghost struct WatchRequestView {
    pub path: Seq<char>,
    pub target: WatchTarget,
    pub report_failure: bool,
}

impl View for WatchRequest {
    type V = WatchRequestView;

    open spec fn view(&self) -> WatchRequestView {
        WatchRequestView {
            path: self.path@,
            target: self.target,
            report_failure: self.report_failure,
        }
    }
}

/// Something the event loop has to carry out for the registry.
#[derive(Debug, PartialEq, Eq)]
pub enum Action {
    /// Deliver a message to the front end.
    Send(MessageToFrontend),
    /// Register a watch and report the outcome to
    /// [`BackendState::watch_filesystem`].
    Watch(WatchRequest),
    /// Read the instance descriptor in the directory `path` and report the
    /// outcome to [`BackendState::instance_discovered`].
    LoadInstance { path: String, show_errors: bool, show_success: bool },
    /// Create the instances directory if it is missing.
    EnsureInstancesDir,
    /// List the children of the instances directory and treat each like
    /// `LoadInstance`.
    RescanInstances { show_errors: bool, show_success: bool },
    /// Create the directory of a new instance named `name`.
    CreateInstanceDir { name: String },
    /// Write the descriptor of the new instance named `name`.
    WriteInstanceInfo { name: String, info: InstanceInfo },
    /// Kill the process of the instance and report the outcome to
    /// [`BackendState::kill_finished`].
    KillProcess { id: InstanceID },
    /// Open a progress tracker with this title and attach it to the dialog
    /// of the command that is being served.
    OpenTracker { title: String },
    /// Launch the instance, reporting progress through the open tracker,
    /// and report the outcome to [`BackendState::launch_finished`].
    Launch { id: InstanceID, quick_play: Option<QuickPlayLaunch> },
    /// Mark the open tracker as finished, with whether the work failed, and
    /// notify its observers.
    FinishTracker { failed: bool },
    /// Load the worlds under `saves_path` and report them in a tick.
    LoadWorlds { id: InstanceID, saves_path: String },
    /// Load the servers in `server_dat_path` and report them in a tick.
    LoadServers { id: InstanceID, server_dat_path: String },
    /// Load the version manifest, from the remote source if `reload`.
    LoadVersionManifest { reload: bool },
    /// Run the bulk metadata verification pass.
    DownloadAllMetadata,
    /// Close the dialog of the command that is being served, with the error
    /// it ended in, if any.
    FinishModal { error: Option<String> },
}

/// Mathematical model of an [`Action`].
pub ghost enum ActionView {
    Send(MessageToFrontendView),
    Watch(WatchRequestView),
    LoadInstance { path: Seq<char>, show_errors: bool, show_success: bool },
    EnsureInstancesDir,
    RescanInstances { show_errors: bool, show_success: bool },
    CreateInstanceDir { name: Seq<char> },
    WriteInstanceInfo { name: Seq<char>, info: InstanceInfoView },
    KillProcess { id: InstanceID },
    OpenTracker { title: Seq<char> },
    Launch { id: InstanceID, quick_play: Option<QuickPlayLaunchView> },
    FinishTracker { failed: bool },
    LoadWorlds { id: InstanceID, saves_path: Seq<char> },
    LoadServers { id: InstanceID, server_dat_path: Seq<char> },
    LoadVersionManifest { reload: bool },
    DownloadAllMetadata,
    FinishModal { error: Option<Seq<char>> },
}

/// The model of an optional string.
pub open spec fn optional_text(text: Option<String>) -> Option<Seq<char>> {
    match text {
        Some(t) => Some(t@),
        None => None,
    }
}

impl View for Action {
    type V = ActionView;

    open spec fn view(&self) -> ActionView {
        match self {
            Action::Send(message) => ActionView::Send(message@),
            Action::Watch(request) => ActionView::Watch(request@),
            Action::LoadInstance { path, show_errors, show_success } => ActionView::LoadInstance {
                path: path@,
                show_errors: *show_errors,
                show_success: *show_success,
            },
            Action::EnsureInstancesDir => ActionView::EnsureInstancesDir,
            Action::RescanInstances { show_errors, show_success } => ActionView::RescanInstances {
                show_errors: *show_errors,
                show_success: *show_success,
            },
            Action::CreateInstanceDir { name } => ActionView::CreateInstanceDir { name: name@ },
            Action::WriteInstanceInfo { name, info } => ActionView::WriteInstanceInfo {
                name: name@,
                info: info@,
            },
            Action::KillProcess { id } => ActionView::KillProcess { id: *id },
            Action::OpenTracker { title } => ActionView::OpenTracker { title: title@ },
            Action::Launch { id, quick_play } => ActionView::Launch {
                id: *id,
                quick_play: quick_play_view(*quick_play),
            },
            Action::FinishTracker { failed } => ActionView::FinishTracker { failed: *failed },
            Action::LoadWorlds { id, saves_path } => ActionView::LoadWorlds {
                id: *id,
                saves_path: saves_path@,
            },
            Action::LoadServers { id, server_dat_path } => ActionView::LoadServers {
                id: *id,
                server_dat_path: server_dat_path@,
            },
            Action::LoadVersionManifest { reload } => ActionView::LoadVersionManifest {
                reload: *reload,
            },
            Action::DownloadAllMetadata => ActionView::DownloadAllMetadata,
            Action::FinishModal { error } => ActionView::FinishModal {
                error: optional_text(*error),
            },
        }
    }
}

/// The models of a sequence of actions.
pub open spec fn actions_view(actions: Seq<Action>) -> Seq<ActionView> {
    actions.map_values(|a: Action| a@)
}

impl ActionView {
    /// The delivery of a notification.
    pub open spec fn notify(notification_type: BridgeNotificationType, message: Seq<char>) -> ActionView {
        ActionView::Send(MessageToFrontendView::notification(notification_type, message))
    }

    /// The delivery of the current attributes and status of an instance.
    pub open spec fn modified(instance: InstanceView) -> ActionView {
        ActionView::Send(instance.modify_message(instance.status))
    }
}

impl InstanceView {
    /// The message that announces the attributes of the instance, with the
    /// given status.
    pub open spec fn modify_message(self, status: InstanceStatus) -> MessageToFrontendView {
        MessageToFrontendView::InstanceModified {
            id: self.id,
            name: self.name,
            version: self.version,
            loader: self.loader,
            status,
        }
    }

    /// The message that announces the instance as newly registered.
    pub open spec fn added_message(self) -> MessageToFrontendView {
        MessageToFrontendView::InstanceAdded {
            id: self.id,
            name: self.name,
            version: self.version,
            loader: self.loader,
            worlds_state: self.worlds_state,
            servers_state: self.servers_state,
        }
    }
}

impl Instance {
    /// The message that announces the attributes of the instance and its
    /// current status.
    pub fn create_modify_message(&self) -> (res: MessageToFrontend)
        ensures
            res@ == self@.modify_message(self@.status),
    {
        self.create_modify_message_with_status(self.status)
    }

    /// The message that announces the attributes of the instance, with
    /// another status than its own.
    pub fn create_modify_message_with_status(&self, status: InstanceStatus) -> (res:
        MessageToFrontend)
        ensures
            res@ == self@.modify_message(status),
    {
        MessageToFrontend::InstanceModified {
            id: self.id,
            name: self.name.clone(),
            version: self.version.clone(),
            loader: self.loader,
            status,
        }
    }

    /// The message that announces the instance as newly registered.
    pub fn create_added_message(&self) -> (res: MessageToFrontend)
        ensures
            res@ == self@.added_message(),
    {
        MessageToFrontend::InstanceAdded {
            id: self.id,
            name: self.name.clone(),
            version: self.version.clone(),
            loader: self.loader,
            worlds_state: self.worlds_state,
            servers_state: self.servers_state,
        }
    }
}

/// Appends one action.
pub fn emit(actions: &mut Vec<Action>, action: Action)
    ensures
        actions_view(final(actions)@) == actions_view(old(actions)@).push(action@),
        final(actions)@ == old(actions)@.push(action),
{
    actions.push(action);
    assert(actions_view(actions@) =~= actions_view(old(actions)@).push(action@));
}

/// Appends the delivery of a notification.
pub fn emit_notification(
    actions: &mut Vec<Action>,
    notification_type: BridgeNotificationType,
    message: String,
)
    ensures
        actions_view(final(actions)@) == actions_view(old(actions)@).push(
            ActionView::notify(notification_type, message@),
        ),
{
    emit(actions, Action::Send(MessageToFrontend::notification(notification_type, message)));
}

/// The text that warns the user of a path that could not be watched.
pub open spec fn watch_error_text(path: Seq<char>) -> Seq<char> {
    "Unable to watch directory "@ + debug_quoted(path)
        + ", launcher may be out of sync with files!"@
}

/// The user-facing text for a removed instance.
pub open spec fn removed_text(name: Seq<char>) -> Seq<char> {
    "Instance '"@ + name + "' removed"@
}

/// The user-facing text for an updated instance.
pub open spec fn updated_text(name: Seq<char>) -> Seq<char> {
    "Instance '"@ + name + "' updated"@
}

/// The user-facing text for a newly registered instance.
pub open spec fn created_text(name: Seq<char>) -> Seq<char> {
    "Instance '"@ + name + "' created"@
}

/// The user-facing text for a directory that holds no valid instance.
pub open spec fn load_error_text(path: Seq<char>, error: Seq<char>) -> Seq<char> {
    "Unable to load instance from "@ + debug_quoted(path) + ":\n"@ + error
}

/// Mathematical model of the registry.
pub ghost struct BackendView {
    /// The directory that holds the instance directories.
    pub instances_dir: Seq<char>,
    /// The occupied slots, each with its instance.
    pub instances: Map<usize, InstanceView>,
    /// For each path at which an instance was registered, the identifier it
    /// got there last.
    pub instance_by_path: Map<Seq<char>, InstanceID>,
    /// The watched paths and what they mean.
    pub watching: Map<Seq<char>, WatchTarget>,
    /// The generation that the next registered instance gets.
    pub generation: usize,
    /// Whether the generation counter has run through all its values and
    /// started again from zero.
    pub wrapped: bool,
}

impl BackendView {
    /// Whether `id` addresses a registered instance: its slot is occupied by
    /// an instance that carries this very identifier.
    pub open spec fn live(self, id: InstanceID) -> bool {
        self.instances.contains_key(id.index) && self.instances[id.index].id == id
    }

    /// The identifier of the instance registered at `path`, if there is one.
    pub open spec fn instance_at(self, path: Seq<char>) -> Option<InstanceID> {
        if self.instance_by_path.contains_key(path) && self.live(self.instance_by_path[path]) {
            Some(self.instance_by_path[path])
        } else {
            None
        }
    }

    /// The paths at which an instance is registered.
    pub open spec fn instance_paths(self) -> Set<Seq<char>> {
        Set::new(|path: Seq<char>| self.instance_at(path) is Some)
    }

    /// Whether a registered instance bears the name `name`.
    pub open spec fn name_in_use(self, name: Seq<char>) -> bool {
        exists|slot: usize| #[trigger]
            self.instances.contains_key(slot) && self.instances[slot].name == name
    }

    /// Whether every occupied slot holds an instance that knows its slot.
    pub open spec fn slots_consistent(self) -> bool {
        forall|slot: usize| #[trigger]
            self.instances.contains_key(slot) ==> self.instances[slot].id.index == slot
    }

    /// Whether every identifier that the registry holds was issued before
    /// the current generation.
    pub open spec fn fresh(self) -> bool {
        &&& forall|slot: usize| #[trigger]
            self.instances.contains_key(slot) ==> self.instances[slot].id.generation
                < self.generation
        &&& forall|path: Seq<char>| #[trigger]
            self.instance_by_path.contains_key(path) ==> self.instance_by_path[path].generation
                < self.generation
    }

    /// The registry with another instance in the slot of `id`.
    pub open spec fn with_instance(self, id: InstanceID, instance: InstanceView) -> BackendView {
        BackendView { instances: self.instances.insert(id.index, instance), ..self }
    }

    /// The registry with another process status for the instance `id`, if it
    /// is registered.
    pub open spec fn with_status(self, id: InstanceID, status: InstanceStatus) -> BackendView {
        if self.live(id) {
            self.with_instance(id, self.instances[id.index].with_status(status))
        } else {
            self
        }
    }

    /// The registry with another load state for a collection of the
    /// instance `id`, if it is registered.
    pub open spec fn with_load_state(
        self,
        id: InstanceID,
        which: LazyData,
        state: BridgeDataLoadState,
    ) -> BackendView {
        if self.live(id) {
            self.with_instance(id, self.instances[id.index].with_load_state(which, state))
        } else {
            self
        }
    }

    /// The load state of a collection of the registered instance `id`.
    pub open spec fn load_state(self, id: InstanceID, which: LazyData) -> BridgeDataLoadState {
        self.instances[id.index].load_state(which)
    }

    /// The registry with `id` removed, if it addresses a registered instance.
    pub open spec fn without(self, id: InstanceID) -> BackendView {
        if self.live(id) {
            BackendView { instances: self.instances.remove(id.index), ..self }
        } else {
            self
        }
    }

    /// What follows from a request to remove `id`.
    pub open spec fn removal_actions(self, id: InstanceID) -> Seq<ActionView> {
        if self.live(id) {
            seq![
                ActionView::Send(MessageToFrontendView::InstanceRemoved { id }),
                ActionView::notify(
                    BridgeNotificationType::Info,
                    removed_text(self.instances[id.index].name),
                ),
            ]
        } else {
            seq![]
        }
    }

    /// The registry after the directory `path` was found to hold no valid
    /// instance: an instance registered there is removed.
    pub open spec fn after_load_failure(self, path: Seq<char>) -> BackendView {
        match self.instance_at(path) {
            Some(id) => self.without(id),
            None => self,
        }
    }

    /// What follows when the directory `path` holds no valid instance: the
    /// removal of an instance registered there is announced, and the error
    /// is shown if that was asked for or an instance had to go.
    pub open spec fn load_failure_actions(
        self,
        path: Seq<char>,
        error: Seq<char>,
        show_errors: bool,
    ) -> Seq<ActionView> {
        let existing = self.instance_at(path);
        let removal = match existing {
            Some(id) => seq![ActionView::Send(MessageToFrontendView::InstanceRemoved { id })],
            None => seq![],
        };
        if show_errors || existing is Some {
            removal.push(
                ActionView::notify(BridgeNotificationType::Error, load_error_text(path, error)),
            )
        } else {
            removal
        }
    }

    /// The instance `id` once it has taken over the basic attributes of a
    /// newer reading of its directory.
    pub open spec fn updated_instance(self, id: InstanceID, loaded: InstanceView) -> InstanceView {
        self.instances[id.index].with_basic_attributes_of(loaded)
    }

    /// The registry after the registered instance `id` was read again.
    pub open spec fn after_update(self, id: InstanceID, loaded: InstanceView) -> BackendView {
        BackendView {
            instances: self.instances.insert(id.index, self.updated_instance(id, loaded)),
            ..self
        }
    }

    /// What follows when the registered instance `id` was read again.
    pub open spec fn update_actions(
        self,
        id: InstanceID,
        loaded: InstanceView,
        show_success: bool,
    ) -> Seq<ActionView> {
        let updated = self.updated_instance(id, loaded);
        let first = seq![ActionView::modified(updated)];
        if show_success {
            first.push(ActionView::notify(BridgeNotificationType::Info, updated_text(updated.name)))
        } else {
            first
        }
    }

    /// The identifier that an instance registered in `slot` gets now.
    pub open spec fn next_id(self, slot: usize) -> InstanceID {
        InstanceID { index: slot, generation: self.generation }
    }

    /// The generation counter after one more registration.
    pub open spec fn next_generation(self) -> usize {
        if self.generation == usize::MAX {
            0
        } else {
            (self.generation + 1) as usize
        }
    }

    /// The registry after the instance read at `path` was registered in
    /// `slot`.
    pub open spec fn after_registration(
        self,
        slot: usize,
        path: Seq<char>,
        loaded: InstanceView,
    ) -> BackendView {
        let id = self.next_id(slot);
        BackendView {
            instances: self.instances.insert(slot, InstanceView { id, ..loaded }),
            instance_by_path: self.instance_by_path.insert(path, id),
            generation: self.next_generation(),
            wrapped: self.wrapped || self.generation == usize::MAX,
            ..self
        }
    }

    /// What follows when the instance read at `path` was registered in
    /// `slot`.
    pub open spec fn registration_actions(
        self,
        slot: usize,
        path: Seq<char>,
        loaded: InstanceView,
        show_success: bool,
    ) -> Seq<ActionView> {
        let id = self.next_id(slot);
        let registered = InstanceView { id, ..loaded };
        let first = if show_success {
            seq![ActionView::notify(BridgeNotificationType::Success, created_text(loaded.name))]
        } else {
            seq![]
        };
        first.push(ActionView::Send(registered.added_message())).push(
            ActionView::Watch(
                WatchRequestView {
                    path,
                    target: WatchTarget::InstanceDir { id },
                    report_failure: true,
                },
            ),
        )
    }

    /// The registry after the directory `path` was read, with a new instance
    /// going to `slot`.
    pub open spec fn after_load(
        self,
        slot: usize,
        path: Seq<char>,
        loaded: Result<InstanceView, Seq<char>>,
    ) -> BackendView {
        match loaded {
            Err(_) => self.after_load_failure(path),
            Ok(instance) => match self.instance_at(path) {
                Some(id) => self.after_update(id, instance),
                None => self.after_registration(slot, path, instance),
            },
        }
    }

    /// What follows when the directory `path` was read, with a new instance
    /// going to `slot`.
    pub open spec fn load_actions(
        self,
        slot: usize,
        path: Seq<char>,
        loaded: Result<InstanceView, Seq<char>>,
        show_errors: bool,
        show_success: bool,
    ) -> Seq<ActionView> {
        match loaded {
            Err(error) => self.load_failure_actions(path, error, show_errors),
            Ok(instance) => match self.instance_at(path) {
                Some(id) => self.update_actions(id, instance, show_success),
                None => self.registration_actions(slot, path, instance, show_success),
            },
        }
    }

    /// What follows when a directory under the instances directory was read:
    /// as for any read, and a directory without a valid instance is watched
    /// so that its repair is noticed.
    pub open spec fn discovery_actions(
        self,
        slot: usize,
        path: Seq<char>,
        loaded: Result<InstanceView, Seq<char>>,
        show_errors: bool,
        show_success: bool,
    ) -> Seq<ActionView> {
        let actions = self.load_actions(slot, path, loaded, show_errors, show_success);
        if loaded is Err {
            actions.push(
                ActionView::Watch(
                    WatchRequestView {
                        path,
                        target: WatchTarget::InvalidInstanceDir,
                        report_failure: show_errors,
                    },
                ),
            )
        } else {
            actions
        }
    }

    /// The registry after the outcome of a watch request is known.
    pub open spec fn after_watch(self, request: WatchRequestView, watched: bool) -> BackendView {
        if watched {
            BackendView { watching: self.watching.insert(request.path, request.target), ..self }
        } else {
            self
        }
    }
}

/// The message that follows from the outcome of a watch request, if any.
pub open spec fn watch_outcome_message(request: WatchRequestView, watched: bool) -> Option<
    MessageToFrontendView,
> {
    if !watched && request.report_failure {
        Some(
            MessageToFrontendView::notification(
                BridgeNotificationType::Warning,
                watch_error_text(request.path),
            ),
        )
    } else {
        None
    }
}

/// The model of an optional message.
pub open spec fn optional_message(message: Option<MessageToFrontend>) -> Option<
    MessageToFrontendView,
> {
    match message {
        Some(m) => Some(m@),
        None => None,
    }
}

/// The model of what reading an instance directory gave.
pub open spec fn loaded_view(loaded: Result<Instance, String>) -> Result<InstanceView, Seq<char>> {
    match loaded {
        Ok(instance) => Ok(instance@),
        Err(error) => Err(error@),
    }
}

/// The instance registry.
pub struct BackendState {
    instances_dir: String,
    watching: PathTable<WatchTarget>,
    instances: Slab<Instance>,
    instance_by_path: PathTable<InstanceID>,
    instances_generation: usize,
    wrapped: Ghost<bool>,
}

impl View for BackendState {
    type V = BackendView;

    closed spec fn view(&self) -> BackendView {
        BackendView {
            instances_dir: self.instances_dir@,
            instances: slab_entries(self.instances).map_values(|i: Instance| i@),
            instance_by_path: self.instance_by_path@,
            watching: self.watching@,
            generation: self.instances_generation,
            wrapped: self.wrapped@,
        }
    }
}

impl BackendState {
    /// Whether the registry is well formed.
    pub closed spec fn wf(&self) -> bool {
        &&& self.watching.wf()
        &&& self.instance_by_path.wf()
        &&& forall|slot: usize| #[trigger]
            slab_entries(self.instances).contains_key(slot) ==> slab_entries(
                self.instances,
            )[slot].id.index == slot
        &&& !self.wrapped@ ==> self@.coherent()
    }

    /// A well-formed registry whose generation counter has not started
    /// again is coherent.
    pub proof fn lemma_wf_coherent(&self)
        requires
            self.wf(),
            !self@.wrapped,
        ensures
            self@.coherent(),
    {
    }

    /// The slot that the next registered instance takes.
    pub closed spec fn vacant_slot(&self) -> usize {
        slab_vacant_key(self.instances)
    }

    /// In a well-formed registry every instance knows its slot.
    pub proof fn lemma_wf_slots(&self)
        requires
            self.wf(),
        ensures
            self@.slots_consistent(),
    {
    }

    /// A registry without instances and without watches.
    pub fn new(instances_dir: String) -> (res: BackendState)
        ensures
            res.wf(),
            res@ == (BackendView {
                instances_dir: instances_dir@,
                instances: Map::empty(),
                instance_by_path: Map::empty(),
                watching: Map::empty(),
                generation: 0,
                wrapped: false,
            }),
    {
        let res = BackendState {
            instances_dir,
            watching: PathTable::new(),
            instances: slab_new(),
            instance_by_path: PathTable::new(),
            instances_generation: 0,
            wrapped: Ghost(false),
        };
        assert(res@.instances =~= Map::empty());
        proof {
            lemma_empty_is_coherent(res@);
        }
        res
    }

    /// The directory that holds the instance directories.
    pub fn instances_dir(&self) -> (res: &str)
        ensures
            res@ == self@.instances_dir,
    {
        self.instances_dir.as_str()
    }

    /// The generation that the next registered instance gets.
    pub fn instances_generation(&self) -> (res: usize)
        ensures
            res == self@.generation,
    {
        self.instances_generation
    }

    /// The instance that `id` addresses, if it is registered.
    pub fn instance(&self, id: InstanceID) -> (res: Option<&Instance>)
        ensures
            res is Some <==> self@.live(id),
            res is Some ==> res->0@ == self@.instances[id.index],
    {
        match slab_get(&self.instances, id.index) {
            Some(instance) => if instance.id == id {
                Some(instance)
            } else {
                None
            },
            None => None,
        }
    }

    /// The identifier of the instance registered at `path`, if there is one.
    pub fn instance_id_at(&self, path: &str) -> (res: Option<InstanceID>)
        requires
            self.wf(),
        ensures
            res == self@.instance_at(path@),
    {
        match self.instance_by_path.get(path) {
            Some(id) => if self.instance(id).is_some() {
                Some(id)
            } else {
                None
            },
            None => None,
        }
    }

    /// What the watched path `path` means, if it is watched.
    pub fn watch_target(&self, path: &str) -> (res: Option<WatchTarget>)
        requires
            self.wf(),
        ensures
            res == (if self@.watching.contains_key(path@) {
                Some(self@.watching[path@])
            } else {
                None
            }),
    {
        self.watching.get(path)
    }

    /// Records the outcome of a watch request. A path that is watched is
    /// associated with its target, in place of an earlier target. A path
    /// that could not be watched is left out; the returned message warns the
    /// user, where the request asks for that.
    pub fn watch_filesystem(&mut self, request: WatchRequest, watched: bool) -> (res: Option<
        MessageToFrontend,
    >)
        requires
            old(self).wf(),
        ensures
            final(self).wf(),
            final(self)@ == old(self)@.after_watch(request@, watched),
            final(self).vacant_slot() == old(self).vacant_slot(),
            optional_message(res) == watch_outcome_message(request@, watched),
    {
        proof {
            if self@.coherent() {
                lemma_watch_keeps_coherent(self@, request@, watched);
            }
        }
        if watched {
            self.watching.insert(request.path, request.target);
            None
        } else if request.report_failure {
            let quoted = quote_debug(request.path.as_str());
            let text = concat3(
                "Unable to watch directory ",
                quoted.as_str(),
                ", launcher may be out of sync with files!",
            );
            Some(MessageToFrontend::notification(BridgeNotificationType::Warning, text))
        } else {
            None
        }
    }

    /// Removes the instance that `id` addresses and announces the removal.
    /// The slot it leaves is the one that the next registered instance
    /// takes. An identifier that addresses no registered instance, such as
    /// one whose slot was given to another instance since, changes nothing.
    pub fn remove_instance(&mut self, id: InstanceID) -> (res: Vec<Action>)
        requires
            old(self).wf(),
        ensures
            final(self).wf(),
            final(self)@ == old(self)@.without(id),
            actions_view(res@) == old(self)@.removal_actions(id),
            final(self).vacant_slot() == (if old(self)@.live(id) {
                id.index
            } else {
                old(self).vacant_slot()
            }),
            !old(self)@.wrapped && old(self)@.live(id) ==> id.generation < final(self)@.generation,
    {
        let mut actions: Vec<Action> = Vec::new();
        assert(actions_view(actions@) =~= seq![]);
        proof {
            if self@.coherent() {
                lemma_removal_keeps_coherent(self@, id);
                if self@.live(id) {
                    assert(self@.instances.contains_key(id.index));
                }
            }
        }
        if self.instance(id).is_some() {
            let instance = slab_remove(&mut self.instances, id.index);
            assert(self@.instances =~= old(self)@.instances.remove(id.index));
            emit(&mut actions, Action::Send(MessageToFrontend::InstanceRemoved { id }));
            let text = concat3("Instance '", instance.name.as_str(), "' removed");
            emit_notification(&mut actions, BridgeNotificationType::Info, text);
        }
        actions
    }

    /// Takes in what reading the instance directory `path` gave.
    ///
    /// A failed read removes the instance registered at `path`, if any, and
    /// announces the removal; the error is shown to the user if `show_errors`
    /// or an instance had to go. A successful read of a directory with a
    /// registered instance updates its name, version and loader in place and
    /// announces the change; its identifier stays. A successful read of any
    /// other directory registers a new instance in the vacant slot, under
    /// the current generation, which then advances; the instance is
    /// announced and a watch on its directory is requested.
    ///
    /// Returns whether a usable instance now exists at `path`. As long as
    /// the generation counter has not started again from zero, that is
    /// exactly whether an instance is registered there afterwards, and every
    /// other path keeps the instance it had.
    pub fn load_instance_from_path(
        &mut self,
        path: &str,
        loaded: Result<Instance, String>,
        show_errors: bool,
        show_success: bool,
    ) -> (res: (bool, Vec<Action>))
        requires
            old(self).wf(),
        ensures
            final(self).wf(),
            final(self)@ == old(self)@.after_load(
                old(self).vacant_slot(),
                path@,
                loaded_view(loaded),
            ),
            actions_view(res.1@) == old(self)@.load_actions(
                old(self).vacant_slot(),
                path@,
                loaded_view(loaded),
                show_errors,
                show_success,
            ),
            res.0 == loaded is Ok,
            !old(self)@.instances.contains_key(old(self).vacant_slot()),
            loaded is Err ==> final(self).vacant_slot() == (match old(self)@.instance_at(path@) {
                Some(id) => id.index,
                None => old(self).vacant_slot(),
            }),
            loaded is Ok && old(self)@.instance_at(path@) is Some ==> final(self).vacant_slot()
                == old(self).vacant_slot(),
            loaded is Ok && old(self)@.instance_at(path@) is None ==> final(self)@.instance_at(path@)
                == Some(old(self)@.next_id(old(self).vacant_slot())),
            !old(self)@.wrapped ==> res.0 == final(self)@.instance_at(path@) is Some,
            !old(self)@.wrapped ==> forall|other: Seq<char>|
                other != path@ ==> #[trigger] final(self)@.instance_at(other)
                    == old(self)@.instance_at(other),
    {
        let mut actions: Vec<Action> = Vec::new();
        assert(actions_view(actions@) =~= seq![]);
        let slot = slab_next_key(&self.instances);
        proof {
            if self@.coherent() {
                lemma_load_decides_presence(self@, slot, path@, loaded_view(loaded));
                if self@.generation < usize::MAX || !(loaded is Ok && self@.instance_at(path@)
                    is None) {
                    lemma_load_keeps_coherent(self@, slot, path@, loaded_view(loaded));
                }
            }
        }
        let existing = self.instance_id_at(path);
        match loaded {
            Err(error) => {
                let mut report = show_errors;
                if let Some(id) = existing {
                    let _ = slab_remove(&mut self.instances, id.index);
                    assert(self@.instances =~= old(self)@.instances.remove(id.index));
                    emit(&mut actions, Action::Send(MessageToFrontend::InstanceRemoved { id }));
                    report = true;
                }
                if report {
                    let quoted = quote_debug(path);
                    let mut text = concat3("Unable to load instance from ", quoted.as_str(), ":\n");
                    text.append(error.as_str());
                    emit_notification(&mut actions, BridgeNotificationType::Error, text);
                }
                (false, actions)
            },
            Ok(instance) => {
                match existing {
                    Some(id) => {
                        match slab_get_mut(&mut self.instances, id.index) {
                            Some(existing_instance) => {
                                existing_instance.copy_basic_attributes_from(instance);
                                emit(
                                    &mut actions,
                                    Action::Send(existing_instance.create_modify_message()),
                                );
                                if show_success {
                                    let text = concat3(
                                        "Instance '",
                                        existing_instance.name.as_str(),
                                        "' updated",
                                    );
                                    emit_notification(
                                        &mut actions,
                                        BridgeNotificationType::Info,
                                        text,
                                    );
                                }
                            },
                            None => {},
                        }
                        assert(self@.instances =~= old(self)@.instances.insert(
                            id.index,
                            old(self)@.updated_instance(id, instance@),
                        ));
                        (true, actions)
                    },
                    None => {
                        let mut instance = instance;
                        let id = InstanceID { index: slot, generation: self.instances_generation };
                        let ghost over = self.wrapped@ || self.instances_generation == usize::MAX;
                        self.wrapped = Ghost(over);
                        self.instances_generation = if self.instances_generation == usize::MAX {
                            0
                        } else {
                            self.instances_generation + 1
                        };
                        if show_success {
                            let text = concat3("Instance '", instance.name.as_str(), "' created");
                            emit_notification(&mut actions, BridgeNotificationType::Success, text);
                        }
                        instance.id = id;
                        let ghost registered = instance@;
                        emit(&mut actions, Action::Send(instance.create_added_message()));
                        let _ = slab_insert(&mut self.instances, instance);
                        assert(self@.instances =~= old(self)@.instances.insert(slot, registered));
                        self.instance_by_path.insert(path.to_owned(), id);
                        emit(
                            &mut actions,
                            Action::Watch(
                                WatchRequest {
                                    path: path.to_owned(),
                                    target: WatchTarget::InstanceDir { id },
                                    report_failure: true,
                                },
                            ),
                        );
                        (true, actions)
                    },
                }
            },
        }
    }

    /// Takes in what reading a directory under the instances directory gave:
    /// as [`BackendState::load_instance_from_path`], and a directory without
    /// a valid instance is watched as such, so that its repair is noticed.
    pub fn instance_discovered(
        &mut self,
        path: &str,
        loaded: Result<Instance, String>,
        show_errors: bool,
        show_success: bool,
    ) -> (res: Vec<Action>)
        requires
            old(self).wf(),
        ensures
            final(self).wf(),
            final(self)@ == old(self)@.after_load(
                old(self).vacant_slot(),
                path@,
                loaded_view(loaded),
            ),
            actions_view(res@) == old(self)@.discovery_actions(
                old(self).vacant_slot(),
                path@,
                loaded_view(loaded),
                show_errors,
                show_success,
            ),
            !old(self)@.instances.contains_key(old(self).vacant_slot()),
            loaded is Err ==> final(self).vacant_slot() == (match old(self)@.instance_at(path@) {
                Some(id) => id.index,
                None => old(self).vacant_slot(),
            }),
            loaded is Ok && old(self)@.instance_at(path@) is Some ==> final(self).vacant_slot()
                == old(self).vacant_slot(),
            loaded is Ok && old(self)@.instance_at(path@) is None ==> final(self)@.instance_at(path@)
                == Some(old(self)@.next_id(old(self).vacant_slot())),
            !old(self)@.wrapped ==> loaded is Ok == final(self)@.instance_at(path@) is Some,
            !old(self)@.wrapped ==> forall|other: Seq<char>|
                other != path@ ==> #[trigger] final(self)@.instance_at(other)
                    == old(self)@.instance_at(other),
    {
        let (usable, mut actions) = self.load_instance_from_path(
            path,
            loaded,
            show_errors,
            show_success,
        );
        if !usable {
            emit(
                &mut actions,
                Action::Watch(
                    WatchRequest {
                        path: path.to_owned(),
                        target: WatchTarget::InvalidInstanceDir,
                        report_failure: show_errors,
                    },
                ),
            );
        }
        actions
    }

    /// Whether a registered instance bears the name `name`.
    pub fn name_in_use(&self, name: &str) -> (res: bool)
        ensures
            res == self@.name_in_use(name@),
    {
        let keys = slab_keys(&self.instances);
        let mut i: usize = 0;
        while i < keys.len()
            invariant
                i <= keys.len(),
                forall|k: usize| keys@.contains(k) <==> slab_entries(self.instances).contains_key(k),
                forall|j: int|
                    0 <= j < i ==> slab_entries(self.instances)[#[trigger] keys@[j]].name@ != name@,
            decreases keys.len() - i,
        {
            assert(keys@.contains(keys@[i as int]));
            match slab_get(&self.instances, keys[i]) {
                Some(instance) => {
                    if str_eq(instance.name.as_str(), name) {
                        assert(self@.instances.contains_key(keys@[i as int]));
                        return true;
                    }
                },
                None => {},
            }
            i += 1;
        }
        proof {
            if self@.name_in_use(name@) {
                let slot = choose|slot: usize| #[trigger]
                    self@.instances.contains_key(slot) && self@.instances[slot].name == name@;
                assert(keys@.contains(slot));
                let j = choose|j: int| 0 <= j < keys@.len() && keys@[j] == slot;
                assert(slab_entries(self.instances)[keys@[j]].name@ != name@);
            }
        }
        false
    }

    /// The identifiers of the registered instances, by increasing slot.
    pub fn instance_ids(&self) -> (res: Vec<InstanceID>)
        requires
            self.wf(),
        ensures
            forall|i: int| 0 <= i < res.len() ==> self@.live(#[trigger] res[i]),
            forall|id: InstanceID| self@.live(id) ==> res@.contains(id),
            forall|i: int, j: int| 0 <= i < j < res.len() ==> res[i].index < res[j].index,
    {
        let keys = slab_keys(&self.instances);
        let mut ids: Vec<InstanceID> = Vec::new();
        let mut i: usize = 0;
        while i < keys.len()
            invariant
                self.wf(),
                i <= keys.len(),
                ids.len() == i,
                forall|k: usize| keys@.contains(k) <==> slab_entries(self.instances).contains_key(k),
                forall|j: int|
                    0 <= j < i ==> (#[trigger] ids[j]) == slab_entries(
                        self.instances,
                    )[keys@[j]].id && ids[j].index == keys@[j],
            decreases keys.len() - i,
        {
            assert(keys@.contains(keys@[i as int]));
            match slab_get(&self.instances, keys[i]) {
                Some(instance) => {
                    ids.push(instance.id);
                },
                None => {
                    // A listed slot is occupied, so this branch is never taken.
                    ids.push(InstanceID { index: keys[i], generation: 0 });
                },
            }
            i += 1;
        }
        proof {
            assert forall|j: int| 0 <= j < ids.len() implies self@.live(#[trigger] ids[j]) by {
                assert(keys@.contains(keys@[j]));
            }
            assert forall|id: InstanceID| self@.live(id) implies ids@.contains(id) by {
                assert(keys@.contains(id.index));
                let j = choose|j: int| 0 <= j < keys@.len() && keys@[j] == id.index;
                assert(ids[j] == id);
            }
        }
        ids
    }

    /// Sets the process status of the instance `id`, if it is registered.
    pub fn set_status(&mut self, id: InstanceID, status: InstanceStatus)
        requires
            old(self).wf(),
        ensures
            final(self).wf(),
            final(self)@ == old(self)@.with_status(id, status),
            final(self).vacant_slot() == old(self).vacant_slot(),
    {
        proof {
            if self@.coherent() {
                lemma_status_keeps_coherent(self@, id, status);
            }
        }
        match slab_get_mut(&mut self.instances, id.index) {
            Some(instance) => {
                if instance.id == id {
                    instance.status = status;
                }
            },
            None => {},
        }
        assert(self@.instances =~= old(self)@.with_status(id, status).instances);
    }

    /// Records a request to load a collection of the instance `id`. Returns
    /// what the request led to, or nothing if the instance is not
    /// registered.
    pub fn start_load(&mut self, id: InstanceID, which: LazyData) -> (res: Option<StartLoadResult>)
        requires
            old(self).wf(),
        ensures
            final(self).wf(),
            final(self).vacant_slot() == old(self).vacant_slot(),
            old(self)@.live(id) ==> res == Some(
                old(self)@.load_state(id, which).after_request().1,
            ) && final(self)@ == old(self)@.with_load_state(
                id,
                which,
                old(self)@.load_state(id, which).after_request().0,
            ),
            !old(self)@.live(id) ==> res is None && final(self)@ == old(self)@,
    {
        proof {
            if self@.coherent() {
                lemma_load_state_keeps_coherent(
                    self@,
                    id,
                    which,
                    self@.load_state(id, which).after_request().0,
                );
            }
        }
        let mut res: Option<StartLoadResult> = None;
        match slab_get_mut(&mut self.instances, id.index) {
            Some(instance) => {
                if instance.id == id {
                    res = Some(
                        match which {
                            LazyData::Worlds => instance.worlds_state.start_load(),
                            LazyData::Servers => instance.servers_state.start_load(),
                        },
                    );
                }
            },
            None => {},
        }
        assert(self@.instances =~= (if old(self)@.live(id) {
            old(self)@.with_load_state(
                id,
                which,
                old(self)@.load_state(id, which).after_request().0,
            )
        } else {
            old(self)@
        }).instances);
        res
    }

    /// Records that the load in flight for a collection of the instance `id`
    /// completed. Returns whether another load has to start at once, or
    /// nothing if the instance is not registered.
    pub fn finish_load(&mut self, id: InstanceID, which: LazyData) -> (res: Option<bool>)
        requires
            old(self).wf(),
        ensures
            final(self).wf(),
            final(self).vacant_slot() == old(self).vacant_slot(),
            old(self)@.live(id) ==> res == Some(
                old(self)@.load_state(id, which).after_completion().1,
            ) && final(self)@ == old(self)@.with_load_state(
                id,
                which,
                old(self)@.load_state(id, which).after_completion().0,
            ),
            !old(self)@.live(id) ==> res is None && final(self)@ == old(self)@,
    {
        proof {
            if self@.coherent() {
                lemma_load_state_keeps_coherent(
                    self@,
                    id,
                    which,
                    self@.load_state(id, which).after_completion().0,
                );
            }
        }
        let mut res: Option<bool> = None;
        match slab_get_mut(&mut self.instances, id.index) {
            Some(instance) => {
                if instance.id == id {
                    res = Some(
                        match which {
                            LazyData::Worlds => instance.worlds_state.finish_load(),
                            LazyData::Servers => instance.servers_state.finish_load(),
                        },
                    );
                }
            },
            None => {},
        }
        assert(self@.instances =~= (if old(self)@.live(id) {
            old(self)@.with_load_state(
                id,
                which,
                old(self)@.load_state(id, which).after_completion().0,
            )
        } else {
            old(self)@
        }).instances);
        res
    }

    /// Records that the data behind a collection of the instance `id`
    /// changed on disk. Returns whether the instance is registered.
    pub fn mark_dirty(&mut self, id: InstanceID, which: LazyData) -> (res: bool)
        requires
            old(self).wf(),
        ensures
            final(self).wf(),
            final(self).vacant_slot() == old(self).vacant_slot(),
            res == old(self)@.live(id),
            final(self)@ == old(self)@.with_load_state(
                id,
                which,
                old(self)@.load_state(id, which).after_change(),
            ),
    {
        proof {
            if self@.coherent() {
                lemma_load_state_keeps_coherent(
                    self@,
                    id,
                    which,
                    self@.load_state(id, which).after_change(),
                );
            }
        }
        let mut res = false;
        match slab_get_mut(&mut self.instances, id.index) {
            Some(instance) => {
                if instance.id == id {
                    match which {
                        LazyData::Worlds => instance.worlds_state.mark_dirty(),
                        LazyData::Servers => instance.servers_state.mark_dirty(),
                    }
                    res = true;
                }
            },
            None => {},
        }
        assert(self@.instances =~= old(self)@.with_load_state(
            id,
            which,
            old(self)@.load_state(id, which).after_change(),
        ).instances);
        res
    }
}

} // verus!
