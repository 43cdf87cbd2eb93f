//! What the registry does with the commands of the front end, with the
//! periodic tick and with changes on disk.

use vstd::prelude::*;
use crate::backend::{
    Action, ActionView, BackendState, BackendView, WatchRequest, WatchRequestView, WatchTarget,
    actions_view, emit, emit_notification,
};
use crate::instance::{
    InstanceID, InstanceInfo, InstanceInfoView, InstanceServerSummary, InstanceServerSummaryView,
    InstanceStatus, InstanceView, InstanceWorldSummary, InstanceWorldSummaryView, LazyData,
};
use crate::is_single_component_path;
use crate::loader::Loader;
use crate::message::{
    BridgeNotificationType, MessageToBackend, MessageToBackendView, MessageToFrontend,
    MessageToFrontendView, QuickPlayLaunch, QuickPlayLaunchView, StartLoadResult, quick_play_view,
    servers_view, worlds_view,
};
use crate::single_component;

verus! {

/// Whether `sanitize_filename` takes `name` for a file name that is safe as
/// it stands, under the given options.
pub uninterp spec fn name_is_sanitized(name: Seq<char>, windows: bool, truncate: bool) -> bool;

/// `sanitize_filename::is_sanitized_with_options`: whether the name is free
/// of what the crate would strip from it (characters that are illegal or
/// reserved in file names and, under `windows`, Windows device names and
/// trailing dots and spaces) and, under `truncate`, no longer than the crate
/// allows. The rules are regular expressions of the crate, so the contract
/// only names the result.
#[verifier::external_body]
pub(crate) fn is_sanitized_name(name: &str, windows: bool, truncate: bool) -> (res: bool)
    ensures
        res == name_is_sanitized(name@, windows, truncate),
{
    sanitize_filename::is_sanitized_with_options(
        name,
        sanitize_filename::OptionsForCheck { windows, truncate },
    )
}

/// The text that rejects an instance name because it is a path.
pub open spec fn name_is_path_text(name: Seq<char>) -> Seq<char> {
    "Unable to create instance, name must not be a path: "@ + name
}

/// The text that rejects an instance name because it is no safe file name.
pub open spec fn name_is_invalid_text(name: Seq<char>) -> Seq<char> {
    "Unable to create instance, name is invalid: "@ + name
}

/// The action that starts loading a collection of an instance.
pub open spec fn load_action(which: LazyData, id: InstanceID, path: Seq<char>) -> ActionView {
    match which {
        LazyData::Worlds => ActionView::LoadWorlds { id, saves_path: path },
        LazyData::Servers => ActionView::LoadServers { id, server_dat_path: path },
    }
}

/// What a watch on the path behind a collection of an instance means.
pub open spec fn data_watch_target(which: LazyData, id: InstanceID) -> WatchTarget {
    match which {
        LazyData::Worlds => WatchTarget::InstanceSavesDir { id },
        LazyData::Servers => WatchTarget::ServersDat { id },
    }
}

impl BackendView {
    /// What follows from a request to create an instance, given whether its
    /// name is a safe file name. A name that is a path, an unsafe name and a
    /// name that a registered instance bears are rejected with a warning;
    /// otherwise the directory is created, the instances directory is
    /// watched and the descriptor is written.
    pub open spec fn create_instance_actions(
        self,
        name: Seq<char>,
        version: Seq<char>,
        loader: Loader,
        sanitized: bool,
    ) -> Seq<ActionView> {
        if !single_component(name) {
            seq![ActionView::notify(BridgeNotificationType::Warning, name_is_path_text(name))]
        } else if !sanitized {
            seq![ActionView::notify(BridgeNotificationType::Warning, name_is_invalid_text(name))]
        } else if self.name_in_use(name) {
            seq![
                ActionView::notify(
                    BridgeNotificationType::Warning,
                    "Unable to create instance, name is already used"@,
                ),
            ]
        } else {
            seq![
                ActionView::CreateInstanceDir { name },
                ActionView::Watch(
                    WatchRequestView {
                        path: self.instances_dir,
                        target: WatchTarget::InstancesDir,
                        report_failure: true,
                    },
                ),
                ActionView::WriteInstanceInfo {
                    name,
                    info: InstanceInfoView { minecraft_version: version, loader },
                },
            ]
        }
    }

    /// Whether the instance `id` is registered and its process runs.
    pub open spec fn running(self, id: InstanceID) -> bool {
        self.live(id) && self.instances[id.index].status == InstanceStatus::Running
    }

    /// Whether the instance `id` is registered and has no process, running
    /// or being launched.
    pub open spec fn idle(self, id: InstanceID) -> bool {
        self.live(id) && self.instances[id.index].status == InstanceStatus::Idle
    }

    /// The registry after a request to kill the process of `id`.
    pub open spec fn after_kill_request(self, id: InstanceID) -> BackendView {
        if self.running(id) {
            self.with_status(id, InstanceStatus::Idle)
        } else {
            self
        }
    }

    /// What follows from a request to kill the process of `id`.
    pub open spec fn kill_request_actions(self, id: InstanceID) -> Seq<ActionView> {
        if self.running(id) {
            seq![ActionView::KillProcess { id }]
        } else if self.live(id) {
            seq![
                ActionView::notify(
                    BridgeNotificationType::Error,
                    "Can't kill instance, instance wasn't running"@,
                ),
            ]
        } else {
            seq![
                ActionView::notify(
                    BridgeNotificationType::Error,
                    "Can't kill instance, unknown id"@,
                ),
            ]
        }
    }

    /// What follows once the attempt to kill the process of `id` is over.
    pub open spec fn kill_finished_actions(self, id: InstanceID, killed: bool) -> Seq<ActionView> {
        let first = if killed {
            seq![]
        } else {
            seq![ActionView::notify(BridgeNotificationType::Error, "Failed to kill instance"@)]
        };
        if self.live(id) {
            first.push(ActionView::modified(self.instances[id.index]))
        } else {
            first
        }
    }

    /// The registry after a request to start `id`.
    pub open spec fn after_start_request(self, id: InstanceID) -> BackendView {
        if self.idle(id) {
            self.with_status(id, InstanceStatus::Launching)
        } else {
            self
        }
    }

    /// What follows from a request to start `id`.
    pub open spec fn start_request_actions(
        self,
        id: InstanceID,
        quick_play: Option<QuickPlayLaunchView>,
    ) -> Seq<ActionView> {
        if self.idle(id) {
            seq![
                ActionView::Send(
                    self.instances[id.index].modify_message(InstanceStatus::Launching),
                ),
                ActionView::OpenTracker { title: "Launching"@ },
                ActionView::Launch { id, quick_play },
            ]
        } else if self.live(id) {
            seq![
                ActionView::notify(
                    BridgeNotificationType::Warning,
                    "Can't launch instance, already running"@,
                ),
                ActionView::FinishModal { error: Some("Can't launch instance, already running"@) },
            ]
        } else {
            seq![
                ActionView::notify(
                    BridgeNotificationType::Error,
                    "Can't launch instance, unknown id"@,
                ),
                ActionView::FinishModal { error: Some("Can't launch instance, unknown id"@) },
            ]
        }
    }

    /// Whether the instance `id` is registered and being launched.
    pub open spec fn launching(self, id: InstanceID) -> bool {
        self.live(id) && self.instances[id.index].status == InstanceStatus::Launching
    }

    /// The process status of an instance once its launch is over.
    pub open spec fn launched_status(error: Option<Seq<char>>) -> InstanceStatus {
        if error is None {
            InstanceStatus::Running
        } else {
            InstanceStatus::Idle
        }
    }

    /// The registry after the launch of `id` is over, with the error it
    /// ended in, if any.
    pub open spec fn after_launch(self, id: InstanceID, error: Option<Seq<char>>) -> BackendView {
        if self.launching(id) {
            self.with_status(id, Self::launched_status(error))
        } else {
            self
        }
    }

    /// What follows once the launch of `id` is over: the tracker is finished
    /// with the failure flag, the dialog is closed with the error, and the
    /// status of an instance that was launching is announced.
    pub open spec fn launch_finished_actions(
        self,
        id: InstanceID,
        error: Option<Seq<char>>,
    ) -> Seq<ActionView> {
        let first = seq![
            ActionView::FinishTracker { failed: error is Some },
            ActionView::FinishModal { error },
        ];
        if self.launching(id) {
            first.push(
                ActionView::Send(
                    self.instances[id.index].modify_message(Self::launched_status(error)),
                ),
            )
        } else {
            first
        }
    }

    /// The registry after a request to load a collection of `id`.
    pub open spec fn after_load_request(self, id: InstanceID, which: LazyData) -> BackendView {
        self.with_load_state(id, which, self.load_state(id, which).after_request().0)
    }

    /// What follows from a request to load a collection of `id`: a first
    /// load starts and the path behind the collection is watched; a stale
    /// collection is loaded again; otherwise nothing starts now.
    pub open spec fn load_request_actions(self, id: InstanceID, which: LazyData) -> Seq<
        ActionView,
    > {
        if !self.live(id) {
            seq![]
        } else {
            let path = self.instances[id.index].data_path(which);
            match self.load_state(id, which).after_request().1 {
                StartLoadResult::Initial => seq![
                    load_action(which, id, path),
                    ActionView::Watch(
                        WatchRequestView {
                            path,
                            target: data_watch_target(which, id),
                            report_failure: false,
                        },
                    ),
                ],
                StartLoadResult::Reload => seq![load_action(which, id, path)],
                _ => seq![],
            }
        }
    }

    /// The registry after a command of the front end.
    pub open spec fn after_message(self, message: MessageToBackendView) -> BackendView {
        match message {
            MessageToBackendView::RequestLoadWorlds { id } => self.after_load_request(
                id,
                LazyData::Worlds,
            ),
            MessageToBackendView::RequestLoadServers { id } => self.after_load_request(
                id,
                LazyData::Servers,
            ),
            MessageToBackendView::KillInstance { id } => self.after_kill_request(id),
            MessageToBackendView::StartInstance { id, quick_play } => self.after_start_request(id),
            _ => self,
        }
    }

    /// What follows from a command of the front end, given whether the name
    /// in it, if it has one, is a safe file name.
    pub open spec fn message_actions(self, message: MessageToBackendView, sanitized: bool) -> Seq<
        ActionView,
    > {
        match message {
            MessageToBackendView::LoadVersionManifest { reload } => seq![
                ActionView::LoadVersionManifest { reload },
            ],
            MessageToBackendView::RequestLoadWorlds { id } => self.load_request_actions(
                id,
                LazyData::Worlds,
            ),
            MessageToBackendView::RequestLoadServers { id } => self.load_request_actions(
                id,
                LazyData::Servers,
            ),
            MessageToBackendView::CreateInstance { name, version, loader } => {
                self.create_instance_actions(name, version, loader, sanitized)
            },
            MessageToBackendView::KillInstance { id } => self.kill_request_actions(id),
            MessageToBackendView::StartInstance { id, quick_play } => self.start_request_actions(
                id,
                quick_play,
            ),
            MessageToBackendView::DownloadAllMetadata => seq![ActionView::DownloadAllMetadata],
        }
    }
}

/// Whether the actions are a refusal: a single warning to the user.
pub open spec fn is_refusal(actions: Seq<ActionView>) -> bool {
    actions.len() == 1 && exists|message: Seq<char>|
        actions[0] == ActionView::notify(BridgeNotificationType::Warning, message)
}

/// A request to create an instance under a name that a registered instance
/// bears is refused with a warning, and the registry stays as it is.
pub proof fn lemma_taken_name_is_refused(
    s: BackendView,
    name: Seq<char>,
    version: Seq<char>,
    loader: Loader,
    sanitized: bool,
)
    requires
        s.name_in_use(name),
    ensures
        is_refusal(s.create_instance_actions(name, version, loader, sanitized)),
        s.after_message(MessageToBackendView::CreateInstance { name, version, loader }) == s,
{
    let actions = s.create_instance_actions(name, version, loader, sanitized);
    if !single_component(name) {
        assert(actions[0] == ActionView::notify(
            BridgeNotificationType::Warning,
            name_is_path_text(name),
        ));
    } else if !sanitized {
        assert(actions[0] == ActionView::notify(
            BridgeNotificationType::Warning,
            name_is_invalid_text(name),
        ));
    } else {
        assert(actions[0] == ActionView::notify(
            BridgeNotificationType::Warning,
            "Unable to create instance, name is already used"@,
        ));
    }
}

/// A request to create an instance under a name that holds a path
/// separator, or that is no safe file name, is refused with a warning, and
/// the registry stays as it is.
pub proof fn lemma_unsafe_name_is_refused(
    s: BackendView,
    name: Seq<char>,
    version: Seq<char>,
    loader: Loader,
    sanitized: bool,
)
    requires
        !sanitized || exists|i: int| 0 <= i < name.len() && crate::is_path_separator(name[i]),
    ensures
        is_refusal(s.create_instance_actions(name, version, loader, sanitized)),
        s.after_message(MessageToBackendView::CreateInstance { name, version, loader }) == s,
{
    let actions = s.create_instance_actions(name, version, loader, sanitized);
    if !single_component(name) {
        assert(actions[0] == ActionView::notify(
            BridgeNotificationType::Warning,
            name_is_path_text(name),
        ));
    } else {
        if sanitized {
            let i = choose|i: int| 0 <= i < name.len() && crate::is_path_separator(name[i]);
            assert(crate::is_path_separator(name[i]));
            assert(false);
        }
        assert(actions[0] == ActionView::notify(
            BridgeNotificationType::Warning,
            name_is_invalid_text(name),
        ));
    }
}

/// A request to kill the process of a registered instance that has none
/// running is answered with an error that says so, and the registry, the
/// status of the instance included, stays as it is.
pub proof fn lemma_kill_without_process(s: BackendView, id: InstanceID)
    requires
        s.live(id),
        !s.running(id),
    ensures
        s.after_message(MessageToBackendView::KillInstance { id }) == s,
        s.message_actions(MessageToBackendView::KillInstance { id }, true) == seq![
            ActionView::notify(
                BridgeNotificationType::Error,
                "Can't kill instance, instance wasn't running"@,
            ),
        ],
{
}

/// The process life cycle of an instance: a start request takes an idle
/// instance to launching; the end of the launch takes it to running, or
/// back to idle if the launch failed; a kill request and the exit of the
/// process take a running instance to idle. Nothing else changes a status.
pub proof fn lemma_process_life_cycle(s: BackendView, id: InstanceID, error: Option<Seq<char>>)
    requires
        s.live(id),
    ensures
        s.idle(id) ==> s.after_start_request(id).launching(id),
        !s.idle(id) ==> s.after_start_request(id) == s,
        s.launching(id) && error is None ==> s.after_launch(id, error).running(id),
        s.launching(id) && error is Some ==> s.after_launch(id, error).idle(id),
        !s.launching(id) ==> s.after_launch(id, error) == s,
        s.running(id) ==> s.after_kill_request(id).idle(id),
        !s.running(id) ==> s.after_kill_request(id) == s,
        s.running(id) ==> s.after_report(TickReportView::ProcessExited { id }).idle(id),
        !s.running(id) ==> s.after_report(TickReportView::ProcessExited { id }) == s,
{
}

/// Whether `sanitize_filename` takes the name in a command for a safe file
/// name, under the options that the registry checks instance names with. A
/// command without a name counts as safe.
pub open spec fn message_name_is_sanitized(message: MessageToBackendView) -> bool {
    match message {
        MessageToBackendView::CreateInstance { name, version, loader } => name_is_sanitized(
            name,
            true,
            true,
        ),
        _ => true,
    }
}

/// The model of the error that a launch ended in.
pub open spec fn launch_error(outcome: Result<(), String>) -> Option<Seq<char>> {
    match outcome {
        Ok(_) => None,
        Err(error) => Some(error@),
    }
}

impl BackendState {
    /// Decides on a request to create an instance named `name`, given
    /// whether the name is a safe file name. The registry itself does not
    /// change: the new instance is registered when its directory shows up.
    pub fn create_instance(
        &self,
        name: String,
        version: String,
        loader: Loader,
        sanitized: bool,
    ) -> (res: Vec<Action>)
        requires
            self.wf(),
        ensures
            actions_view(res@) == self@.create_instance_actions(name@, version@, loader, sanitized),
    {
        let mut actions: Vec<Action> = Vec::new();
        assert(actions_view(actions@) =~= seq![]);
        if !is_single_component_path(name.as_str()) {
            let mut text = "Unable to create instance, name must not be a path: ".to_owned();
            text.append(name.as_str());
            emit_notification(&mut actions, BridgeNotificationType::Warning, text);
        } else if !sanitized {
            let mut text = "Unable to create instance, name is invalid: ".to_owned();
            text.append(name.as_str());
            emit_notification(&mut actions, BridgeNotificationType::Warning, text);
        } else if self.name_in_use(name.as_str()) {
            emit_notification(
                &mut actions,
                BridgeNotificationType::Warning,
                "Unable to create instance, name is already used".to_owned(),
            );
        } else {
            emit(&mut actions, Action::CreateInstanceDir { name: name.clone() });
            emit(
                &mut actions,
                Action::Watch(
                    WatchRequest {
                        path: self.instances_dir().to_owned(),
                        target: WatchTarget::InstancesDir,
                        report_failure: true,
                    },
                ),
            );
            emit(
                &mut actions,
                Action::WriteInstanceInfo {
                    name,
                    info: InstanceInfo { minecraft_version: version, loader },
                },
            );
        }
        actions
    }

    /// Serves a request to load a collection of the instance `id`.
    pub fn request_load(&mut self, id: InstanceID, which: LazyData) -> (res: Vec<Action>)
        requires
            old(self).wf(),
        ensures
            final(self).wf(),
            final(self).vacant_slot() == old(self).vacant_slot(),
            final(self)@ == old(self)@.after_load_request(id, which),
            actions_view(res@) == old(self)@.load_request_actions(id, which),
    {
        let mut actions: Vec<Action> = Vec::new();
        assert(actions_view(actions@) =~= seq![]);
        let path = match self.instance(id) {
            Some(instance) => match which {
                LazyData::Worlds => instance.saves_path.clone(),
                LazyData::Servers => instance.server_dat_path.clone(),
            },
            None => String::new(),
        };
        match self.start_load(id, which) {
            Some(StartLoadResult::Initial) => {
                emit(&mut actions, Self::make_load_action(which, id, path.clone()));
                let target = match which {
                    LazyData::Worlds => WatchTarget::InstanceSavesDir { id },
                    LazyData::Servers => WatchTarget::ServersDat { id },
                };
                emit(
                    &mut actions,
                    Action::Watch(WatchRequest { path, target, report_failure: false }),
                );
            },
            Some(StartLoadResult::Reload) => {
                emit(&mut actions, Self::make_load_action(which, id, path));
            },
            _ => {},
        }
        actions
    }

    /// The action that starts loading a collection of an instance.
    pub fn make_load_action(which: LazyData, id: InstanceID, path: String) -> (res: Action)
        ensures
            res@ == load_action(which, id, path@),
    {
        match which {
            LazyData::Worlds => Action::LoadWorlds { id, saves_path: path },
            LazyData::Servers => Action::LoadServers { id, server_dat_path: path },
        }
    }

    /// Serves a request to kill the process of the instance `id`. A running
    /// instance gives up its process: it is idle from now on, whatever
    /// becomes of the attempt. Any other request is answered with an error
    /// and changes nothing.
    pub fn kill_instance(&mut self, id: InstanceID) -> (res: Vec<Action>)
        requires
            old(self).wf(),
        ensures
            final(self).wf(),
            final(self).vacant_slot() == old(self).vacant_slot(),
            final(self)@ == old(self)@.after_kill_request(id),
            actions_view(res@) == old(self)@.kill_request_actions(id),
    {
        let mut actions: Vec<Action> = Vec::new();
        assert(actions_view(actions@) =~= seq![]);
        let status = match self.instance(id) {
            Some(instance) => Some(instance.status),
            None => None,
        };
        match status {
            Some(InstanceStatus::Running) => {
                self.set_status(id, InstanceStatus::Idle);
                emit(&mut actions, Action::KillProcess { id });
            },
            Some(_) => {
                emit_notification(
                    &mut actions,
                    BridgeNotificationType::Error,
                    "Can't kill instance, instance wasn't running".to_owned(),
                );
            },
            None => {
                emit_notification(
                    &mut actions,
                    BridgeNotificationType::Error,
                    "Can't kill instance, unknown id".to_owned(),
                );
            },
        }
        actions
    }

    /// Takes in the outcome of the attempt to kill the process of `id`: a
    /// failure is reported, and the attributes of the instance are announced
    /// again.
    pub fn kill_finished(&self, id: InstanceID, killed: bool) -> (res: Vec<Action>)
        requires
            self.wf(),
        ensures
            actions_view(res@) == self@.kill_finished_actions(id, killed),
    {
        let mut actions: Vec<Action> = Vec::new();
        assert(actions_view(actions@) =~= seq![]);
        if !killed {
            emit_notification(
                &mut actions,
                BridgeNotificationType::Error,
                "Failed to kill instance".to_owned(),
            );
        }
        match self.instance(id) {
            Some(instance) => {
                emit(&mut actions, Action::Send(instance.create_modify_message()));
            },
            None => {},
        }
        actions
    }

    /// Serves a request to start the instance `id`. An idle instance goes to
    /// launching: its new status is announced, a progress tracker is opened
    /// and the launch is requested. Any other request is answered with a
    /// message and changes nothing.
    pub fn start_instance(&mut self, id: InstanceID, quick_play: Option<QuickPlayLaunch>) -> (res:
        Vec<Action>)
        requires
            old(self).wf(),
        ensures
            final(self).wf(),
            final(self).vacant_slot() == old(self).vacant_slot(),
            final(self)@ == old(self)@.after_start_request(id),
            actions_view(res@) == old(self)@.start_request_actions(id, quick_play_view(quick_play)),
    {
        let mut actions: Vec<Action> = Vec::new();
        assert(actions_view(actions@) =~= seq![]);
        let announcement = match self.instance(id) {
            Some(instance) => if instance.status == InstanceStatus::Idle {
                Some(Some(instance.create_modify_message_with_status(InstanceStatus::Launching)))
            } else {
                Some(None)
            },
            None => None,
        };
        match announcement {
            Some(Some(message)) => {
                self.set_status(id, InstanceStatus::Launching);
                emit(&mut actions, Action::Send(message));
                emit(&mut actions, Action::OpenTracker { title: "Launching".to_owned() });
                emit(&mut actions, Action::Launch { id, quick_play });
            },
            Some(None) => {
                emit_notification(
                    &mut actions,
                    BridgeNotificationType::Warning,
                    "Can't launch instance, already running".to_owned(),
                );
                emit(
                    &mut actions,
                    Action::FinishModal {
                        error: Some("Can't launch instance, already running".to_owned()),
                    },
                );
            },
            None => {
                emit_notification(
                    &mut actions,
                    BridgeNotificationType::Error,
                    "Can't launch instance, unknown id".to_owned(),
                );
                emit(
                    &mut actions,
                    Action::FinishModal {
                        error: Some("Can't launch instance, unknown id".to_owned()),
                    },
                );
            },
        }
        actions
    }

    /// Takes in the outcome of the launch of `id`. The progress tracker is
    /// finished with whether the launch failed, and the dialog of the
    /// command is closed with the error, if any. An instance that was
    /// launching runs from now on, or is idle again if the launch failed;
    /// its status is announced last.
    pub fn launch_finished(&mut self, id: InstanceID, outcome: Result<(), String>) -> (res: Vec<
        Action,
    >)
        requires
            old(self).wf(),
        ensures
            final(self).wf(),
            final(self).vacant_slot() == old(self).vacant_slot(),
            final(self)@ == old(self)@.after_launch(id, launch_error(outcome)),
            actions_view(res@) == old(self)@.launch_finished_actions(id, launch_error(outcome)),
    {
        let mut actions: Vec<Action> = Vec::new();
        assert(actions_view(actions@) =~= seq![]);
        let status = match outcome {
            Ok(_) => InstanceStatus::Running,
            Err(_) => InstanceStatus::Idle,
        };
        let announcement = match self.instance(id) {
            Some(instance) => if instance.status == InstanceStatus::Launching {
                Some(instance.create_modify_message_with_status(status))
            } else {
                None
            },
            None => None,
        };
        let error = match outcome {
            Ok(_) => None,
            Err(error) => Some(error),
        };
        emit(&mut actions, Action::FinishTracker { failed: error.is_some() });
        emit(&mut actions, Action::FinishModal { error });
        match announcement {
            Some(message) => {
                self.set_status(id, status);
                emit(&mut actions, Action::Send(message));
            },
            None => {},
        }
        actions
    }

    /// Serves one command of the front end.
    pub fn handle_message(&mut self, message: MessageToBackend) -> (res: Vec<Action>)
        requires
            old(self).wf(),
        ensures
            final(self).wf(),
            final(self).vacant_slot() == old(self).vacant_slot(),
            final(self)@ == old(self)@.after_message(message@),
            actions_view(res@) == old(self)@.message_actions(
                message@,
                message_name_is_sanitized(message@),
            ),
    {
        match message {
            MessageToBackend::LoadVersionManifest { reload } => {
                let mut actions: Vec<Action> = Vec::new();
                assert(actions_view(actions@) =~= seq![]);
                emit(&mut actions, Action::LoadVersionManifest { reload });
                actions
            },
            MessageToBackend::RequestLoadWorlds { id } => self.request_load(id, LazyData::Worlds),
            MessageToBackend::RequestLoadServers { id } => self.request_load(
                id,
                LazyData::Servers,
            ),
            MessageToBackend::CreateInstance { name, version, loader } => {
                let sanitized = is_sanitized_name(name.as_str(), true, true);
                self.create_instance(name, version, loader, sanitized)
            },
            MessageToBackend::KillInstance { id } => self.kill_instance(id),
            MessageToBackend::StartInstance { id, quick_play } => self.start_instance(
                id,
                quick_play,
            ),
            MessageToBackend::DownloadAllMetadata => {
                let mut actions: Vec<Action> = Vec::new();
                assert(actions_view(actions@) =~= seq![]);
                emit(&mut actions, Action::DownloadAllMetadata);
                actions
            },
        }
    }
}

/// Something the event loop observed since the last tick.
#[derive(Debug, Clone, PartialEq, Eq)]
pub enum TickReport {
    /// The process of the instance has exited.
    ProcessExited { id: InstanceID },
    /// A load of the worlds of the instance has completed.
    WorldsLoaded { id: InstanceID, worlds: Vec<InstanceWorldSummary> },
    /// A load of the servers of the instance has completed.
    ServersLoaded { id: InstanceID, servers: Vec<InstanceServerSummary> },
}

/// Mathematical model of a [`TickReport`].
pub ghost enum TickReportView {
    ProcessExited { id: InstanceID },
    WorldsLoaded { id: InstanceID, worlds: Seq<InstanceWorldSummaryView> },
    ServersLoaded { id: InstanceID, servers: Seq<InstanceServerSummaryView> },
}

impl View for TickReport {
    type V = TickReportView;

    open spec fn view(&self) -> TickReportView {
        match self {
            TickReport::ProcessExited { id } => TickReportView::ProcessExited { id: *id },
            TickReport::WorldsLoaded { id, worlds } => TickReportView::WorldsLoaded {
                id: *id,
                worlds: worlds_view(worlds@),
            },
            TickReport::ServersLoaded { id, servers } => TickReportView::ServersLoaded {
                id: *id,
                servers: servers_view(servers@),
            },
        }
    }
}

/// The models of a sequence of reports.
pub open spec fn reports_view(reports: Seq<TickReport>) -> Seq<TickReportView> {
    reports.map_values(|r: TickReport| r@)
}

/// A path that changed on disk, with the directory that holds it, if any.
#[derive(Debug, Clone, PartialEq, Eq)]
pub struct FsChange {
    pub path: String,
    pub parent: Option<String>,
}

/// Mathematical model of an [`FsChange`].
pub ghost struct FsChangeView {
    pub path: Seq<char>,
    pub parent: Option<Seq<char>>,
}

impl View for FsChange {
    type V = FsChangeView;

    open spec fn view(&self) -> FsChangeView {
        FsChangeView { path: self.path@, parent: crate::backend::optional_text(self.parent) }
    }
}

/// The models of a sequence of changes.
pub open spec fn changes_view(changes: Seq<FsChange>) -> Seq<FsChangeView> {
    changes.map_values(|c: FsChange| c@)
}

/// The watched path that a change concerns, what it is watched for, and
/// whether it is the changed path itself.
pub ghost struct WatchedSubject {
    pub path: Seq<char>,
    pub target: WatchTarget,
    pub direct: bool,
}

/// The request to watch the directory of a world.
pub open spec fn level_watch(id: InstanceID, world: InstanceWorldSummaryView) -> ActionView {
    ActionView::Watch(
        WatchRequestView {
            path: world.level_path,
            target: WatchTarget::InstanceLevelDir { id },
            report_failure: false,
        },
    )
}

impl BackendView {
    /// The registry after a report of the event loop.
    pub open spec fn after_report(self, report: TickReportView) -> BackendView {
        match report {
            TickReportView::ProcessExited { id } => if self.running(id) {
                self.with_status(id, InstanceStatus::Idle)
            } else {
                self
            },
            TickReportView::WorldsLoaded { id, worlds } => self.with_load_state(
                id,
                LazyData::Worlds,
                self.load_state(id, LazyData::Worlds).after_completion().0,
            ),
            TickReportView::ServersLoaded { id, servers } => self.with_load_state(
                id,
                LazyData::Servers,
                self.load_state(id, LazyData::Servers).after_completion().0,
            ),
        }
    }

    /// What follows when a load of a collection of the registered instance
    /// `id` has completed and `first` is already due: another load, if one
    /// was asked for in the meantime.
    pub open spec fn with_reload(
        self,
        first: Seq<ActionView>,
        id: InstanceID,
        which: LazyData,
    ) -> Seq<ActionView> {
        if self.load_state(id, which).after_completion().1 {
            first.push(load_action(which, id, self.instances[id.index].data_path(which)))
        } else {
            first
        }
    }

    /// What follows from a report of the event loop. The exit of a running
    /// process is announced. Loaded worlds are announced and the directory
    /// of each is watched; loaded servers are announced.
    pub open spec fn report_actions(self, report: TickReportView) -> Seq<ActionView> {
        match report {
            TickReportView::ProcessExited { id } => if self.running(id) {
                seq![ActionView::modified(self.instances[id.index].with_status(InstanceStatus::Idle))]
            } else {
                seq![]
            },
            TickReportView::WorldsLoaded { id, worlds } => if self.live(id) {
                self.with_reload(
                    seq![ActionView::Send(MessageToFrontendView::InstanceWorldsUpdated { id, worlds })]
                        + worlds.map_values(|w: InstanceWorldSummaryView| level_watch(id, w)),
                    id,
                    LazyData::Worlds,
                )
            } else {
                seq![]
            },
            TickReportView::ServersLoaded { id, servers } => if self.live(id) {
                self.with_reload(
                    seq![
                        ActionView::Send(MessageToFrontendView::InstanceServersUpdated { id, servers }),
                    ],
                    id,
                    LazyData::Servers,
                )
            } else {
                seq![]
            },
        }
    }

    /// The registry after the reports of one tick, taken in order.
    pub open spec fn after_reports(self, reports: Seq<TickReportView>) -> BackendView
        decreases reports.len(),
    {
        if reports.len() == 0 {
            self
        } else {
            self.after_reports(reports.drop_last()).after_report(reports.last())
        }
    }

    /// What follows from the reports of one tick, taken in order.
    pub open spec fn reports_actions(self, reports: Seq<TickReportView>) -> Seq<ActionView>
        decreases reports.len(),
    {
        if reports.len() == 0 {
            seq![]
        } else {
            self.reports_actions(reports.drop_last()) + self.after_reports(
                reports.drop_last(),
            ).report_actions(reports.last())
        }
    }

    /// The watched path that a change concerns: the changed path itself
    /// where it is watched, else the directory that holds it.
    pub open spec fn watched_subject(self, change: FsChangeView) -> Option<WatchedSubject> {
        if self.watching.contains_key(change.path) {
            Some(
                WatchedSubject {
                    path: change.path,
                    target: self.watching[change.path],
                    direct: true,
                },
            )
        } else if change.parent is Some && self.watching.contains_key(change.parent->0) {
            Some(
                WatchedSubject {
                    path: change.parent->0,
                    target: self.watching[change.parent->0],
                    direct: false,
                },
            )
        } else {
            None
        }
    }

    /// The collection of an instance that a watch target stands for, if it
    /// stands for one.
    pub open spec fn watched_data(target: WatchTarget) -> Option<(InstanceID, LazyData)> {
        match target {
            WatchTarget::InstanceLevelDir { id } => Some((id, LazyData::Worlds)),
            WatchTarget::InstanceSavesDir { id } => Some((id, LazyData::Worlds)),
            WatchTarget::ServersDat { id } => Some((id, LazyData::Servers)),
            _ => None,
        }
    }

    /// The registry after a change on disk: a collection whose data changed
    /// is stale from now on.
    pub open spec fn after_fs_change(self, change: FsChangeView) -> BackendView {
        match self.watched_subject(change) {
            Some(subject) => match Self::watched_data(subject.target) {
                Some((id, which)) => self.with_load_state(
                    id,
                    which,
                    self.load_state(id, which).after_change(),
                ),
                None => self,
            },
            None => self,
        }
    }

    /// What follows from a change on disk. A change of the instances
    /// directory itself asks for a scan of it, a change of one of its
    /// children for a read of that child. A change in the directory of an
    /// instance, or in a directory that held no valid instance, asks for a
    /// read of that directory. A change behind a collection of a registered
    /// instance asks the front end to look again.
    pub open spec fn fs_change_actions(self, change: FsChangeView) -> Seq<ActionView> {
        match self.watched_subject(change) {
            None => seq![],
            Some(subject) => match subject.target {
                WatchTarget::InstancesDir => if subject.direct {
                    seq![ActionView::RescanInstances { show_errors: false, show_success: true }]
                } else {
                    seq![
                        ActionView::LoadInstance {
                            path: change.path,
                            show_errors: false,
                            show_success: true,
                        },
                    ]
                },
                WatchTarget::InstanceDir { id } => seq![
                    ActionView::LoadInstance {
                        path: subject.path,
                        show_errors: false,
                        show_success: true,
                    },
                ],
                WatchTarget::InvalidInstanceDir => seq![
                    ActionView::LoadInstance {
                        path: subject.path,
                        show_errors: false,
                        show_success: true,
                    },
                ],
                _ => match Self::watched_data(subject.target) {
                    Some((id, which)) => if self.live(id) {
                        seq![ActionView::Send(MessageToFrontendView::Refresh)]
                    } else {
                        seq![]
                    },
                    None => seq![],
                },
            },
        }
    }

    /// The registry after the changes of one notification, taken in order.
    pub open spec fn after_fs_changes(self, changes: Seq<FsChangeView>) -> BackendView
        decreases changes.len(),
    {
        if changes.len() == 0 {
            self
        } else {
            self.after_fs_changes(changes.drop_last()).after_fs_change(changes.last())
        }
    }

    /// What follows from the changes of one notification, taken in order.
    pub open spec fn fs_changes_actions(self, changes: Seq<FsChangeView>) -> Seq<ActionView>
        decreases changes.len(),
    {
        if changes.len() == 0 {
            seq![]
        } else {
            self.fs_changes_actions(changes.drop_last()) + self.after_fs_changes(
                changes.drop_last(),
            ).fs_change_actions(changes.last())
        }
    }
}

/// Appends the actions of `more` to `actions`.
pub fn append_actions(actions: &mut Vec<Action>, more: Vec<Action>)
    ensures
        actions_view(final(actions)@) == actions_view(old(actions)@) + actions_view(more@),
{
    let ghost added = more@;
    let mut more = more;
    actions.append(&mut more);
    assert(actions_view(actions@) =~= actions_view(old(actions)@) + actions_view(added));
}

/// A copy of the world summaries.
pub fn duplicate_worlds(worlds: &Vec<InstanceWorldSummary>) -> (res: Vec<InstanceWorldSummary>)
    ensures
        worlds_view(res@) == worlds_view(worlds@),
{
    let mut copy: Vec<InstanceWorldSummary> = Vec::new();
    let mut i: usize = 0;
    while i < worlds.len()
        invariant
            i <= worlds.len(),
            copy.len() == i,
            forall|j: int| 0 <= j < i ==> (#[trigger] copy@[j])@ == worlds@[j]@,
        decreases worlds.len() - i,
    {
        copy.push(
            InstanceWorldSummary {
                title: worlds[i].title.clone(),
                level_path: worlds[i].level_path.clone(),
            },
        );
        i += 1;
    }
    assert(worlds_view(copy@) =~= worlds_view(worlds@));
    copy
}

/// A copy of the server summaries.
pub fn duplicate_servers(servers: &Vec<InstanceServerSummary>) -> (res: Vec<InstanceServerSummary>)
    ensures
        servers_view(res@) == servers_view(servers@),
{
    let mut copy: Vec<InstanceServerSummary> = Vec::new();
    let mut i: usize = 0;
    while i < servers.len()
        invariant
            i <= servers.len(),
            copy.len() == i,
            forall|j: int| 0 <= j < i ==> (#[trigger] copy@[j])@ == servers@[j]@,
        decreases servers.len() - i,
    {
        copy.push(
            InstanceServerSummary { name: servers[i].name.clone(), ip: servers[i].ip.clone() },
        );
        i += 1;
    }
    assert(servers_view(copy@) =~= servers_view(servers@));
    copy
}

impl BackendState {
    /// Completes a load of a collection of the registered instance `id`:
    /// appends the load that follows at once, if one was asked for in the
    /// meantime.
    fn complete_load(&mut self, id: InstanceID, which: LazyData, actions: &mut Vec<Action>)
        requires
            old(self).wf(),
            old(self)@.live(id),
        ensures
            final(self).wf(),
            final(self).vacant_slot() == old(self).vacant_slot(),
            final(self)@ == old(self)@.with_load_state(
                id,
                which,
                old(self)@.load_state(id, which).after_completion().0,
            ),
            actions_view(final(actions)@) == old(self)@.with_reload(
                actions_view(old(actions)@),
                id,
                which,
            ),
    {
        let path = match self.instance(id) {
            Some(instance) => match which {
                LazyData::Worlds => instance.saves_path.clone(),
                LazyData::Servers => instance.server_dat_path.clone(),
            },
            None => String::new(),
        };
        match self.finish_load(id, which) {
            Some(true) => {
                emit(actions, Self::make_load_action(which, id, path));
            },
            _ => {},
        }
    }

    /// Takes in one report of the event loop.
    pub fn handle_report(&mut self, report: &TickReport) -> (res: Vec<Action>)
        requires
            old(self).wf(),
        ensures
            final(self).wf(),
            final(self).vacant_slot() == old(self).vacant_slot(),
            final(self)@ == old(self)@.after_report(report@),
            actions_view(res@) == old(self)@.report_actions(report@),
    {
        let mut actions: Vec<Action> = Vec::new();
        assert(actions_view(actions@) =~= seq![]);
        match report {
            TickReport::ProcessExited { id } => {
                let announcement = match self.instance(*id) {
                    Some(instance) => if instance.status == InstanceStatus::Running {
                        Some(instance.create_modify_message_with_status(InstanceStatus::Idle))
                    } else {
                        None
                    },
                    None => None,
                };
                match announcement {
                    Some(message) => {
                        self.set_status(*id, InstanceStatus::Idle);
                        emit(&mut actions, Action::Send(message));
                    },
                    None => {},
                }
            },
            TickReport::WorldsLoaded { id, worlds } => {
                if self.instance(*id).is_some() {
                    emit(
                        &mut actions,
                        Action::Send(
                            MessageToFrontend::InstanceWorldsUpdated {
                                id: *id,
                                worlds: duplicate_worlds(worlds),
                            },
                        ),
                    );
                    let ghost first = actions_view(actions@);
                    let ghost watch = |w: InstanceWorldSummaryView| level_watch(*id, w);
                    let mut i: usize = 0;
                    while i < worlds.len()
                        invariant
                            i <= worlds.len(),
                            watch == |w: InstanceWorldSummaryView| level_watch(*id, w),
                            actions_view(actions@) == first + worlds_view(worlds@).take(
                                i as int,
                            ).map_values(watch),
                        decreases worlds.len() - i,
                    {
                        emit(
                            &mut actions,
                            Action::Watch(
                                WatchRequest {
                                    path: worlds[i].level_path.clone(),
                                    target: WatchTarget::InstanceLevelDir { id: *id },
                                    report_failure: false,
                                },
                            ),
                        );
                        assert(actions_view(actions@) =~= first + worlds_view(worlds@).take(
                            i + 1,
                        ).map_values(watch));
                        i += 1;
                    }
                    assert(worlds_view(worlds@).take(worlds.len() as int) == worlds_view(worlds@));
                    self.complete_load(*id, LazyData::Worlds, &mut actions);
                } else {
                    assert(self@.with_load_state(
                        *id,
                        LazyData::Worlds,
                        self@.load_state(*id, LazyData::Worlds).after_completion().0,
                    ) == self@);
                }
            },
            TickReport::ServersLoaded { id, servers } => {
                if self.instance(*id).is_some() {
                    emit(
                        &mut actions,
                        Action::Send(
                            MessageToFrontend::InstanceServersUpdated {
                                id: *id,
                                servers: duplicate_servers(servers),
                            },
                        ),
                    );
                    self.complete_load(*id, LazyData::Servers, &mut actions);
                }
            },
        }
        actions
    }

    /// Takes in what the event loop observed since the last tick, report by
    /// report.
    pub fn handle_tick(&mut self, reports: &Vec<TickReport>) -> (res: Vec<Action>)
        requires
            old(self).wf(),
        ensures
            final(self).wf(),
            final(self).vacant_slot() == old(self).vacant_slot(),
            final(self)@ == old(self)@.after_reports(reports_view(reports@)),
            actions_view(res@) == old(self)@.reports_actions(reports_view(reports@)),
    {
        let mut actions: Vec<Action> = Vec::new();
        assert(actions_view(actions@) =~= seq![]);
        let ghost all = reports_view(reports@);
        let mut i: usize = 0;
        while i < reports.len()
            invariant
                i <= reports.len(),
                all == reports_view(reports@),
                self.wf(),
                self.vacant_slot() == old(self).vacant_slot(),
                self@ == old(self)@.after_reports(all.take(i as int)),
                actions_view(actions@) == old(self)@.reports_actions(all.take(i as int)),
            decreases reports.len() - i,
        {
            let more = self.handle_report(&reports[i]);
            append_actions(&mut actions, more);
            assert(all.take(i + 1).drop_last() == all.take(i as int));
            assert(all.take(i + 1).last() == reports@[i as int]@);
            i += 1;
        }
        assert(all.take(reports.len() as int) == all);
        actions
    }

    /// Takes in one change on disk.
    pub fn handle_fs_change(&mut self, change: &FsChange) -> (res: Vec<Action>)
        requires
            old(self).wf(),
        ensures
            final(self).wf(),
            final(self).vacant_slot() == old(self).vacant_slot(),
            final(self)@ == old(self)@.after_fs_change(change@),
            actions_view(res@) == old(self)@.fs_change_actions(change@),
    {
        let mut actions: Vec<Action> = Vec::new();
        assert(actions_view(actions@) =~= seq![]);
        let mut subject: Option<(WatchTarget, bool)> = None;
        match self.watch_target(change.path.as_str()) {
            Some(target) => {
                subject = Some((target, true));
            },
            None => {
                match &change.parent {
                    Some(parent) => {
                        match self.watch_target(parent.as_str()) {
                            Some(target) => {
                                subject = Some((target, false));
                            },
                            None => {},
                        }
                    },
                    None => {},
                }
            },
        }
        match subject {
            None => {},
            Some((target, direct)) => {
                let watched: String = if direct {
                    change.path.clone()
                } else {
                    match &change.parent {
                        Some(parent) => parent.clone(),
                        None => String::new(),
                    }
                };
                match target {
                    WatchTarget::InstancesDir => {
                        if direct {
                            emit(
                                &mut actions,
                                Action::RescanInstances { show_errors: false, show_success: true },
                            );
                        } else {
                            emit(
                                &mut actions,
                                Action::LoadInstance {
                                    path: change.path.clone(),
                                    show_errors: false,
                                    show_success: true,
                                },
                            );
                        }
                    },
                    WatchTarget::InstanceDir { id } => {
                        emit(
                            &mut actions,
                            Action::LoadInstance {
                                path: watched,
                                show_errors: false,
                                show_success: true,
                            },
                        );
                    },
                    WatchTarget::InvalidInstanceDir => {
                        emit(
                            &mut actions,
                            Action::LoadInstance {
                                path: watched,
                                show_errors: false,
                                show_success: true,
                            },
                        );
                    },
                    WatchTarget::InstanceLevelDir { id } => {
                        if self.mark_dirty(id, LazyData::Worlds) {
                            emit(&mut actions, Action::Send(MessageToFrontend::Refresh));
                        }
                    },
                    WatchTarget::InstanceSavesDir { id } => {
                        if self.mark_dirty(id, LazyData::Worlds) {
                            emit(&mut actions, Action::Send(MessageToFrontend::Refresh));
                        }
                    },
                    WatchTarget::ServersDat { id } => {
                        if self.mark_dirty(id, LazyData::Servers) {
                            emit(&mut actions, Action::Send(MessageToFrontend::Refresh));
                        }
                    },
                }
            },
        }
        actions
    }

    /// Takes in the changes of one notification of the watcher, change by
    /// change.
    pub fn handle_filesystem(&mut self, changes: &Vec<FsChange>) -> (res: Vec<Action>)
        requires
            old(self).wf(),
        ensures
            final(self).wf(),
            final(self).vacant_slot() == old(self).vacant_slot(),
            final(self)@ == old(self)@.after_fs_changes(changes_view(changes@)),
            actions_view(res@) == old(self)@.fs_changes_actions(changes_view(changes@)),
    {
        let mut actions: Vec<Action> = Vec::new();
        assert(actions_view(actions@) =~= seq![]);
        let ghost all = changes_view(changes@);
        let mut i: usize = 0;
        while i < changes.len()
            invariant
                i <= changes.len(),
                all == changes_view(changes@),
                self.wf(),
                self.vacant_slot() == old(self).vacant_slot(),
                self@ == old(self)@.after_fs_changes(all.take(i as int)),
                actions_view(actions@) == old(self)@.fs_changes_actions(all.take(i as int)),
            decreases changes.len() - i,
        {
            let more = self.handle_fs_change(&changes[i]);
            append_actions(&mut actions, more);
            assert(all.take(i + 1).drop_last() == all.take(i as int));
            assert(all.take(i + 1).last() == changes@[i as int]@);
            i += 1;
        }
        assert(all.take(changes.len() as int) == all);
        actions
    }
}

/// One event of the loop that drives the registry. A source that is closed
/// for good delivers nothing.
#[derive(Debug, Clone, PartialEq, Eq)]
pub enum LoopEvent {
    /// The command source delivered a command, or is closed.
    Message(Option<MessageToBackend>),
    /// The watcher delivered changes, or is closed.
    Filesystem(Option<Vec<FsChange>>),
    /// The period is over; these are the observations since the last tick.
    Tick(Vec<TickReport>),
}

/// Mathematical model of a [`LoopEvent`].
pub ghost enum LoopEventView {
    Message(Option<MessageToBackendView>),
    Filesystem(Option<Seq<FsChangeView>>),
    Tick(Seq<TickReportView>),
}

impl View for LoopEvent {
    type V = LoopEventView;

    open spec fn view(&self) -> LoopEventView {
        match self {
            LoopEvent::Message(message) => LoopEventView::Message(
                match message {
                    Some(m) => Some(m@),
                    None => None,
                },
            ),
            LoopEvent::Filesystem(changes) => LoopEventView::Filesystem(
                match changes {
                    Some(c) => Some(changes_view(c@)),
                    None => None,
                },
            ),
            LoopEvent::Tick(reports) => LoopEventView::Tick(reports_view(reports@)),
        }
    }
}

impl LoopEventView {
    /// Whether the loop goes on after the event: it ends when the command
    /// source or the watcher is closed for good.
    pub open spec fn keeps_running(self) -> bool {
        match self {
            LoopEventView::Message(None) => false,
            LoopEventView::Filesystem(None) => false,
            _ => true,
        }
    }

    /// Whether `sanitize_filename` takes the name in the event, if it
    /// holds a command with one, for a safe file name.
    pub open spec fn name_is_sanitized(self) -> bool {
        match self {
            LoopEventView::Message(Some(message)) => message_name_is_sanitized(message),
            _ => true,
        }
    }
}

impl BackendView {
    /// What the registry asks for when it starts: the instances directory
    /// is created if need be and watched, and its children are read; errors
    /// are shown, successes are not.
    pub open spec fn start_actions(self) -> Seq<ActionView> {
        seq![
            ActionView::EnsureInstancesDir,
            ActionView::Watch(
                WatchRequestView {
                    path: self.instances_dir,
                    target: WatchTarget::InstancesDir,
                    report_failure: true,
                },
            ),
            ActionView::RescanInstances { show_errors: true, show_success: false },
        ]
    }

    /// The registry after an event of the loop.
    pub open spec fn after_event(self, event: LoopEventView) -> BackendView {
        match event {
            LoopEventView::Message(Some(message)) => self.after_message(message),
            LoopEventView::Filesystem(Some(changes)) => self.after_fs_changes(changes),
            LoopEventView::Tick(reports) => self.after_reports(reports),
            _ => self,
        }
    }

    /// What follows from an event of the loop, given whether the name in
    /// it, if it has one, is a safe file name.
    pub open spec fn event_actions(self, event: LoopEventView, sanitized: bool) -> Seq<ActionView> {
        match event {
            LoopEventView::Message(Some(message)) => self.message_actions(message, sanitized),
            LoopEventView::Filesystem(Some(changes)) => self.fs_changes_actions(changes),
            LoopEventView::Tick(reports) => self.reports_actions(reports),
            _ => seq![],
        }
    }
}

/// What a step of the loop gives: the actions to carry out, and whether the
/// loop goes on.
#[derive(Debug, PartialEq, Eq)]
pub struct LoopStep {
    pub actions: Vec<Action>,
    pub keep_running: bool,
}

impl BackendState {
    /// What the registry asks for when it starts.
    pub fn start(&self) -> (res: Vec<Action>)
        ensures
            actions_view(res@) == self@.start_actions(),
    {
        let mut actions: Vec<Action> = Vec::new();
        assert(actions_view(actions@) =~= seq![]);
        emit(&mut actions, Action::EnsureInstancesDir);
        emit(
            &mut actions,
            Action::Watch(
                WatchRequest {
                    path: self.instances_dir().to_owned(),
                    target: WatchTarget::InstancesDir,
                    report_failure: true,
                },
            ),
        );
        emit(&mut actions, Action::RescanInstances { show_errors: true, show_success: false });
        actions
    }

    /// Takes in one event of the loop: a command, the changes of one
    /// notification of the watcher, or a tick. The loop ends when the
    /// command source or the watcher is closed for good.
    pub fn handle(&mut self, event: LoopEvent) -> (res: LoopStep)
        requires
            old(self).wf(),
        ensures
            final(self).wf(),
            final(self).vacant_slot() == old(self).vacant_slot(),
            final(self)@ == old(self)@.after_event(event@),
            actions_view(res.actions@) == old(self)@.event_actions(
                event@,
                event@.name_is_sanitized(),
            ),
            res.keep_running == event@.keeps_running(),
    {
        match event {
            LoopEvent::Message(Some(message)) => {
                let actions = self.handle_message(message);
                LoopStep { actions, keep_running: true }
            },
            LoopEvent::Filesystem(Some(changes)) => {
                let actions = self.handle_filesystem(&changes);
                LoopStep { actions, keep_running: true }
            },
            LoopEvent::Tick(reports) => {
                let actions = self.handle_tick(&reports);
                LoopStep { actions, keep_running: true }
            },
            LoopEvent::Message(None) => {
                let actions: Vec<Action> = Vec::new();
                assert(actions_view(actions@) =~= seq![]);
                LoopStep { actions, keep_running: false }
            },
            LoopEvent::Filesystem(None) => {
                let actions: Vec<Action> = Vec::new();
                assert(actions_view(actions@) =~= seq![]);
                LoopStep { actions, keep_running: false }
            },
        }
    }
}

} // verus!
