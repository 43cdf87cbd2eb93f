use pandora_backend::backend::{Action, BackendState, WatchRequest, WatchTarget};
use pandora_backend::backend_handler::{FsChange, LoopEvent, TickReport};
use pandora_backend::instance::{
    Instance, InstanceID, InstanceInfo, InstanceServerSummary, InstanceStatus,
    InstanceWorldSummary, LazyData,
};
use pandora_backend::loader::Loader;
use pandora_backend::message::{
    BridgeDataLoadState, BridgeNotificationType, MessageToBackend, MessageToFrontend,
    QuickPlayLaunch, StartLoadResult,
};

fn found(name: &str, version: &str, loader: Loader) -> Instance {
    Instance::new(
        name.to_string(),
        InstanceInfo { minecraft_version: version.to_string(), loader },
        format!("/instances/{}", name),
        format!("/instances/{}/saves", name),
        format!("/instances/{}/servers.dat", name),
    )
}

fn notify(kind: BridgeNotificationType, text: &str) -> Action {
    Action::Send(MessageToFrontend::AddNotification {
        notification_type: kind,
        message: text.to_string(),
    })
}

fn modified(id: InstanceID, name: &str, version: &str, loader: Loader, status: InstanceStatus) -> Action {
    Action::Send(MessageToFrontend::InstanceModified {
        id,
        name: name.to_string(),
        version: version.to_string(),
        loader,
        status,
    })
}

fn registry_with(names: &[&str]) -> (BackendState, Vec<InstanceID>) {
    let mut state = BackendState::new("/instances".to_string());
    let mut ids = Vec::new();
    for name in names {
        let path = format!("/instances/{}", name);
        let (usable, _) = state.load_instance_from_path(&path, Ok(found(name, "1.21", Loader::Vanilla)), true, false);
        assert!(usable);
        ids.push(state.instance_id_at(&path).unwrap());
    }
    (state, ids)
}

#[test]
fn new_registry_is_empty() {
    let state = BackendState::new("/instances".to_string());
    assert_eq!(state.instances_dir(), "/instances");
    assert_eq!(state.instances_generation(), 0);
    assert!(state.instance_ids().is_empty());
    assert_eq!(state.instance_id_at("/instances/a"), None);
    assert_eq!(state.watch_target("/instances"), None);
    assert!(!state.name_in_use("a"));
}

#[test]
fn start_asks_for_directory_watch_and_scan() {
    let state = BackendState::new("/instances".to_string());
    assert_eq!(
        state.start(),
        vec![
            Action::EnsureInstancesDir,
            Action::Watch(WatchRequest {
                path: "/instances".to_string(),
                target: WatchTarget::InstancesDir,
                report_failure: true,
            }),
            Action::RescanInstances { show_errors: true, show_success: false },
        ]
    );
}

#[test]
fn first_instance_is_registered_in_slot_zero() {
    let mut state = BackendState::new("/instances".to_string());
    let (usable, actions) =
        state.load_instance_from_path("/instances/a", Ok(found("a", "1.21.1", Loader::Fabric)), false, true);
    let id = InstanceID { index: 0, generation: 0 };
    assert!(usable);
    assert_eq!(
        actions,
        vec![
            notify(BridgeNotificationType::Success, "Instance 'a' created"),
            Action::Send(MessageToFrontend::InstanceAdded {
                id,
                name: "a".to_string(),
                version: "1.21.1".to_string(),
                loader: Loader::Fabric,
                worlds_state: BridgeDataLoadState::Unloaded,
                servers_state: BridgeDataLoadState::Unloaded,
            }),
            Action::Watch(WatchRequest {
                path: "/instances/a".to_string(),
                target: WatchTarget::InstanceDir { id },
                report_failure: true,
            }),
        ]
    );
    assert_eq!(state.instance_id_at("/instances/a"), Some(id));
    assert_eq!(state.instances_generation(), 1);
    assert_eq!(state.instance_ids(), vec![id]);
    let instance = state.instance(id).unwrap();
    assert_eq!(instance.id, id);
    assert_eq!(instance.name, "a");
    assert_eq!(instance.status, InstanceStatus::Idle);
    assert!(state.name_in_use("a"));
    assert!(!state.name_in_use("b"));
}

#[test]
fn silent_registration_sends_no_notification() {
    let mut state = BackendState::new("/instances".to_string());
    let (_, actions) =
        state.load_instance_from_path("/instances/a", Ok(found("a", "1.21", Loader::Vanilla)), true, false);
    assert_eq!(actions.len(), 2);
    assert!(matches!(actions[0], Action::Send(MessageToFrontend::InstanceAdded { .. })));
    assert!(matches!(actions[1], Action::Watch(_)));
}

#[test]
fn second_reading_updates_in_place_and_keeps_the_identifier() {
    let (mut state, ids) = registry_with(&["a"]);
    let (usable, actions) =
        state.load_instance_from_path("/instances/a", Ok(found("a", "1.20.4", Loader::Forge)), false, true);
    assert!(usable);
    assert_eq!(
        actions,
        vec![
            modified(ids[0], "a", "1.20.4", Loader::Forge, InstanceStatus::Idle),
            notify(BridgeNotificationType::Info, "Instance 'a' updated"),
        ]
    );
    assert_eq!(state.instance_id_at("/instances/a"), Some(ids[0]));
    assert_eq!(state.instances_generation(), 1);
    assert_eq!(state.instance(ids[0]).unwrap().version, "1.20.4");
    assert_eq!(state.instance(ids[0]).unwrap().loader, Loader::Forge);
}

#[test]
fn failed_reading_removes_the_instance_and_always_reports() {
    let (mut state, ids) = registry_with(&["a", "b"]);
    let (usable, actions) =
        state.load_instance_from_path("/instances/a", Err("missing field `loader`".to_string()), false, false);
    assert!(!usable);
    assert_eq!(
        actions,
        vec![
            Action::Send(MessageToFrontend::InstanceRemoved { id: ids[0] }),
            notify(
                BridgeNotificationType::Error,
                "Unable to load instance from \"/instances/a\":\nmissing field `loader`",
            ),
        ]
    );
    assert!(state.instance(ids[0]).is_none());
    assert_eq!(state.instance_id_at("/instances/a"), None);
    assert_eq!(state.instance_id_at("/instances/b"), Some(ids[1]));
    assert_eq!(state.instance_ids(), vec![ids[1]]);
}

#[test]
fn failed_reading_of_unknown_directory_reports_only_on_request() {
    let mut state = BackendState::new("/instances".to_string());
    let (usable, actions) = state.load_instance_from_path("/instances/x", Err("no".to_string()), false, true);
    assert!(!usable);
    assert_eq!(actions, vec![]);
    let (_, actions) = state.load_instance_from_path("/instances/x", Err("no".to_string()), true, false);
    assert_eq!(
        actions,
        vec![notify(BridgeNotificationType::Error, "Unable to load instance from \"/instances/x\":\nno")]
    );
}

#[test]
fn path_in_error_text_is_quoted_with_escapes() {
    let mut state = BackendState::new("/instances".to_string());
    let (_, actions) = state.load_instance_from_path("/inst\"ances/\\x", Err("e".to_string()), true, false);
    assert_eq!(
        actions,
        vec![notify(BridgeNotificationType::Error, "Unable to load instance from \"/inst\\\"ances/\\\\x\":\ne")]
    );
}

#[test]
fn discovery_watches_what_is_no_instance() {
    let mut state = BackendState::new("/instances".to_string());
    let actions = state.instance_discovered("/instances/junk", Err("bad".to_string()), true, false);
    assert_eq!(
        actions,
        vec![
            notify(BridgeNotificationType::Error, "Unable to load instance from \"/instances/junk\":\nbad"),
            Action::Watch(WatchRequest {
                path: "/instances/junk".to_string(),
                target: WatchTarget::InvalidInstanceDir,
                report_failure: true,
            }),
        ]
    );
    let actions = state.instance_discovered("/instances/a", Ok(found("a", "1.21", Loader::Vanilla)), true, false);
    assert_eq!(actions.len(), 2);
    assert!(matches!(&actions[1], Action::Watch(request) if matches!(request.target, WatchTarget::InstanceDir { .. })));
}

#[test]
fn reused_slot_gets_a_new_identifier() {
    let (mut state, ids) = registry_with(&["a", "b"]);
    let old = ids[0];
    let actions = state.remove_instance(old);
    assert_eq!(
        actions,
        vec![
            Action::Send(MessageToFrontend::InstanceRemoved { id: old }),
            notify(BridgeNotificationType::Info, "Instance 'a' removed"),
        ]
    );
    let (usable, _) = state.load_instance_from_path("/instances/c", Ok(found("c", "1.21", Loader::Vanilla)), false, false);
    assert!(usable);
    let new = state.instance_id_at("/instances/c").unwrap();
    assert_eq!(new.index, old.index);
    assert_ne!(new, old);
    assert_eq!(new, InstanceID { index: 0, generation: 2 });
    assert!(state.instance(old).is_none());
    assert_eq!(state.instance(new).unwrap().name, "c");
    assert_eq!(state.instance_id_at("/instances/a"), None);
}

#[test]
fn stale_identifier_removes_nothing() {
    let (mut state, ids) = registry_with(&["a"]);
    let old = ids[0];
    state.remove_instance(old);
    state.load_instance_from_path("/instances/b", Ok(found("b", "1.21", Loader::Vanilla)), false, false);
    assert_eq!(state.remove_instance(old), vec![]);
    assert_eq!(state.instance_ids().len(), 1);
    assert_eq!(state.remove_instance(InstanceID { index: 9, generation: 0 }), vec![]);
    assert_eq!(state.remove_instance(InstanceID::dangling()), vec![]);
}

#[test]
fn replaying_changes_gives_what_a_scan_gives() {
    let mut replayed = BackendState::new("/instances".to_string());
    replayed.load_instance_from_path("/instances/a", Ok(found("a", "1", Loader::Vanilla)), false, false);
    replayed.load_instance_from_path("/instances/b", Ok(found("b", "1", Loader::Vanilla)), false, false);
    replayed.load_instance_from_path("/instances/a", Ok(found("a", "2", Loader::Vanilla)), false, false);
    replayed.load_instance_from_path("/instances/b", Err("deleted".to_string()), false, false);
    replayed.load_instance_from_path("/instances/c", Err("empty".to_string()), false, false);
    replayed.load_instance_from_path("/instances/c", Ok(found("c", "1", Loader::Fabric)), false, false);
    replayed.load_instance_from_path("/instances/d", Ok(found("d", "1", Loader::Fabric)), false, false);
    replayed.load_instance_from_path("/instances/d", Err("deleted".to_string()), false, false);
    replayed.load_instance_from_path("/instances/b", Ok(found("b", "3", Loader::Vanilla)), false, false);
    replayed.load_instance_from_path("/instances/b", Err("deleted again".to_string()), false, false);

    let mut scanned = BackendState::new("/instances".to_string());
    scanned.load_instance_from_path("/instances/a", Ok(found("a", "2", Loader::Vanilla)), false, false);
    scanned.load_instance_from_path("/instances/c", Ok(found("c", "1", Loader::Fabric)), false, false);

    for path in ["/instances/a", "/instances/b", "/instances/c", "/instances/d", "/instances/e"] {
        assert_eq!(
            replayed.instance_id_at(path).is_some(),
            scanned.instance_id_at(path).is_some(),
            "{}",
            path
        );
    }
    assert_eq!(replayed.instance_ids().len(), 2);
    let a = replayed.instance_id_at("/instances/a").unwrap();
    assert_eq!(replayed.instance(a).unwrap().version, "2");
}

#[test]
fn watch_outcome_is_recorded() {
    let mut state = BackendState::new("/instances".to_string());
    let request = WatchRequest {
        path: "/instances".to_string(),
        target: WatchTarget::InstancesDir,
        report_failure: true,
    };
    assert_eq!(state.watch_filesystem(request.clone(), true), None);
    assert_eq!(state.watch_target("/instances"), Some(WatchTarget::InstancesDir));
    let again = WatchRequest { target: WatchTarget::InvalidInstanceDir, ..request.clone() };
    assert_eq!(state.watch_filesystem(again, true), None);
    assert_eq!(state.watch_target("/instances"), Some(WatchTarget::InvalidInstanceDir));
}

#[test]
fn failed_watch_is_reported_and_not_recorded() {
    let mut state = BackendState::new("/instances".to_string());
    let request = WatchRequest {
        path: "/gone".to_string(),
        target: WatchTarget::InvalidInstanceDir,
        report_failure: true,
    };
    assert_eq!(
        state.watch_filesystem(request.clone(), false),
        Some(MessageToFrontend::AddNotification {
            notification_type: BridgeNotificationType::Warning,
            message: "Unable to watch directory \"/gone\", launcher may be out of sync with files!".to_string(),
        })
    );
    assert_eq!(state.watch_target("/gone"), None);
    let quiet = WatchRequest { report_failure: false, ..request };
    assert_eq!(state.watch_filesystem(quiet, false), None);
    assert_eq!(state.watch_target("/gone"), None);
}

#[test]
fn create_instance_with_a_good_name() {
    let (mut state, _) = registry_with(&["a"]);
    let actions = state.handle_message(MessageToBackend::CreateInstance {
        name: "New Instance".to_string(),
        version: "1.21.4".to_string(),
        loader: Loader::NeoForge,
    });
    assert_eq!(
        actions,
        vec![
            Action::CreateInstanceDir { name: "New Instance".to_string() },
            Action::Watch(WatchRequest {
                path: "/instances".to_string(),
                target: WatchTarget::InstancesDir,
                report_failure: true,
            }),
            Action::WriteInstanceInfo {
                name: "New Instance".to_string(),
                info: InstanceInfo { minecraft_version: "1.21.4".to_string(), loader: Loader::NeoForge },
            },
        ]
    );
    assert_eq!(state.instance_ids().len(), 1);
}

#[test]
fn create_instance_with_a_taken_name_is_refused() {
    let (mut state, ids) = registry_with(&["a", "b"]);
    let actions = state.handle_message(MessageToBackend::CreateInstance {
        name: "b".to_string(),
        version: "1.21.4".to_string(),
        loader: Loader::Vanilla,
    });
    assert_eq!(
        actions,
        vec![notify(BridgeNotificationType::Warning, "Unable to create instance, name is already used")]
    );
    assert_eq!(state.instance_ids(), ids);
    assert_eq!(state.instances_generation(), 2);
    assert_eq!(state.instance(ids[1]).unwrap().version, "1.21");
}

#[test]
fn create_instance_with_a_path_is_refused() {
    let (mut state, _) = registry_with(&[]);
    for name in ["a/b", "a\\b", "..", ".", "", "/abs"] {
        let actions = state.handle_message(MessageToBackend::CreateInstance {
            name: name.to_string(),
            version: "1".to_string(),
            loader: Loader::Vanilla,
        });
        assert_eq!(
            actions,
            vec![notify(
                BridgeNotificationType::Warning,
                &format!("Unable to create instance, name must not be a path: {}", name),
            )]
        );
    }
    assert!(state.instance_ids().is_empty());
}

#[test]
fn create_instance_with_an_unsafe_name_is_refused() {
    let (mut state, _) = registry_with(&[]);
    for name in ["a:b", "what?", "star*", "CON", "nul.txt", "trailing.", "trailing ", "...", "tab\there", "a<b"] {
        let actions = state.handle_message(MessageToBackend::CreateInstance {
            name: name.to_string(),
            version: "1".to_string(),
            loader: Loader::Vanilla,
        });
        assert_eq!(
            actions,
            vec![notify(
                BridgeNotificationType::Warning,
                &format!("Unable to create instance, name is invalid: {}", name),
            )],
            "{:?}",
            name
        );
    }
    let long = "x".repeat(256);
    let actions = state.create_instance(long.clone(), "1".to_string(), Loader::Vanilla, false);
    assert_eq!(
        actions,
        vec![notify(BridgeNotificationType::Warning, &format!("Unable to create instance, name is invalid: {}", long))]
    );
    let actions = state.handle_message(MessageToBackend::CreateInstance {
        name: long,
        version: "1".to_string(),
        loader: Loader::Vanilla,
    });
    assert_eq!(actions.len(), 1);
}

#[test]
fn kill_without_a_process_is_an_error_and_changes_nothing() {
    let (mut state, ids) = registry_with(&["a"]);
    let actions = state.handle_message(MessageToBackend::KillInstance { id: ids[0] });
    assert_eq!(
        actions,
        vec![notify(BridgeNotificationType::Error, "Can't kill instance, instance wasn't running")]
    );
    assert_eq!(state.instance(ids[0]).unwrap().status, InstanceStatus::Idle);

    state.handle_message(MessageToBackend::StartInstance { id: ids[0], quick_play: None });
    let actions = state.handle_message(MessageToBackend::KillInstance { id: ids[0] });
    assert_eq!(
        actions,
        vec![notify(BridgeNotificationType::Error, "Can't kill instance, instance wasn't running")]
    );
    assert_eq!(state.instance(ids[0]).unwrap().status, InstanceStatus::Launching);
}

#[test]
fn kill_of_an_unknown_instance_is_an_error() {
    let (mut state, ids) = registry_with(&["a"]);
    let stale = InstanceID { index: ids[0].index, generation: 77 };
    let actions = state.handle_message(MessageToBackend::KillInstance { id: stale });
    assert_eq!(actions, vec![notify(BridgeNotificationType::Error, "Can't kill instance, unknown id")]);
    assert_eq!(state.instance(ids[0]).unwrap().status, InstanceStatus::Idle);
}

#[test]
fn process_life_cycle() {
    let (mut state, ids) = registry_with(&["a"]);
    let id = ids[0];
    let quick_play = Some(QuickPlayLaunch::Multiplayer("play.example.org".to_string()));
    let actions = state.handle_message(MessageToBackend::StartInstance { id, quick_play: quick_play.clone() });
    assert_eq!(
        actions,
        vec![
            modified(id, "a", "1.21", Loader::Vanilla, InstanceStatus::Launching),
            Action::OpenTracker { title: "Launching".to_string() },
            Action::Launch { id, quick_play },
        ]
    );
    assert_eq!(state.instance(id).unwrap().status, InstanceStatus::Launching);

    let actions = state.handle_message(MessageToBackend::StartInstance { id, quick_play: None });
    assert_eq!(
        actions,
        vec![
            notify(BridgeNotificationType::Warning, "Can't launch instance, already running"),
            Action::FinishModal { error: Some("Can't launch instance, already running".to_string()) },
        ]
    );

    let actions = state.launch_finished(id, Ok(()));
    assert_eq!(
        actions,
        vec![
            Action::FinishTracker { failed: false },
            Action::FinishModal { error: None },
            modified(id, "a", "1.21", Loader::Vanilla, InstanceStatus::Running),
        ]
    );
    assert_eq!(state.instance(id).unwrap().status, InstanceStatus::Running);

    let actions = state.handle_message(MessageToBackend::KillInstance { id });
    assert_eq!(actions, vec![Action::KillProcess { id }]);
    assert_eq!(state.instance(id).unwrap().status, InstanceStatus::Idle);

    assert_eq!(
        state.kill_finished(id, true),
        vec![modified(id, "a", "1.21", Loader::Vanilla, InstanceStatus::Idle)]
    );
    assert_eq!(
        state.kill_finished(id, false),
        vec![
            notify(BridgeNotificationType::Error, "Failed to kill instance"),
            modified(id, "a", "1.21", Loader::Vanilla, InstanceStatus::Idle),
        ]
    );
}

#[test]
fn failed_launch_returns_to_idle() {
    let (mut state, ids) = registry_with(&["a"]);
    let id = ids[0];
    state.handle_message(MessageToBackend::StartInstance { id, quick_play: None });
    let actions = state.launch_finished(id, Err("no java".to_string()));
    assert_eq!(
        actions,
        vec![
            Action::FinishTracker { failed: true },
            Action::FinishModal { error: Some("no java".to_string()) },
            modified(id, "a", "1.21", Loader::Vanilla, InstanceStatus::Idle),
        ]
    );
    assert_eq!(state.instance(id).unwrap().status, InstanceStatus::Idle);
    let actions = state.launch_finished(id, Ok(()));
    assert_eq!(
        actions,
        vec![Action::FinishTracker { failed: false }, Action::FinishModal { error: None }]
    );
    assert_eq!(state.instance(id).unwrap().status, InstanceStatus::Idle);
}

#[test]
fn start_of_an_unknown_instance_is_an_error() {
    let (mut state, _) = registry_with(&[]);
    let actions = state.handle_message(MessageToBackend::StartInstance {
        id: InstanceID { index: 0, generation: 0 },
        quick_play: None,
    });
    assert_eq!(
        actions,
        vec![
            notify(BridgeNotificationType::Error, "Can't launch instance, unknown id"),
            Action::FinishModal { error: Some("Can't launch instance, unknown id".to_string()) },
        ]
    );
}

#[test]
fn exit_of_the_process_is_noticed_on_a_tick() {
    let (mut state, ids) = registry_with(&["a", "b"]);
    state.set_status(ids[1], InstanceStatus::Running);
    let reports = vec![TickReport::ProcessExited { id: ids[0] }, TickReport::ProcessExited { id: ids[1] }];
    let actions = state.handle_tick(&reports);
    assert_eq!(actions, vec![modified(ids[1], "b", "1.21", Loader::Vanilla, InstanceStatus::Idle)]);
    assert_eq!(state.instance(ids[1]).unwrap().status, InstanceStatus::Idle);
    assert_eq!(state.handle_tick(&reports), vec![]);
    assert_eq!(state.handle_tick(&vec![]), vec![]);
}

#[test]
fn first_load_request_starts_a_load_and_a_watch() {
    let (mut state, ids) = registry_with(&["a"]);
    let id = ids[0];
    let actions = state.handle_message(MessageToBackend::RequestLoadWorlds { id });
    assert_eq!(
        actions,
        vec![
            Action::LoadWorlds { id, saves_path: "/instances/a/saves".to_string() },
            Action::Watch(WatchRequest {
                path: "/instances/a/saves".to_string(),
                target: WatchTarget::InstanceSavesDir { id },
                report_failure: false,
            }),
        ]
    );
    assert_eq!(state.instance(id).unwrap().worlds_state, BridgeDataLoadState::Loading);
    assert_eq!(state.instance(id).unwrap().servers_state, BridgeDataLoadState::Unloaded);

    let actions = state.handle_message(MessageToBackend::RequestLoadServers { id });
    assert_eq!(
        actions,
        vec![
            Action::LoadServers { id, server_dat_path: "/instances/a/servers.dat".to_string() },
            Action::Watch(WatchRequest {
                path: "/instances/a/servers.dat".to_string(),
                target: WatchTarget::ServersDat { id },
                report_failure: false,
            }),
        ]
    );
    assert_eq!(state.instance(id).unwrap().servers_state, BridgeDataLoadState::Loading);
}

#[test]
fn request_during_load_is_served_when_the_load_completes() {
    let (mut state, ids) = registry_with(&["a"]);
    let id = ids[0];
    state.handle_message(MessageToBackend::RequestLoadWorlds { id });
    assert_eq!(state.handle_message(MessageToBackend::RequestLoadWorlds { id }), vec![]);
    assert_eq!(state.instance(id).unwrap().worlds_state, BridgeDataLoadState::LoadingDirty);

    let worlds = vec![
        InstanceWorldSummary { title: "World".to_string(), level_path: "/instances/a/saves/World".to_string() },
        InstanceWorldSummary { title: "Other".to_string(), level_path: "/instances/a/saves/Other".to_string() },
    ];
    let actions = state.handle_tick(&vec![TickReport::WorldsLoaded { id, worlds: worlds.clone() }]);
    assert_eq!(
        actions,
        vec![
            Action::Send(MessageToFrontend::InstanceWorldsUpdated { id, worlds: worlds.clone() }),
            Action::Watch(WatchRequest {
                path: "/instances/a/saves/World".to_string(),
                target: WatchTarget::InstanceLevelDir { id },
                report_failure: false,
            }),
            Action::Watch(WatchRequest {
                path: "/instances/a/saves/Other".to_string(),
                target: WatchTarget::InstanceLevelDir { id },
                report_failure: false,
            }),
            Action::LoadWorlds { id, saves_path: "/instances/a/saves".to_string() },
        ]
    );
    assert_eq!(state.instance(id).unwrap().worlds_state, BridgeDataLoadState::Loading);

    let actions = state.handle_tick(&vec![TickReport::WorldsLoaded { id, worlds: vec![] }]);
    assert_eq!(actions, vec![Action::Send(MessageToFrontend::InstanceWorldsUpdated { id, worlds: vec![] })]);
    assert_eq!(state.instance(id).unwrap().worlds_state, BridgeDataLoadState::Loaded);
    assert_eq!(state.handle_message(MessageToBackend::RequestLoadWorlds { id }), vec![]);
}

#[test]
fn loaded_servers_are_announced() {
    let (mut state, ids) = registry_with(&["a"]);
    let id = ids[0];
    state.handle_message(MessageToBackend::RequestLoadServers { id });
    let servers = vec![InstanceServerSummary { name: "Home".to_string(), ip: "10.0.0.2".to_string() }];
    let actions = state.handle_tick(&vec![TickReport::ServersLoaded { id, servers: servers.clone() }]);
    assert_eq!(actions, vec![Action::Send(MessageToFrontend::InstanceServersUpdated { id, servers })]);
    assert_eq!(state.instance(id).unwrap().servers_state, BridgeDataLoadState::Loaded);
    let gone = InstanceID { index: 5, generation: 5 };
    assert_eq!(state.handle_tick(&vec![TickReport::ServersLoaded { id: gone, servers: vec![] }]), vec![]);
}

#[test]
fn load_state_primitives() {
    let (mut state, ids) = registry_with(&["a"]);
    let id = ids[0];
    let gone = InstanceID { index: 3, generation: 0 };
    assert_eq!(state.start_load(id, LazyData::Servers), Some(StartLoadResult::Initial));
    assert_eq!(state.start_load(gone, LazyData::Servers), None);
    assert_eq!(state.finish_load(id, LazyData::Servers), Some(false));
    assert_eq!(state.finish_load(gone, LazyData::Servers), None);
    assert!(state.mark_dirty(id, LazyData::Servers));
    assert!(!state.mark_dirty(gone, LazyData::Servers));
    assert_eq!(state.instance(id).unwrap().servers_state, BridgeDataLoadState::LoadedDirty);
    assert_eq!(state.start_load(id, LazyData::Servers), Some(StartLoadResult::Reload));
    assert_eq!(state.instance(id).unwrap().worlds_state, BridgeDataLoadState::Unloaded);
}

#[test]
fn changes_on_disk_are_mapped_to_their_watch_target() {
    let (mut state, ids) = registry_with(&["a"]);
    let id = ids[0];
    let watch = |state: &mut BackendState, path: &str, target: WatchTarget| {
        state.watch_filesystem(WatchRequest { path: path.to_string(), target, report_failure: false }, true);
    };
    watch(&mut state, "/instances", WatchTarget::InstancesDir);
    watch(&mut state, "/instances/a", WatchTarget::InstanceDir { id });
    watch(&mut state, "/instances/junk", WatchTarget::InvalidInstanceDir);
    watch(&mut state, "/instances/a/saves", WatchTarget::InstanceSavesDir { id });
    watch(&mut state, "/instances/a/servers.dat", WatchTarget::ServersDat { id });
    watch(&mut state, "/instances/a/saves/World", WatchTarget::InstanceLevelDir { id });
    state.handle_message(MessageToBackend::RequestLoadWorlds { id });
    state.handle_tick(&vec![TickReport::WorldsLoaded { id, worlds: vec![] }]);

    let change = |path: &str, parent: Option<&str>| FsChange {
        path: path.to_string(),
        parent: parent.map(|p| p.to_string()),
    };
    let load = |path: &str| Action::LoadInstance { path: path.to_string(), show_errors: false, show_success: true };

    assert_eq!(
        state.handle_fs_change(&change("/instances", Some("/"))),
        vec![Action::RescanInstances { show_errors: false, show_success: true }]
    );
    assert_eq!(state.handle_fs_change(&change("/instances/new", Some("/instances"))), vec![load("/instances/new")]);
    assert_eq!(state.handle_fs_change(&change("/instances/a", Some("/instances"))), vec![load("/instances/a")]);
    assert_eq!(
        state.handle_fs_change(&change("/instances/a/info_v1.json", Some("/instances/a"))),
        vec![load("/instances/a")]
    );
    assert_eq!(
        state.handle_fs_change(&change("/instances/junk/info_v1.json", Some("/instances/junk"))),
        vec![load("/instances/junk")]
    );
    assert_eq!(state.handle_fs_change(&change("/elsewhere/file", Some("/elsewhere"))), vec![]);
    assert_eq!(state.handle_fs_change(&change("/elsewhere", None)), vec![]);

    assert_eq!(state.instance(id).unwrap().worlds_state, BridgeDataLoadState::Loaded);
    assert_eq!(
        state.handle_fs_change(&change("/instances/a/saves/World/level.dat", Some("/instances/a/saves/World"))),
        vec![Action::Send(MessageToFrontend::Refresh)]
    );
    assert_eq!(state.instance(id).unwrap().worlds_state, BridgeDataLoadState::LoadedDirty);
    assert_eq!(state.instance(id).unwrap().servers_state, BridgeDataLoadState::Unloaded);
    assert_eq!(
        state.handle_fs_change(&change("/instances/a/servers.dat", Some("/instances/a"))),
        vec![Action::Send(MessageToFrontend::Refresh)]
    );

    let changes = vec![
        change("/instances/a/saves/New World", Some("/instances/a/saves")),
        change("/instances/b", Some("/instances")),
    ];
    assert_eq!(
        state.handle_filesystem(&changes),
        vec![Action::Send(MessageToFrontend::Refresh), load("/instances/b")]
    );

    state.remove_instance(id);
    assert_eq!(
        state.handle_fs_change(&change("/instances/a/saves/x", Some("/instances/a/saves"))),
        vec![]
    );
}

#[test]
fn loop_ends_when_a_source_is_closed() {
    let (mut state, ids) = registry_with(&["a"]);
    let step = state.handle(LoopEvent::Tick(vec![]));
    assert!(step.keep_running);
    assert_eq!(step.actions, vec![]);
    let step = state.handle(LoopEvent::Message(Some(MessageToBackend::DownloadAllMetadata)));
    assert!(step.keep_running);
    assert_eq!(step.actions, vec![Action::DownloadAllMetadata]);
    let step = state.handle(LoopEvent::Message(Some(MessageToBackend::LoadVersionManifest { reload: true })));
    assert_eq!(step.actions, vec![Action::LoadVersionManifest { reload: true }]);
    let step = state.handle(LoopEvent::Filesystem(Some(vec![])));
    assert!(step.keep_running);
    let step = state.handle(LoopEvent::Filesystem(None));
    assert!(!step.keep_running);
    assert_eq!(step.actions, vec![]);
    let step = state.handle(LoopEvent::Message(None));
    assert!(!step.keep_running);
    assert_eq!(state.instance_ids(), ids);
}

#[test]
fn instance_messages_carry_its_attributes() {
    let mut instance = found("a", "1.21", Loader::Fabric);
    instance.copy_basic_attributes_from(found("renamed", "1.19", Loader::Forge));
    assert_eq!(instance.name, "renamed");
    assert_eq!(instance.root_path, "/instances/a");
    assert_eq!(instance.id, InstanceID::dangling());
    assert_eq!(
        instance.create_modify_message_with_status(InstanceStatus::Running),
        MessageToFrontend::InstanceModified {
            id: InstanceID::dangling(),
            name: "renamed".to_string(),
            version: "1.19".to_string(),
            loader: Loader::Forge,
            status: InstanceStatus::Running,
        }
    );
    assert_eq!(instance.duplicate(), instance);
    assert_eq!(Loader::NeoForge.name(), "NeoForge");
}
