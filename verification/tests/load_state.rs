use pandora_backend::message::{BridgeDataLoadState, StartLoadResult};

#[test]
fn load_request_is_due_only_when_unloaded_or_stale() {
    assert!(BridgeDataLoadState::Unloaded.should_send_load_request());
    assert!(BridgeDataLoadState::LoadedDirty.should_send_load_request());
    assert!(!BridgeDataLoadState::Loading.should_send_load_request());
    assert!(!BridgeDataLoadState::LoadingDirty.should_send_load_request());
    assert!(!BridgeDataLoadState::Loaded.should_send_load_request());
}

#[test]
fn request_during_load_is_served_on_completion() {
    let mut state = BridgeDataLoadState::Unloaded;
    assert_eq!(state.start_load(), StartLoadResult::Initial);
    assert_eq!(state, BridgeDataLoadState::Loading);
    assert_eq!(state.start_load(), StartLoadResult::Deferred);
    assert_eq!(state, BridgeDataLoadState::LoadingDirty);
    assert!(state.finish_load());
    assert_eq!(state, BridgeDataLoadState::Loading);
    assert!(!state.finish_load());
    assert_eq!(state, BridgeDataLoadState::Loaded);
}
