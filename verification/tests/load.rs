use openlogi_onboard::device::DeviceKey;
use openlogi_onboard::error::{HidppOperation, WriteError};
use openlogi_onboard::load::{LazyDeviceData, Load, LOAD_MAX_ATTEMPTS};
use openlogi_onboard::state::profiles_error_is_permanent;

fn key() -> DeviceKey {
    DeviceKey::from("receiver:test:slot:1")
}

#[test]
fn mark_stale_only_flags_resolved_entries() {
    let mut data = LazyDeviceData::<u8>::default();
    // Unqueried: nothing to refresh — the initial-load path owns it.
    data.mark_stale(&key());
    assert!(!data.begin_refresh(&key()), "unqueried must not refresh");
    // Loading: same — the in-flight initial read will deliver.
    data.mark_loading(&key());
    data.mark_stale(&key());
    assert!(!data.begin_refresh(&key()), "loading must not refresh");
    // Ready: stale flag arms exactly one refresh.
    data.set_ready(key(), 7);
    data.mark_stale(&key());
    assert!(data.begin_refresh(&key()), "ready+stale must refresh");
    assert!(
        !data.begin_refresh(&key()),
        "the stale flag is claimed once, not once per render frame"
    );
    // While the refresh is in flight, re-marking is a no-op.
    data.mark_stale(&key());
    assert!(
        !data.begin_refresh(&key()),
        "no duplicate in-flight refresh"
    );
}

#[test]
fn store_refresh_keeps_the_cached_value_on_error() {
    let mut data = LazyDeviceData::<u8>::default();
    data.set_ready(key(), 7);
    data.mark_stale(&key());
    assert!(data.begin_refresh(&key()), "refresh should arm");
    let stored = data.store_refresh(key(), Err(WriteError::DeviceNotFound), "test");
    assert_eq!(stored, None);
    assert_eq!(
        data.status(&key()),
        Load::Ready(7),
        "a failed silent refresh must not blank the panel"
    );
    // The failure released the in-flight claim: staleness can re-arm.
    data.mark_stale(&key());
    assert!(
        data.begin_refresh(&key()),
        "refresh re-arms after a failure"
    );
    let stored = data.store_refresh(key(), Ok(9), "test");
    assert_eq!(stored, Some(9));
    assert_eq!(data.status(&key()), Load::Ready(9));
}

#[test]
fn remove_clears_the_stale_and_refresh_flags() {
    let mut data = LazyDeviceData::<u8>::default();
    data.set_ready(key(), 7);
    data.mark_stale(&key());
    data.remove(&key());
    assert!(
        !data.begin_refresh(&key()),
        "a removed device leaves no orphaned stale flag"
    );
}

fn other() -> DeviceKey {
    DeviceKey::from("receiver:test:slot:2")
}

fn timeout() -> WriteError {
    WriteError::RequestTimedOut {
        operation: HidppOperation::ReadOnboardProfiles,
    }
}

/// Stores `result` for a device that is still on the route that was read.
fn store(data: &mut LazyDeviceData<u8>, result: Result<u8, WriteError>) -> Option<u8> {
    data.store(key(), result, profiles_error_is_permanent, true, true, "test")
}

#[test]
fn third_transient_failure_gives_up() {
    let mut data = LazyDeviceData::<u8>::default();
    assert_eq!(LOAD_MAX_ATTEMPTS, 3);
    for _ in 0..2 {
        data.mark_loading(&key());
        assert_eq!(store(&mut data, Err(timeout())), None);
        assert!(data.unqueried(&key()), "a transient failure is retried");
    }
    data.mark_loading(&key());
    assert_eq!(store(&mut data, Err(timeout())), None);
    assert_eq!(
        data.status(&key()),
        Load::Failed("read onboard profiles: no reply in time".to_string())
    );
    data.retry(&key());
    assert_eq!(data.status(&key()), Load::Unknown);
    store(&mut data, Err(timeout()));
    assert!(data.unqueried(&key()), "a retry restores the whole budget");
}

#[test]
fn delivered_value_gives_the_budget_back() {
    let mut data = LazyDeviceData::<u8>::default();
    store(&mut data, Err(timeout()));
    store(&mut data, Err(timeout()));
    assert_eq!(store(&mut data, Ok(5)), Some(5));
    assert_eq!(data.status(&key()), Load::Ready(5));
    for _ in 0..2 {
        store(&mut data, Err(timeout()));
        assert!(data.unqueried(&key()));
    }
}

#[test]
fn missing_feature_is_never_retried() {
    let mut data = LazyDeviceData::<u8>::default();
    let error = WriteError::FeatureUnsupported {
        feature_hex: 0x8100,
    };
    assert_eq!(store(&mut data, Err(error)), None);
    assert_eq!(
        data.status(&key()),
        Load::Unsupported("feature not supported: 0x8100".to_string())
    );
    assert!(!data.unqueried(&key()));
}

#[test]
fn result_of_a_dead_route_is_not_shown() {
    let mut data = LazyDeviceData::<u8>::default();
    data.mark_loading(&key());
    let stored = data.store(key(), Ok(5), profiles_error_is_permanent, false, true, "test");
    assert_eq!(stored, None);
    assert!(data.unqueried(&key()), "the live route is read next");

    data.mark_loading(&key());
    let stored = data.store(key(), Ok(5), profiles_error_is_permanent, false, false, "test");
    assert_eq!(stored, None);
    assert_eq!(data.get(&key()), Some(&Load::Loading));
}

#[test]
fn only_a_loading_marker_is_cleared() {
    let mut data = LazyDeviceData::<u8>::default();
    data.mark_loading(&key());
    data.clear_loading(&key());
    assert!(data.unqueried(&key()));
    data.set_ready(key(), 7);
    data.clear_loading(&key());
    assert_eq!(data.status(&key()), Load::Ready(7));
}

#[test]
fn dropped_refresh_can_be_armed_again() {
    let mut data = LazyDeviceData::<u8>::default();
    data.set_ready(key(), 7);
    data.mark_stale(&key());
    assert!(data.begin_refresh(&key()));
    data.clear_refreshing(&key());
    assert!(!data.begin_refresh(&key()));
    data.mark_stale(&key());
    assert!(data.begin_refresh(&key()));
}

#[test]
fn absent_devices_are_forgotten_and_others_kept() {
    let mut data = LazyDeviceData::<u8>::default();
    data.set_ready(key(), 7);
    data.set_ready(other(), 8);
    data.mark_stale(&key());
    data.mark_stale(&other());
    data.retain_present(|key: &str| key == "receiver:test:slot:2");
    assert!(data.unqueried(&key()));
    assert!(!data.begin_refresh(&key()));
    assert_eq!(data.status(&other()), Load::Ready(8));
    assert!(data.begin_refresh(&other()));
}

#[test]
fn storing_one_device_leaves_the_other_alone() {
    let mut data = LazyDeviceData::<u8>::default();
    data.set_ready(other(), 8);
    data.mark_stale(&other());
    store(&mut data, Ok(5));
    assert_eq!(data.status(&other()), Load::Ready(8));
    assert!(data.begin_refresh(&other()));
}

/// A number whose clones count how often they were cloned.
#[derive(Debug, PartialEq, Eq)]
struct Counted(u8);

impl Clone for Counted {
    fn clone(&self) -> Self {
        Counted(self.0 + 1)
    }
}

#[test]
fn refresh_records_a_clone_and_returns_the_value() {
    let mut data = LazyDeviceData::<Counted>::default();
    let stored = data.store_refresh(key(), Ok(Counted(0)), "test");
    assert_eq!(stored, Some(Counted(0)));
    assert_eq!(data.get(&key()), Some(&Load::Ready(Counted(1))));
}

#[test]
fn first_read_records_the_value_and_returns_a_clone() {
    let mut data = LazyDeviceData::<Counted>::default();
    let stored = data.store(
        key(),
        Ok(Counted(0)),
        profiles_error_is_permanent,
        true,
        true,
        "test",
    );
    assert_eq!(stored, Some(Counted(1)));
    assert_eq!(data.get(&key()), Some(&Load::Ready(Counted(0))));
}

#[test]
fn predicate_is_consulted_once_and_only_about_a_live_error() {
    let calls = std::cell::RefCell::new(vec![]);
    let permanent = |error: &WriteError| {
        calls.borrow_mut().push(error.message());
        false
    };
    let mut data = LazyDeviceData::<u8>::default();
    data.store(key(), Err(timeout()), &permanent, false, true, "test");
    data.store(key(), Err(timeout()), &permanent, false, false, "test");
    data.store(key(), Ok(5), &permanent, true, true, "test");
    assert!(calls.borrow().is_empty());
    data.store(key(), Err(timeout()), &permanent, true, true, "test");
    assert_eq!(*calls.borrow(), [timeout().message()]);
}
