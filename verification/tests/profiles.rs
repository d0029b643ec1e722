use openlogi_onboard::device::{DeviceKey, DeviceRecord, DeviceRoute};
use openlogi_onboard::device_read::ReadEvent;
use openlogi_onboard::dpi::Dpi;
use openlogi_onboard::error::{HidppOperation, WriteError};
use openlogi_onboard::load::Load;
use openlogi_onboard::profiles::{OnboardProfilesInfo, ProfileEntry, ProfilesMode};
use openlogi_onboard::profiles_panel::{
    keep_profile_for, ready_body, selectable_profiles, ProfileChoice, ProfilesContent, ProfilesRead,
};
use openlogi_onboard::state::{AppState, Command, CommitStep, OnboardProfiles, ProfilesLoad};

fn info(active_profile: u16, directory: Vec<ProfileEntry>) -> OnboardProfilesInfo {
    OnboardProfilesInfo {
        profile_count: 3,
        profile_count_oob: 1,
        button_count: 5,
        sector_count: 3,
        sector_size: 256,
        memory_model_id: 1,
        profile_format_id: 1,
        macro_format_id: 1,
        mode: ProfilesMode::Onboard,
        active_profile,
        directory,
    }
}

#[test]
fn rom_flag_is_detected() {
    assert!(
        ProfileEntry {
            sector: 0x0101,
            enabled: true
        }
        .is_rom()
    );
    assert!(
        !ProfileEntry {
            sector: 0x0002,
            enabled: true
        }
        .is_rom()
    );
}

#[test]
fn selectable_profiles_exclude_disabled_and_rom_entries_without_renumbering() {
    let info = info(
        3,
        vec![
            ProfileEntry {
                sector: 1,
                enabled: false,
            },
            ProfileEntry {
                sector: 0x0101,
                enabled: true,
            },
            ProfileEntry {
                sector: 3,
                enabled: true,
            },
        ],
    );
    let profiles: Vec<_> = selectable_profiles(&info);
    assert_eq!(profiles, vec![(2, info.directory[2])]);
}

#[test]
fn profile_fallback_never_selects_rom() {
    let info = info(
        0x0101,
        vec![
            ProfileEntry {
                sector: 0x0101,
                enabled: true,
            },
            ProfileEntry {
                sector: 2,
                enabled: true,
            },
        ],
    );
    assert_eq!(keep_profile_for(&info), Some(2));
}

fn entry(sector: u16, enabled: bool) -> ProfileEntry {
    ProfileEntry { sector, enabled }
}

fn key() -> DeviceKey {
    DeviceKey::from("mouse")
}

fn route() -> DeviceRoute {
    DeviceRoute::Receiver {
        receiver: "lightspeed".to_string(),
        slot: 1,
    }
}

fn other_route() -> DeviceRoute {
    DeviceRoute::Direct {
        vendor_id: 0x046d,
        product_id: 0xc07d,
    }
}

/// State with one device, which is active.
fn state(config_key: Option<&str>, route: Option<DeviceRoute>) -> AppState {
    let mut state = AppState::new(Dpi::new(800));
    state.device_list.push(DeviceRecord {
        key: key(),
        config_key: config_key.map(|key| key.to_string()),
        route,
    });
    state
}

fn shown(state: &AppState) -> OnboardProfilesInfo {
    match state.current_profiles_status() {
        Load::Ready(info) => info,
        _ => panic!("the profiles are read"),
    }
}

#[test]
fn active_profile_is_kept_if_it_can_be_selected() {
    let directory = vec![entry(1, true), entry(2, true), entry(3, false)];
    assert_eq!(keep_profile_for(&info(2, directory.clone())), Some(2));
    assert_eq!(keep_profile_for(&info(3, directory)), Some(1));
    assert_eq!(
        keep_profile_for(&info(0x0101, vec![entry(0x0101, true), entry(2, false)])),
        None
    );
}

#[test]
fn panel_offers_profiles_in_onboard_mode_only() {
    let mut info = info(
        3,
        vec![entry(1, false), entry(0x0101, true), entry(3, true), entry(4, true)],
    );
    let body = ready_body(&info);
    assert!(body.onboard);
    assert_eq!(body.keep_profile, Some(3));
    assert_eq!(
        body.profiles,
        [
            ProfileChoice {
                number: 3,
                sector: 3,
                selected: true
            },
            ProfileChoice {
                number: 4,
                sector: 4,
                selected: false
            }
        ]
    );
    info.mode = ProfilesMode::Host;
    info.active_profile = 0;
    let body = ready_body(&info);
    assert!(!body.onboard);
    assert_eq!(body.keep_profile, Some(3));
    assert_eq!(body.profiles, []);
}

#[test]
fn first_read_is_started_once_and_stored() {
    let mut state = state(None, Some(route()));
    assert!(state.current_profiles_unqueried());
    assert_eq!(state.ensure_profiles_load(), Some((key(), route())));
    assert_eq!(state.current_profiles_status(), ProfilesLoad::Loading);
    assert_eq!(state.ensure_profiles_load(), None);
    assert!(matches!(state.profiles_content(), ProfilesContent::Reading));
    state.finish_profiles_read(
        ProfilesRead::Initial,
        key(),
        &route(),
        ReadEvent::Delivered(Ok(info(1, vec![entry(1, true)]))),
    );
    assert_eq!(shown(&state), info(1, vec![entry(1, true)]));
    let ProfilesContent::Ready(body) = state.profiles_content() else {
        panic!("the controls are shown");
    };
    assert_eq!(body.profiles.len(), 1);
}

#[test]
fn dropped_reply_clears_the_loading_marker() {
    for event in [ReadEvent::NotSent, ReadEvent::Dropped] {
        let mut state = state(None, Some(route()));
        state.ensure_profiles_load();
        state.finish_profiles_read(ProfilesRead::Initial, key(), &route(), event);
        assert!(state.current_profiles_unqueried());
    }
    let mut state = state(None, Some(route()));
    state.ensure_profiles_load();
    state.finish_profiles_read(ProfilesRead::Confirm, key(), &route(), ReadEvent::Dropped);
    assert_eq!(state.current_profiles_status(), ProfilesLoad::Loading);
}

#[test]
fn read_of_another_route_is_ignored() {
    let mut state = state(None, Some(route()));
    state.ensure_profiles_load();
    state.store_profiles_info(key(), &other_route(), Ok(info(1, vec![])));
    assert!(state.current_profiles_unqueried());
    state.store_profiles_info(DeviceKey::from("gone"), &route(), Ok(info(1, vec![])));
    assert!(state.current_profiles_unqueried());
}

#[test]
fn panel_shows_what_became_of_the_read() {
    let mut state = state(None, Some(route()));
    state.store_profiles_info(
        key(),
        &route(),
        Err(WriteError::FeatureUnsupported {
            feature_hex: 0x8100,
        }),
    );
    assert!(matches!(state.profiles_content(), ProfilesContent::NoMemory));
    state.retry_profiles(&key());
    for _ in 0..3 {
        state.store_profiles_info(
            key(),
            &route(),
            Err(WriteError::RequestTimedOut {
                operation: HidppOperation::ReadOnboardProfiles,
            }),
        );
    }
    let ProfilesContent::Retry(retry) = state.profiles_content() else {
        panic!("a click retries");
    };
    assert_eq!(retry, key());
    state.retry_profiles(&retry);
    assert!(state.current_profiles_unqueried());
}

#[test]
fn offline_device_is_not_read() {
    let mut offline = state(None, None);
    assert_eq!(offline.ensure_profiles_load(), None);
    assert!(matches!(offline.profiles_content(), ProfilesContent::Offline));
    let mut empty = AppState::new(Dpi::new(800));
    assert_eq!(empty.ensure_profiles_load(), None);
    assert!(!empty.current_profiles_unqueried());
    assert_eq!(empty.current_profiles_status(), ProfilesLoad::Unknown);
    assert!(matches!(empty.profiles_content(), ProfilesContent::Offline));
}

#[test]
fn change_of_an_unsaved_device_is_applied_at_once() {
    let mut state = state(None, Some(route()));
    state.store_profiles_info(key(), &route(), Ok(info(1, vec![entry(1, true)])));
    let CommitStep::Applied(command) = state.commit_onboard_profiles(ProfilesMode::Onboard, Some(2))
    else {
        panic!("nothing is saved");
    };
    assert_eq!(
        command,
        Some(Command::SetOnboardProfiles(
            route(),
            ProfilesMode::Onboard,
            Some(2)
        ))
    );
    assert_eq!(shown(&state), info(2, vec![entry(1, true)]));
    assert_eq!(state.take_active_profiles_confirm(), Some((key(), route())));
    assert_eq!(state.take_active_profiles_confirm(), None);
    // The device kept its profile: the confirming read says so.
    state.finish_profiles_read(
        ProfilesRead::Confirm,
        key(),
        &route(),
        ReadEvent::Delivered(Ok(info(1, vec![entry(1, true)]))),
    );
    assert_eq!(shown(&state).active_profile, 1);
}

#[test]
fn change_waits_for_its_settings_to_be_saved() {
    let mut state = state(Some("saved"), Some(route()));
    state.store_profiles_info(key(), &route(), Ok(info(1, vec![])));
    let CommitStep::Persist(pending) = state.commit_onboard_profiles(ProfilesMode::Host, Some(7))
    else {
        panic!("settings are saved first");
    };
    assert_eq!(
        state.config.onboard_profiles("saved"),
        Some(OnboardProfiles::Host)
    );
    assert_eq!(shown(&state), info(1, vec![]));
    assert_eq!(
        state.resume_commit(pending, true),
        Some(Command::SetOnboardProfiles(
            route(),
            ProfilesMode::Host,
            None
        ))
    );
    assert_eq!(shown(&state).mode, ProfilesMode::Host);
    assert_eq!(shown(&state).active_profile, 0);

    let CommitStep::Persist(pending) = state.commit_onboard_profiles(ProfilesMode::Onboard, Some(7))
    else {
        panic!("settings are saved first");
    };
    assert_eq!(
        state.config.onboard_profiles("saved"),
        Some(OnboardProfiles::Onboard { profile: Some(7) })
    );
    assert_eq!(state.resume_commit(pending, false), None);
    assert_eq!(shown(&state).mode, ProfilesMode::Host);
}

#[test]
fn change_of_an_offline_device_sends_nothing() {
    let mut offline = state(None, None);
    let CommitStep::Applied(command) = offline.commit_onboard_profiles(ProfilesMode::Host, None)
    else {
        panic!("nothing is saved");
    };
    assert_eq!(command, None);
    assert_eq!(offline.take_active_profiles_confirm(), None);
    let mut empty = AppState::new(Dpi::new(800));
    assert!(matches!(
        empty.commit_onboard_profiles(ProfilesMode::Host, None),
        CommitStep::Ignored
    ));
}

#[test]
fn onboard_change_without_a_profile_keeps_the_active_one() {
    let mut state = state(None, Some(route()));
    state.store_profiles_info(key(), &route(), Ok(info(5, vec![])));
    state.commit_onboard_profiles(ProfilesMode::Onboard, None);
    assert_eq!(shown(&state), info(5, vec![]));
}

#[test]
fn saved_choice_can_be_dropped() {
    let mut state = state(Some("saved"), None);
    state
        .config
        .set_onboard_profiles("saved", Some(OnboardProfiles::Host));
    state.config.set_onboard_profiles("saved", None);
    assert_eq!(state.config.onboard_profiles("saved"), None);
}

#[test]
fn unqueried_device_is_the_one_with_unknown_status() {
    let mut state = state(None, Some(route()));
    assert!(state.current_profiles_unqueried());
    assert_eq!(state.current_profiles_status(), ProfilesLoad::Unknown);
    state.store_profiles_info(key(), &route(), Ok(info(1, vec![])));
    assert!(!state.current_profiles_unqueried());
    assert_ne!(state.current_profiles_status(), ProfilesLoad::Unknown);
    state.retry_profiles(&key());
    assert!(state.current_profiles_unqueried());
    assert_eq!(state.current_profiles_status(), ProfilesLoad::Unknown);
    let empty = AppState::new(Dpi::new(800));
    assert!(!empty.current_profiles_unqueried());
    assert_eq!(empty.current_profiles_status(), ProfilesLoad::Unknown);
}
