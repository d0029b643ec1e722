use openlogi_onboard::device::{DeviceKey, DeviceRecord, DeviceRoute};
use openlogi_onboard::device_read::ReadEvent;
use openlogi_onboard::dpi::{expand_dpi_ranges, Dpi, DpiCapabilities, DpiInfo, DpiRange};
use openlogi_onboard::dpi_panel::{
    active_preset, dpi_error_is_permanent, normalized_presets, with_preset, without_preset, DpiPanel,
    DpiRead, RangeLabel, SliderBody, SliderPlan, SliderShape,
};
use openlogi_onboard::error::{HidppOperation, WriteError};
use openlogi_onboard::load::Load;
use openlogi_onboard::state::{AppState, DpiStatus};

const STEP: Dpi = Dpi(50);

fn key() -> DeviceKey {
    DeviceKey::from("mouse")
}

fn route() -> DeviceRoute {
    DeviceRoute::Direct {
        vendor_id: 0x046d,
        product_id: 0xb35b,
    }
}

fn other_route() -> DeviceRoute {
    DeviceRoute::Direct {
        vendor_id: 0x046d,
        product_id: 0xb35c,
    }
}

fn capabilities(values: &[u16]) -> DpiCapabilities {
    DpiCapabilities::new(values.to_vec()).expect("there are values")
}

fn info(current: u16, values: &[u16]) -> DpiInfo {
    DpiInfo {
        current: Dpi::new(current),
        capabilities: capabilities(values),
    }
}

/// State with one device, which is active.
fn state(route: Option<DeviceRoute>) -> AppState {
    let mut state = AppState::new(Dpi::new(1000));
    state.device_list.push(DeviceRecord {
        key: key(),
        config_key: None,
        route,
    });
    state
}

/// State whose device supports 400, 800 and 1600 and is at 800.
fn ready_state() -> AppState {
    let mut state = state(Some(route()));
    state.store_dpi_info(key(), &route(), Ok(info(800, &[400, 800, 1600])));
    state
}

fn values(values: &[u16]) -> Vec<Dpi> {
    values.iter().map(|value| Dpi::new(*value)).collect()
}

#[test]
fn capabilities_are_sorted_and_distinct() {
    assert_eq!(
        capabilities(&[800, 400, 800, 1600]).values(),
        values(&[400, 800, 1600])
    );
    assert_eq!(capabilities(&[800, 400, 1600]).min(), Dpi::new(400));
    assert_eq!(capabilities(&[800, 400, 1600]).max(), Dpi::new(1600));
    assert_eq!(
        DpiCapabilities::new(vec![]),
        Err(WriteError::EmptyDpiList)
    );
}

#[test]
fn nearest_value_is_found_and_ties_go_down() {
    let capabilities = capabilities(&[400, 800, 1600]);
    for (wanted, nearest) in [
        (0, 400),
        (400, 400),
        (600, 400),
        (601, 800),
        (1199, 800),
        (1200, 800),
        (1201, 1600),
        (u16::MAX, 1600),
    ] {
        assert_eq!(capabilities.nearest(Dpi::new(wanted)), Dpi::new(nearest));
    }
}

#[test]
fn ranges_reach_the_highest_value_without_overflow() {
    assert_eq!(
        expand_dpi_ranges(&[DpiRange::Stepped {
            from: 65000,
            to: 65535,
            step: 400
        }]),
        [65000, 65400, 65535]
    );
    assert_eq!(
        expand_dpi_ranges(&[DpiRange::Stepped {
            from: 100,
            to: 200,
            step: 0
        }]),
        [100, 200]
    );
    assert_eq!(expand_dpi_ranges(&[]), []);
}

#[test]
fn only_a_missing_feature_or_an_empty_list_is_permanent() {
    assert!(dpi_error_is_permanent(&WriteError::FeatureUnsupported {
        feature_hex: 0x2201
    }));
    assert!(dpi_error_is_permanent(&WriteError::EmptyDpiList));
    assert!(!dpi_error_is_permanent(&WriteError::RequestTimedOut {
        operation: HidppOperation::ReadSmartShift
    }));
}

#[test]
fn first_read_goes_before_a_refresh() {
    let mut state = state(Some(route()));
    assert_eq!(
        state.ensure_dpi_load(),
        Some((DpiRead::Initial, key(), route()))
    );
    assert_eq!(state.ensure_dpi_load(), None);
    state.finish_dpi_read(
        DpiRead::Initial,
        key(),
        &route(),
        ReadEvent::Delivered(Ok(info(800, &[400, 800]))),
    );
    assert_eq!(state.dpi, Dpi::new(800));
    assert_eq!(state.ensure_dpi_load(), None);
    state.reads.dpi.mark_stale(&key());
    assert_eq!(
        state.ensure_dpi_load(),
        Some((DpiRead::Refresh, key(), route()))
    );
    assert_eq!(state.ensure_dpi_load(), None);
    state.finish_dpi_read(
        DpiRead::Refresh,
        key(),
        &route(),
        ReadEvent::Delivered(Ok(info(400, &[400, 800]))),
    );
    assert_eq!(state.dpi, Dpi::new(400));
}

#[test]
fn offline_devices_are_not_read() {
    let mut state = state(None);
    assert_eq!(state.ensure_dpi_load(), None);
    assert_eq!(AppState::new(Dpi::new(1)).ensure_dpi_load(), None);
}

#[test]
fn refresh_does_not_interrupt_a_drag() {
    let mut state = ready_state();
    state.slider_changed(Dpi::new(1500));
    assert_eq!(state.dpi, Dpi::new(1600));
    assert!(state.dpi_dragging);
    state.store_dpi_refresh(key(), &route(), Ok(info(400, &[400, 800, 1600])));
    assert_eq!(state.dpi, Dpi::new(1600));
    assert_eq!(
        state.reads.dpi.status(&key()),
        Load::Ready(info(400, &[400, 800, 1600]))
    );
    assert_eq!(state.slider_released(Dpi::new(500)), Dpi::new(400));
    assert!(!state.dpi_dragging);
    assert_eq!(state.dpi, Dpi::new(1600));
}

#[test]
fn results_of_another_route_or_device_do_not_move_the_resolution() {
    let mut state = ready_state();
    state.store_dpi_refresh(key(), &other_route(), Ok(info(400, &[400])));
    assert_eq!(state.dpi, Dpi::new(800));
    assert_eq!(
        state.reads.dpi.status(&key()),
        Load::Ready(info(800, &[400, 800, 1600]))
    );
    state.device_list.push(DeviceRecord {
        key: DeviceKey::from("other"),
        config_key: None,
        route: Some(other_route()),
    });
    state.store_dpi_info(
        DeviceKey::from("other"),
        &other_route(),
        Ok(info(400, &[400])),
    );
    assert_eq!(state.dpi, Dpi::new(800));
}

#[test]
fn dropped_replies_end_the_read() {
    let mut state = state(Some(route()));
    state.ensure_dpi_load();
    state.finish_dpi_read(DpiRead::Initial, key(), &route(), ReadEvent::NotSent);
    assert!(state.reads.dpi.unqueried(&key()));

    let mut state = ready_state();
    state.reads.dpi.mark_stale(&key());
    state.ensure_dpi_load();
    state.finish_dpi_read(DpiRead::Refresh, key(), &route(), ReadEvent::Dropped);
    state.reads.dpi.mark_stale(&key());
    assert_eq!(
        state.ensure_dpi_load(),
        Some((DpiRead::Refresh, key(), route()))
    );
}

#[test]
fn resolutions_are_normalized_once_they_are_known() {
    let unknown = state(Some(route()));
    assert_eq!(unknown.normalize_active_dpi(Dpi::new(700)), Dpi::new(700));
    assert_eq!(unknown.preset_target(Dpi::new(700)), None);
    let ready = ready_state();
    assert_eq!(ready.normalize_active_dpi(Dpi::new(700)), Dpi::new(800));
    assert_eq!(ready.preset_target(Dpi::new(700)), Some(Dpi::new(800)));
    assert_eq!(
        normalized_presets(&ready, &values(&[100, 700, 9000])),
        values(&[400, 800, 1600])
    );
}

#[test]
fn one_preset_is_highlighted() {
    assert_eq!(
        active_preset(&values(&[400, 800, 800]), Dpi::new(800)),
        Some(1)
    );
    assert_eq!(active_preset(&values(&[400]), Dpi::new(800)), None);
    assert_eq!(active_preset(&values(&[]), Dpi::new(800)), None);
}

#[test]
fn presets_are_added_and_removed() {
    let presets = values(&[400, 800]);
    let more = with_preset(&presets, Dpi::new(400));
    assert_eq!(more, values(&[400, 800, 400]));
    assert_eq!(without_preset(&more, 2), presets);
    assert_eq!(without_preset(&more, 0), values(&[800, 400]));
    assert_eq!(without_preset(&more, 3), more);
}

#[test]
fn slider_is_built_once_and_its_thumb_moved_when_needed() {
    let mut panel = DpiPanel::new();
    let capabilities = capabilities(&[400, 800, 1600]);
    let shape = SliderShape {
        min: Dpi::new(400),
        max: Dpi::new(1600),
        step: STEP,
    };
    let mut plan = |key: &str, step: Dpi, dpi: u16, thumb: u16| {
        panel.ensure_slider(key, &capabilities, step, Dpi::new(dpi), Dpi::new(thumb))
    };
    assert_eq!(
        plan("a", STEP, 850, 0),
        SliderPlan::Build {
            shape,
            value: Dpi::new(800)
        }
    );
    // The thumb rests between supported values, nearest to the wanted one.
    assert_eq!(plan("a", STEP, 800, 900), SliderPlan::Keep);
    assert_eq!(
        plan("a", STEP, 1600, 900),
        SliderPlan::Reseat(Dpi::new(1600))
    );
    assert_eq!(
        plan("b", STEP, 1600, 1600),
        SliderPlan::Build {
            shape,
            value: Dpi::new(1600)
        }
    );
    assert!(matches!(
        plan("b", Dpi::new(100), 1600, 1600),
        SliderPlan::Build { .. }
    ));
}

#[test]
fn panel_shows_the_range_and_the_slider() {
    let state = ready_state();
    let mut panel = DpiPanel::new();
    let snapshot = state.dpi_panel_snapshot(
        values(&[400, 750]),
        Dpi::new(1),
        "no device".to_string(),
    );
    assert_eq!(snapshot.device_key, key());
    assert_eq!(snapshot.dpi, Dpi::new(800));
    assert!(snapshot.reachable);
    let view = panel.render(&state, &snapshot, STEP, Dpi::new(0));
    assert!(matches!(view.slider, SliderPlan::Build { .. }));
    assert_eq!(view.active_preset, Some(1));
    assert_eq!(view.body, SliderBody::Slider);
    let RangeLabel::Range(range) = view.label else {
        panic!("the range is known");
    };
    assert_eq!(range, "400–1600 · step 50");
}

#[test]
fn panel_says_why_there_is_no_slider() {
    let cases: [(DpiStatus, bool, SliderBody); 6] = [
        (Load::Unknown, true, SliderBody::Reading),
        (Load::Unknown, false, SliderBody::Offline),
        (Load::Loading, true, SliderBody::Reading),
        (Load::Loading, false, SliderBody::Offline),
        (Load::Failed("f".to_string()), true, SliderBody::Retry),
        (
            Load::Unsupported("u".to_string()),
            true,
            SliderBody::Unsupported,
        ),
    ];
    for (status, reachable, body) in cases {
        let state = state(Some(route()));
        let mut snapshot = state.dpi_panel_snapshot(vec![], Dpi::new(1), String::new());
        snapshot.status = status;
        snapshot.reachable = reachable;
        let view = DpiPanel::new().render(&state, &snapshot, STEP, Dpi::new(0));
        assert_eq!(view.slider, SliderPlan::Drop);
        assert_eq!(view.active_preset, None);
        assert_eq!(view.body, body);
        match (view.label, body) {
            (RangeLabel::Loading, SliderBody::Reading) => {}
            (RangeLabel::Offline, SliderBody::Offline) => {}
            (RangeLabel::Failed(message), SliderBody::Retry) => assert_eq!(message, "f"),
            (RangeLabel::Unavailable(message), SliderBody::Unsupported) => {
                assert_eq!(message, "u")
            }
            _ => panic!("the label goes with the body"),
        }
    }
}

#[test]
fn single_value_is_shown_as_fixed() {
    let mut state = state(Some(route()));
    state.store_dpi_info(key(), &route(), Ok(info(800, &[800])));
    let snapshot = state.dpi_panel_snapshot(vec![], Dpi::new(1), String::new());
    let view = DpiPanel::new().render(&state, &snapshot, STEP, Dpi::new(0));
    assert_eq!(view.body, SliderBody::Fixed(Dpi::new(800)));
}

#[test]
fn without_a_device_the_fallback_is_shown() {
    let snapshot =
        AppState::new(Dpi::new(1000)).dpi_panel_snapshot(values(&[400]), Dpi::new(1600), "none".to_string());
    assert_eq!(snapshot.device_key, DeviceKey::default());
    assert_eq!(snapshot.dpi, Dpi::new(1600));
    assert_eq!(snapshot.presets, []);
    assert_eq!(snapshot.status, Load::Unsupported("none".to_string()));
    assert!(!snapshot.reachable);
}

#[test]
fn presets_are_highlighted_as_the_device_has_them() {
    let state = ready_state();
    let mut panel = DpiPanel::new();
    // 700 and 900 both snap to 800, where the device is.
    let snapshot =
        state.dpi_panel_snapshot(values(&[400, 700, 900, 800]), Dpi::new(1), String::new());
    let view = panel.render(&state, &snapshot, STEP, Dpi::new(800));
    assert_eq!(view.active_preset, Some(1));
    let snapshot = state.dpi_panel_snapshot(values(&[400, 1600]), Dpi::new(1), String::new());
    let view = panel.render(&state, &snapshot, STEP, Dpi::new(800));
    assert_eq!(view.active_preset, None);
}
