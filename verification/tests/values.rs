use openlogi_onboard::device::{DeviceKey, DeviceRecord, DeviceRoute};
use openlogi_onboard::device_read::{device_read_step, ReadEvent, ReadStep};
use openlogi_onboard::error::{HidppFeatureErrorKind, HidppOperation, WriteError};
use openlogi_onboard::keyed::{KeySet, KeyedMap};
use openlogi_onboard::profiles::is_rom_sector;
use openlogi_onboard::smartshift::{
    is_transient_smartshift_error, smartshift_to_wheel, status_matches_desired,
    wheel_mode_to_smartshift, SmartShiftAutoDisengage, SmartShiftMode, SmartShiftStatus,
    SmartShiftThreshold, TunableTorque, WheelMode,
};
use openlogi_onboard::text;
use openlogi_onboard::write::validate_user_profile;

#[test]
fn numbers_are_rendered() {
    assert_eq!(text::hex2(0x0f), "0f");
    assert_eq!(text::hex2(0xa7), "a7");
    assert_eq!(text::hex4(0), "0000");
    assert_eq!(text::hex4(0xbeef), "beef");
    assert_eq!(text::sector(0x0101), "0x0101");
    assert_eq!(text::decimal(0), "0");
    assert_eq!(text::decimal(10), "10");
    assert_eq!(text::decimal(u64::MAX), "18446744073709551615");
}

#[test]
fn strings_are_joined_and_compared() {
    assert_eq!(text::join2("a", "b"), "ab");
    assert_eq!(text::join3("a", "", "c"), "ac");
    assert!(text::same("é", "é"));
    assert!(!text::same("e", "é"));
    for (a, b) in [("", "a"), ("a", "aa"), ("ab", "b"), ("Z", "a"), ("z", "é")] {
        assert!(text::before(a, b), "{a:?} before {b:?}");
        assert!(!text::before(b, a), "{b:?} not before {a:?}");
        assert!(!text::before(a, a), "{a:?} not before itself");
        assert!(a < b, "the order is that of str");
    }
}

#[test]
fn rom_flag_is_bit_eight() {
    for sector in [0x0100, 0x0101, 0x01ff, 0x0300, 0xffff] {
        assert!(is_rom_sector(sector));
    }
    for sector in [0x0000, 0x0001, 0x00ff, 0x0200, 0xfeff] {
        assert!(!is_rom_sector(sector));
    }
}

#[test]
fn sector_zero_is_no_user_profile() {
    assert_eq!(
        validate_user_profile(0),
        Err(WriteError::InvalidProfileSector { sector: 0 })
    );
    assert_eq!(validate_user_profile(1), Ok(()));
    assert_eq!(validate_user_profile(0x0200), Ok(()));
}

#[test]
fn every_error_has_a_message() {
    let cases = [
        (WriteError::DeviceNotFound, "device not found"),
        (
            WriteError::DeviceUnreachable { index: 0xff },
            "device unreachable at index 0xff",
        ),
        (
            WriteError::FeatureUnsupported {
                feature_hex: 0x8100,
            },
            "feature not supported: 0x8100",
        ),
        (
            WriteError::RequestTimedOut {
                operation: HidppOperation::ReadOnboardProfiles,
            },
            "read onboard profiles: no reply in time",
        ),
        (
            WriteError::UnsupportedResponse {
                operation: HidppOperation::ReadSmartShift,
                feature_hex: 0x2110,
            },
            "read SmartShift: unsupported response from feature 0x2110",
        ),
        (
            WriteError::HidppFeature {
                operation: HidppOperation::WriteSmartShift,
                feature_hex: 0x2111,
                kind: HidppFeatureErrorKind::Busy,
            },
            "write SmartShift: refused by feature 0x2111: device busy",
        ),
        (
            WriteError::HidppFeature {
                operation: HidppOperation::WriteSmartShift,
                feature_hex: 0x2111,
                kind: HidppFeatureErrorKind::InvalidArgument,
            },
            "write SmartShift: refused by feature 0x2111: invalid argument",
        ),
        (
            WriteError::HidppFeature {
                operation: HidppOperation::WriteSmartShift,
                feature_hex: 0x2111,
                kind: HidppFeatureErrorKind::InvalidFunctionId,
            },
            "write SmartShift: refused by feature 0x2111: invalid function",
        ),
        (
            WriteError::InvalidProfileSector { sector: 0x0101 },
            "not a user profile sector: 0x0101",
        ),
        (
            WriteError::EmptyDpiList,
            "the device reported no DPI values",
        ),
        (WriteError::Hidpp("boom".to_string()), "HID++ error: boom"),
    ];
    for (error, message) in cases {
        assert_eq!(error.message(), message);
    }
}

#[test]
fn wheel_modes_round_trip_and_share_bytes() {
    assert_eq!(u8::from(WheelMode::Freespin), 1);
    assert_eq!(u8::from(WheelMode::Ratchet), 2);
    for wheel in [WheelMode::Freespin, WheelMode::Ratchet] {
        let mode = wheel_mode_to_smartshift(wheel);
        assert_eq!(u8::from(mode), u8::from(wheel));
        assert_eq!(smartshift_to_wheel(mode), wheel);
    }
}

#[test]
fn requested_torque_and_threshold_must_match() {
    let status = |disengage, torque| SmartShiftStatus {
        mode: SmartShiftMode::Free,
        auto_disengage: disengage,
        tunable_torque: torque,
    };
    let at = |threshold| SmartShiftAutoDisengage::Threshold(SmartShiftThreshold(threshold));
    let never = SmartShiftAutoDisengage::Never;
    let torque = |value| Some(TunableTorque(value));
    assert!(status_matches_desired(status(never, None), status(never, None)));
    assert!(status_matches_desired(
        status(at(3), torque(5)),
        status(at(3), torque(5))
    ));
    assert!(!status_matches_desired(
        status(at(3), torque(5)),
        status(at(3), torque(6))
    ));
    assert!(!status_matches_desired(
        status(at(3), None),
        status(at(3), torque(6))
    ));
    assert!(!status_matches_desired(status(at(3), None), status(at(4), None)));
    assert!(!status_matches_desired(status(never, None), status(at(4), None)));
}

#[test]
fn transport_failures_are_not_transient_smartshift_errors() {
    assert!(!is_transient_smartshift_error(&WriteError::DeviceNotFound));
    assert!(!is_transient_smartshift_error(
        &WriteError::RequestTimedOut {
            operation: HidppOperation::ReadSmartShift
        }
    ));
}

#[test]
fn keys_and_routes_are_compared_by_contents() {
    let key = DeviceKey::from("a");
    assert_eq!(key.as_str(), "a");
    assert_eq!(key.text(), "a");
    assert!(key.same(&key.clone()));
    assert!(!key.same(&DeviceKey::default()));
    assert_eq!(DeviceKey::default().as_str(), "");

    let direct = DeviceRoute::Direct {
        vendor_id: 0x046d,
        product_id: 0xb35b,
    };
    let paired = DeviceRoute::Receiver {
        receiver: "bolt".to_string(),
        slot: 2,
    };
    assert!(direct.same(&direct.clone()));
    assert!(paired.same(&paired.clone()));
    assert!(!direct.same(&paired));
    assert!(!paired.same(&DeviceRoute::Receiver {
        receiver: "bolt".to_string(),
        slot: 3,
    }));

    let record = DeviceRecord {
        key: DeviceKey::from("k"),
        config_key: Some("c".to_string()),
        route: Some(paired.clone()),
    };
    assert_eq!(record.device_key(), DeviceKey::from("k"));
    assert_eq!(record.persistent_config_key(), Some("c".to_string()));
    assert_eq!(record.route_copy(), Some(paired));
}

#[test]
fn keyed_map_holds_one_value_per_key() {
    let mut map: KeyedMap<u8> = KeyedMap::new();
    assert_eq!(map.get("a"), None);
    map.insert("a".to_string(), 1);
    map.insert("b".to_string(), 2);
    map.insert("a".to_string(), 3);
    assert_eq!(map.get("a"), Some(&3));
    assert_eq!(map.get("b"), Some(&2));
    assert!(map.contains_key("b"));
    assert_eq!(map.remove("a"), Some(3));
    assert_eq!(map.remove("a"), None);
    assert!(!map.contains_key("a"));
    map.insert("c".to_string(), 4);
    map.retain(&|key: &str| key == "c");
    assert!(!map.contains_key("b"));
    assert_eq!(map.get("c"), Some(&4));
}

#[test]
fn key_set_holds_each_key_once() {
    let mut set = KeySet::new();
    set.insert("a".to_string());
    set.insert("a".to_string());
    set.insert("b".to_string());
    assert!(set.contains("a"));
    assert!(set.remove("a"));
    assert!(!set.remove("a"));
    set.retain(&|key: &str| key == "a");
    assert!(!set.contains("b"));
}

#[test]
fn only_a_delivered_reply_is_stored() {
    assert!(matches!(
        device_read_step(ReadEvent::Delivered(7)),
        ReadStep::Store(7)
    ));
    assert!(matches!(
        device_read_step(ReadEvent::<u8>::NotSent),
        ReadStep::Clear
    ));
    assert!(matches!(
        device_read_step(ReadEvent::<u8>::Dropped),
        ReadStep::Clear
    ));
}
