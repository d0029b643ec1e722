//! SmartShift wheel state, on devices with the enhanced feature (`0x2111`) or
//! the legacy one (`0x2110`).

use vstd::prelude::*;

use crate::error::{HidppFeatureErrorKind, WriteError};

verus! {

/// HID++ id of the enhanced SmartShift feature.
pub const ENHANCED_FEATURE: u16 = 0x2111;

/// Wheel mode of the legacy feature.
#[derive(Debug, Clone, Copy, PartialEq, Eq, Structural)]
pub enum WheelMode {
    /// The wheel spins freely.
    Freespin,
    /// The wheel moves in notches.
    Ratchet,
}

/// Wheel mode of the enhanced feature.
#[derive(Debug, Clone, Copy, PartialEq, Eq, Structural)]
pub enum SmartShiftMode {
    /// The wheel spins freely.
    Free,
    /// The wheel moves in notches.
    Ratchet,
}

impl WheelMode {
    /// The byte that stands for the mode on the wire.
    pub open spec fn wire(self) -> u8 {
        match self {
            WheelMode::Freespin => 1,
            WheelMode::Ratchet => 2,
        }
    }
}

impl SmartShiftMode {
    /// The byte that stands for the mode on the wire.
    pub open spec fn wire(self) -> u8 {
        match self {
            SmartShiftMode::Free => 1,
            SmartShiftMode::Ratchet => 2,
        }
    }
}

impl From<WheelMode> for u8 {
    fn from(mode: WheelMode) -> (byte: u8) {
        match mode {
            WheelMode::Freespin => 1,
            WheelMode::Ratchet => 2,
        }
    }
}

impl vstd::std_specs::convert::FromSpecImpl<WheelMode> for u8 {
    open spec fn obeys_from_spec() -> bool {
        true
    }

    open spec fn from_spec(mode: WheelMode) -> u8 {
        mode.wire()
    }
}

impl From<SmartShiftMode> for u8 {
    fn from(mode: SmartShiftMode) -> (byte: u8) {
        match mode {
            SmartShiftMode::Free => 1,
            SmartShiftMode::Ratchet => 2,
        }
    }
}

impl vstd::std_specs::convert::FromSpecImpl<SmartShiftMode> for u8 {
    open spec fn obeys_from_spec() -> bool {
        true
    }

    open spec fn from_spec(mode: SmartShiftMode) -> u8 {
        mode.wire()
    }
}

/// The SmartShift mode for the wheel mode `mode`.
pub open spec fn smartshift_mode(mode: WheelMode) -> SmartShiftMode {
    match mode {
        WheelMode::Freespin => SmartShiftMode::Free,
        WheelMode::Ratchet => SmartShiftMode::Ratchet,
    }
}

/// The wheel mode for the SmartShift mode `mode`.
pub open spec fn wheel_mode(mode: SmartShiftMode) -> WheelMode {
    match mode {
        SmartShiftMode::Free => WheelMode::Freespin,
        SmartShiftMode::Ratchet => WheelMode::Ratchet,
    }
}

/// The SmartShift mode for the wheel mode `mode`.
pub fn wheel_mode_to_smartshift(mode: WheelMode) -> (smartshift: SmartShiftMode)
    ensures
        smartshift == smartshift_mode(mode),
{
    match mode {
        WheelMode::Freespin => SmartShiftMode::Free,
        WheelMode::Ratchet => SmartShiftMode::Ratchet,
    }
}

/// The wheel mode for the SmartShift mode `mode`; the inverse of
/// [`wheel_mode_to_smartshift`].
pub fn smartshift_to_wheel(mode: SmartShiftMode) -> (wheel: WheelMode)
    ensures
        wheel == wheel_mode(mode),
{
    match mode {
        SmartShiftMode::Free => WheelMode::Freespin,
        SmartShiftMode::Ratchet => WheelMode::Ratchet,
    }
}

/// Modes of the two features round-trip through each other and share one wire
/// encoding, which tells them apart.
pub proof fn modes_share_one_wire_encoding(wheel: WheelMode, mode: SmartShiftMode)
    ensures
        smartshift_mode(wheel_mode(mode)) == mode,
        wheel_mode(smartshift_mode(wheel)) == wheel,
        wheel.wire() == mode.wire() <==> smartshift_mode(wheel) == mode,
{
}

/// Wheel speed at which a ratcheting wheel starts to spin freely.
#[derive(Debug, Clone, Copy, PartialEq, Eq, Structural)]
pub struct SmartShiftThreshold(pub u8);

/// Strength of the ratchet.
#[derive(Debug, Clone, Copy, PartialEq, Eq, Structural)]
pub struct TunableTorque(pub u8);

/// When a ratcheting wheel starts to spin freely.
#[derive(Debug, Clone, Copy, PartialEq, Eq, Structural)]
pub enum SmartShiftAutoDisengage {
    /// At a threshold.
    Threshold(SmartShiftThreshold),
    /// Never.
    Never,
}

/// SmartShift state of a device, or the one that is wanted.
#[derive(Debug, Clone, Copy, PartialEq, Eq, Structural)]
pub struct SmartShiftStatus {
    /// Wheel mode.
    pub mode: SmartShiftMode,
    /// When a ratcheting wheel starts to spin freely.
    pub auto_disengage: SmartShiftAutoDisengage,
    /// Strength of the ratchet, where the device can tune it.
    pub tunable_torque: Option<TunableTorque>,
}

/// Whether `current` is what `desired` asks for. A torque that is not asked for
/// may be anything.
pub fn status_matches_desired(current: SmartShiftStatus, desired: SmartShiftStatus) -> (matched:
    bool)
    ensures
        matched == (current.mode == desired.mode && current.auto_disengage
            == desired.auto_disengage && (desired.tunable_torque is None || current.tunable_torque
            == desired.tunable_torque)),
{
    let torque = match (current.tunable_torque, desired.tunable_torque) {
        (_, None) => true,
        (Some(current), Some(desired)) => current.0 == desired.0,
        (None, Some(_)) => false,
    };
    let disengage = match (current.auto_disengage, desired.auto_disengage) {
        (
            SmartShiftAutoDisengage::Threshold(current),
            SmartShiftAutoDisengage::Threshold(desired),
        ) => current.0 == desired.0,
        (SmartShiftAutoDisengage::Never, SmartShiftAutoDisengage::Never) => true,
        _ => false,
    };
    current.mode == desired.mode && disengage && torque
}

/// Whether `error` says that the device lacks the enhanced feature, so that the
/// legacy one is worth a try. Any other failure must be reported, not masked by
/// a fallback.
pub fn is_missing_enhanced(error: &WriteError) -> (missing: bool)
    ensures
        missing == (*error == WriteError::FeatureUnsupported { feature_hex: ENHANCED_FEATURE }),
{
    match error {
        WriteError::FeatureUnsupported { feature_hex } => *feature_hex == ENHANCED_FEATURE,
        _ => false,
    }
}

/// Whether a SmartShift exchange that failed with `error` is worth repeating: a
/// device that wakes up refuses arguments, is busy, or answers with something
/// else for a while.
pub fn is_transient_smartshift_error(error: &WriteError) -> (transient: bool)
    ensures
        transient == (match *error {
            WriteError::HidppFeature { kind, .. } => kind == HidppFeatureErrorKind::InvalidArgument
                || kind == HidppFeatureErrorKind::Busy,
            WriteError::UnsupportedResponse { .. } => true,
            _ => false,
        }),
{
    match error {
        WriteError::HidppFeature { operation: _, feature_hex: _, kind } => match kind {
            HidppFeatureErrorKind::InvalidArgument => true,
            HidppFeatureErrorKind::Busy => true,
            HidppFeatureErrorKind::InvalidFunctionId => false,
        },
        WriteError::UnsupportedResponse { operation: _, feature_hex: _ } => true,
        _ => false,
    }
}

/// On the wire a free wheel is the byte one and a ratcheting one the byte two.
pub proof fn wheel_modes_on_the_wire()
    ensures
        WheelMode::Freespin.wire() == 1,
        WheelMode::Ratchet.wire() == 2,
        SmartShiftMode::Free.wire() == 1,
        SmartShiftMode::Ratchet.wire() == 2,
{
}

/// The legacy feature is tried exactly where the device lacks feature `0x2111`.
pub proof fn enhanced_feature_is_the_newer_one(feature_hex: u16)
    ensures
        (WriteError::FeatureUnsupported { feature_hex }) == (WriteError::FeatureUnsupported {
            feature_hex: ENHANCED_FEATURE,
        }) <==> feature_hex == 0x2111,
{
}

/// A free wheel is free and a ratcheting one ratchets, whichever feature names it.
pub proof fn wheel_modes_keep_their_meaning(wheel: WheelMode, mode: SmartShiftMode)
    ensures
        smartshift_mode(wheel) is Free <==> wheel is Freespin,
        wheel_mode(mode) is Freespin <==> mode is Free,
{
}

} // verus!
