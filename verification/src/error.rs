//! Errors of device reads and writes.

use vstd::prelude::*;

use crate::text;

verus! {

/// The HID++ exchange that an error belongs to.
#[derive(Debug, Clone, Copy, PartialEq, Eq, Structural)]
pub enum HidppOperation {
    /// Reading the onboard-profile state.
    ReadOnboardProfiles,
    /// Reading the SmartShift state.
    ReadSmartShift,
    /// Writing the SmartShift state.
    WriteSmartShift,
}

impl HidppOperation {
    /// The operation in words.
    pub open spec fn words(self) -> Seq<char> {
        match self {
            HidppOperation::ReadOnboardProfiles => "read onboard profiles"@,
            HidppOperation::ReadSmartShift => "read SmartShift"@,
            HidppOperation::WriteSmartShift => "write SmartShift"@,
        }
    }

    fn name(self) -> (text: &'static str)
        ensures
            text@ == self.words(),
    {
        match self {
            HidppOperation::ReadOnboardProfiles => "read onboard profiles",
            HidppOperation::ReadSmartShift => "read SmartShift",
            HidppOperation::WriteSmartShift => "write SmartShift",
        }
    }
}

/// Why a device turned a feature request down.
#[derive(Debug, Clone, Copy, PartialEq, Eq, Structural)]
pub enum HidppFeatureErrorKind {
    /// An argument was not accepted.
    InvalidArgument,
    /// The feature has no such function.
    InvalidFunctionId,
    /// The device is busy.
    Busy,
}

impl HidppFeatureErrorKind {
    /// The kind in words.
    pub open spec fn words(self) -> Seq<char> {
        match self {
            HidppFeatureErrorKind::InvalidArgument => "invalid argument"@,
            HidppFeatureErrorKind::InvalidFunctionId => "invalid function"@,
            HidppFeatureErrorKind::Busy => "device busy"@,
        }
    }

    fn name(self) -> (text: &'static str)
        ensures
            text@ == self.words(),
    {
        match self {
            HidppFeatureErrorKind::InvalidArgument => "invalid argument",
            HidppFeatureErrorKind::InvalidFunctionId => "invalid function",
            HidppFeatureErrorKind::Busy => "device busy",
        }
    }
}

/// Why a device read or write failed.
#[derive(Debug, PartialEq, Eq)]
pub enum WriteError {
    /// No such device is connected.
    DeviceNotFound,
    /// The device does not answer.
    DeviceUnreachable {
        /// HID++ index of the device.
        index: u8,
    },
    /// The device lacks the feature.
    FeatureUnsupported {
        /// HID++ id of the feature.
        feature_hex: u16,
    },
    /// No reply came in time.
    RequestTimedOut {
        /// What was asked.
        operation: HidppOperation,
    },
    /// The reply does not follow the protocol.
    UnsupportedResponse {
        /// What was asked.
        operation: HidppOperation,
        /// HID++ id of the feature.
        feature_hex: u16,
    },
    /// The feature turned the request down.
    HidppFeature {
        /// What was asked.
        operation: HidppOperation,
        /// HID++ id of the feature.
        feature_hex: u16,
        /// Why.
        kind: HidppFeatureErrorKind,
    },
    /// The sector does not hold a user profile.
    InvalidProfileSector {
        /// The sector.
        sector: u16,
    },
    /// The device reported no DPI value.
    EmptyDpiList,
    /// The transport failed.
    Hidpp(String),
}

/// The text that describes `error`.
pub open spec fn error_text(error: WriteError) -> Seq<char> {
    match error {
        WriteError::DeviceNotFound => "device not found"@,
        WriteError::DeviceUnreachable { index } => "device unreachable at index 0x"@
            + text::hex2_text(index),
        WriteError::FeatureUnsupported { feature_hex } => "feature not supported: 0x"@
            + text::hex4_text(feature_hex),
        WriteError::RequestTimedOut { operation } => operation.words() + ": no reply in time"@,
        WriteError::UnsupportedResponse { operation, feature_hex } => operation.words()
            + ": unsupported response from feature 0x"@ + text::hex4_text(feature_hex),
        WriteError::HidppFeature { operation, feature_hex, kind } => operation.words()
            + ": refused by feature 0x"@ + text::hex4_text(feature_hex) + ": "@ + kind.words(),
        WriteError::InvalidProfileSector { sector } => "not a user profile sector: "@
            + text::sector_text(sector),
        WriteError::EmptyDpiList => "the device reported no DPI values"@,
        WriteError::Hidpp(cause) => "HID++ error: "@ + cause@,
    }
}

impl WriteError {
    /// Describes the error for users and logs.
    pub fn message(&self) -> (message: String)
        ensures
            message@ == error_text(*self),
    {
        match self {
            WriteError::DeviceNotFound => "device not found".to_owned(),
            WriteError::DeviceUnreachable { index } => {
                let mut s = "device unreachable at index 0x".to_owned();
                s.append(text::hex2(*index).as_str());
                s
            },
            WriteError::FeatureUnsupported { feature_hex } => {
                let mut s = "feature not supported: 0x".to_owned();
                s.append(text::hex4(*feature_hex).as_str());
                s
            },
            WriteError::RequestTimedOut { operation } => {
                let mut s = operation.name().to_owned();
                s.append(": no reply in time");
                s
            },
            WriteError::UnsupportedResponse { operation, feature_hex } => {
                let mut s = operation.name().to_owned();
                s.append(": unsupported response from feature 0x");
                s.append(text::hex4(*feature_hex).as_str());
                s
            },
            WriteError::HidppFeature { operation, feature_hex, kind } => {
                let mut s = operation.name().to_owned();
                s.append(": refused by feature 0x");
                s.append(text::hex4(*feature_hex).as_str());
                s.append(": ");
                s.append(kind.name());
                s
            },
            WriteError::InvalidProfileSector { sector } => {
                let mut s = "not a user profile sector: ".to_owned();
                s.append(text::sector(*sector).as_str());
                s
            },
            WriteError::EmptyDpiList => "the device reported no DPI values".to_owned(),
            WriteError::Hidpp(cause) => {
                let mut s = "HID++ error: ".to_owned();
                s.append(cause.as_str());
                s
            },
        }
    }
}

/// Why one HID++ 2.0 feature call failed.
#[derive(Debug, PartialEq, Eq)]
pub enum Hidpp20Error {
    /// The reply does not follow the protocol.
    UnsupportedResponse,
    /// The call itself failed; the text says how.
    Call(String),
}

/// An error says what was asked, what refused it and why, each in its own words.
pub proof fn errors_say_what_happened(index: u8, number: u16, cause: String)
    ensures
        HidppOperation::ReadOnboardProfiles.words() == "read onboard profiles"@,
        HidppOperation::ReadSmartShift.words() == "read SmartShift"@,
        HidppOperation::WriteSmartShift.words() == "write SmartShift"@,
        HidppFeatureErrorKind::InvalidArgument.words() == "invalid argument"@,
        HidppFeatureErrorKind::InvalidFunctionId.words() == "invalid function"@,
        HidppFeatureErrorKind::Busy.words() == "device busy"@,
        error_text(WriteError::DeviceNotFound) == "device not found"@,
        error_text(WriteError::DeviceUnreachable { index }) == "device unreachable at index 0x"@
            + text::hex2_text(index),
        error_text(WriteError::FeatureUnsupported { feature_hex: number })
            == "feature not supported: 0x"@ + text::hex4_text(number),
        error_text(WriteError::InvalidProfileSector { sector: number })
            == "not a user profile sector: "@ + text::sector_text(number),
        error_text(WriteError::EmptyDpiList) == "the device reported no DPI values"@,
        error_text(WriteError::Hidpp(cause)) == "HID++ error: "@ + cause@,
{
}

/// An error of an exchange starts with what was asked and ends with why it failed.
pub proof fn exchange_errors_start_with_the_operation(
    operation: HidppOperation,
    feature_hex: u16,
    kind: HidppFeatureErrorKind,
)
    ensures
        ({
            let timed_out = error_text(WriteError::RequestTimedOut { operation });
            &&& operation.words().is_prefix_of(timed_out)
            &&& timed_out.skip(operation.words().len() as int) == ": no reply in time"@
        }),
        ({
            let response = error_text(WriteError::UnsupportedResponse { operation, feature_hex });
            &&& operation.words().is_prefix_of(response)
            &&& response.skip(operation.words().len() as int)
                == ": unsupported response from feature 0x"@ + text::hex4_text(feature_hex)
        }),
        ({
            let refused = error_text(WriteError::HidppFeature { operation, feature_hex, kind });
            &&& operation.words().is_prefix_of(refused)
            &&& refused.skip(operation.words().len() as int) == ": refused by feature 0x"@
                + text::hex4_text(feature_hex) + ": "@ + kind.words()
        }),
{
    let n = operation.words().len() as int;
    assert(error_text(WriteError::RequestTimedOut { operation }).skip(n)
        =~= ": no reply in time"@);
    assert(error_text(WriteError::UnsupportedResponse { operation, feature_hex }).skip(n)
        =~= ": unsupported response from feature 0x"@ + text::hex4_text(feature_hex));
    assert(error_text(WriteError::HidppFeature { operation, feature_hex, kind }).skip(n)
        =~= ": refused by feature 0x"@ + text::hex4_text(feature_hex) + ": "@ + kind.words());
}

} // verus!
