//! Plain types for the HID++ `OnboardProfiles` feature (`0x8100`).
//!
//! Activating an onboard profile reloads its stored settings, so a configured
//! mode and profile are applied before other volatile device settings.

use vstd::prelude::*;

verus! {

/// Whether `sector` carries the ROM flag, bit 8 of the sector number.
pub open spec fn rom_sector(sector: u16) -> bool {
    (sector / 0x0100) % 2 == 1
}

/// Whether `sector` names a ROM (factory) profile rather than a writable user
/// profile.
#[must_use]
pub fn is_rom_sector(sector: u16) -> (rom: bool)
    ensures
        rom == rom_sector(sector),
        rom == (sector & 0x0100 != 0),
{
    assert((sector & 0x0100 != 0) == ((sector / 0x0100) % 2 == 1)) by (bit_vector);
    sector & 0x0100 != 0
}

/// Whether a gaming device applies its onboard flash profile or host software
/// settings.
#[derive(Debug, Clone, Copy, PartialEq, Eq, Structural)]
pub enum ProfilesMode {
    /// The host drives the device; onboard profiles are dormant.
    Host,
    /// The device applies the profile stored in its onboard memory.
    Onboard,
}

/// One entry of the device's onboard profile directory.
#[derive(Debug, Clone, Copy, PartialEq, Eq, Structural)]
pub struct ProfileEntry {
    /// Flash sector holding the profile. User profiles live in sectors
    /// `0x0001..`; ROM (factory) profiles carry the `0x0100` flag.
    pub sector: u16,
    /// Whether the profile is enabled on the device.
    pub enabled: bool,
}

impl ProfileEntry {
    /// Whether the entry may be made the active profile: it is enabled and
    /// lives in a user sector.
    pub open spec fn selectable(self) -> bool {
        self.enabled && !rom_sector(self.sector)
    }

    /// Whether this is a ROM (factory) profile rather than a writable user
    /// profile.
    #[must_use]
    pub fn is_rom(&self) -> (rom: bool)
        ensures
            rom == rom_sector(self.sector),
    {
        is_rom_sector(self.sector)
    }
}

/// Snapshot of a device's onboard-profiles state.
#[derive(Debug, PartialEq, Eq)]
pub struct OnboardProfilesInfo {
    /// Number of writable user profiles.
    pub profile_count: u8,
    /// Number of out-of-box (ROM) profiles.
    pub profile_count_oob: u8,
    /// Number of physical buttons covered by a profile.
    pub button_count: u8,
    /// Number of writable flash sectors.
    pub sector_count: u8,
    /// Size of one flash sector in bytes.
    pub sector_size: u16,
    /// Memory model identifier (raw, informational).
    pub memory_model_id: u8,
    /// Profile format identifier (raw, informational).
    pub profile_format_id: u8,
    /// Macro format identifier (raw, informational).
    pub macro_format_id: u8,
    /// Whether the device is in host or onboard mode.
    pub mode: ProfilesMode,
    /// Sector of the active profile, or `0x0000` in host mode because no
    /// onboard profile is active.
    pub active_profile: u16,
    /// The profile directory (enabled and disabled entries).
    pub directory: Vec<ProfileEntry>,
}

/// Mathematical contents of an [`OnboardProfilesInfo`].
#[verifier::ext_equal]
pub struct ProfilesInfoView {
    pub profile_count: u8,
    pub profile_count_oob: u8,
    pub button_count: u8,
    pub sector_count: u8,
    pub sector_size: u16,
    pub memory_model_id: u8,
    pub profile_format_id: u8,
    pub macro_format_id: u8,
    pub mode: ProfilesMode,
    pub active_profile: u16,
    pub directory: Seq<ProfileEntry>,
}

impl View for OnboardProfilesInfo {
    type V = ProfilesInfoView;

    open spec fn view(&self) -> ProfilesInfoView {
        ProfilesInfoView {
            profile_count: self.profile_count,
            profile_count_oob: self.profile_count_oob,
            button_count: self.button_count,
            sector_count: self.sector_count,
            sector_size: self.sector_size,
            memory_model_id: self.memory_model_id,
            profile_format_id: self.profile_format_id,
            macro_format_id: self.macro_format_id,
            mode: self.mode,
            active_profile: self.active_profile,
            directory: self.directory@,
        }
    }
}

impl Clone for OnboardProfilesInfo {
    fn clone(&self) -> (copy: Self)
        ensures
            copy@ == self@,
    {
        let directory = self.directory.clone();
        assert(directory@ =~= self.directory@);
        OnboardProfilesInfo {
            profile_count: self.profile_count,
            profile_count_oob: self.profile_count_oob,
            button_count: self.button_count,
            sector_count: self.sector_count,
            sector_size: self.sector_size,
            memory_model_id: self.memory_model_id,
            profile_format_id: self.profile_format_id,
            macro_format_id: self.macro_format_id,
            mode: self.mode,
            active_profile: self.active_profile,
            directory,
        }
    }
}

/// A sector names a ROM profile exactly if bit 8 of its number is set, and an entry
/// may be made active exactly if it is enabled and its sector does not.
pub proof fn rom_flag_is_bit_eight(entry: ProfileEntry)
    ensures
        rom_sector(entry.sector) <==> entry.sector & 0x0100 != 0,
        entry.selectable() <==> entry.enabled && entry.sector & 0x0100 == 0,
{
    let sector = entry.sector;
    assert((sector & 0x0100 != 0) == ((sector / 0x0100) % 2 == 1)) by (bit_vector);
}

/// What is known of a device is all that its report holds: two reports with the same
/// contents agree in every field.
pub proof fn contents_are_the_fields(info: OnboardProfilesInfo)
    ensures
        info@.profile_count == info.profile_count,
        info@.profile_count_oob == info.profile_count_oob,
        info@.button_count == info.button_count,
        info@.sector_count == info.sector_count,
        info@.sector_size == info.sector_size,
        info@.memory_model_id == info.memory_model_id,
        info@.profile_format_id == info.profile_format_id,
        info@.macro_format_id == info.macro_format_id,
        info@.mode == info.mode,
        info@.active_profile == info.active_profile,
        info@.directory == info.directory@,
{
}

} // verus!
