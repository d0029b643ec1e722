//! The `OnboardProfiles` feature (ID `0x8100`), which controls a gaming
//! device's onboard profile memory.
//!
//! In onboard mode the device runs a profile stored in its own flash; in host
//! mode that profile lies dormant and the host drives the device — but the host
//! must then supply whatever the profile used to, such as the DPI stage list.
//! Covered are the memory description, the mode, the active profile, and reads
//! of flash sectors — enough to parse the profile directory. All multi-byte
//! fields are big-endian.
//!
//! Nothing here talks to a device. A call to the feature is described by a
//! [`FeatureCall`]; the methods that take a payload decode its reply.

use vstd::prelude::*;

use crate::error::Hidpp20Error;
use crate::profiles::ProfilesMode;

verus! {

/// Sector holding the profile directory.
pub const DIRECTORY_SECTOR: u16 = 0x0000;

/// Bit set in sector numbers referring to ROM (factory) profiles rather than
/// writable user profiles.
pub const ROM_SECTOR_FLAG: u16 = 0x0100;

/// Sector value terminating the profile directory. Also what erased flash
/// (`0xFF` bytes) reads back as, so an empty directory parses as no entries.
pub const DIRECTORY_END: u16 = 0xffff;

/// Size of one profile-directory entry in bytes.
pub const DIRECTORY_ENTRY_LEN: usize = 4;

/// Bytes of flash that one read returns.
pub const MEMORY_READ_LEN: usize = 16;

/// HID++ id of the feature.
pub const FEATURE_ID: u16 = 0x8100;

/// The big-endian number at `offset` of `bytes`.
pub open spec fn be16_at(bytes: Seq<u8>, offset: int) -> u16 {
    (bytes[offset] * 256 + bytes[offset + 1]) as u16
}

/// Reads a big-endian `u16` at `offset` of a payload.
pub fn be16(payload: &[u8], offset: usize) -> (n: u16)
    requires
        offset + 1 < payload.len(),
    ensures
        n == be16_at(payload@, offset as int),
        n == payload@[offset as int] * 256 + payload@[offset + 1],
{
    (payload[offset] as u16) * 256 + (payload[offset + 1] as u16)
}

/// The two bytes of a number, high byte first.
pub open spec fn be_bytes(n: u16) -> Seq<u8> {
    seq![(n / 256) as u8, (n % 256) as u8]
}

/// What is written as a big-endian number reads back as that number.
pub proof fn be_bytes_read_back(n: u16)
    ensures
        be16_at(be_bytes(n), 0) == n,
{
}

/// Whether profile settings come from onboard flash or host software.
///
/// The wire encoding also defines `0x00` as "no change" for set requests; it is
/// never a valid mode report, so it is deliberately not representable here.
#[derive(Clone, Copy, Debug, PartialEq, Eq, Hash, Structural)]
#[non_exhaustive]
pub enum OnboardMode {
    /// The device applies the profile stored in its onboard memory.
    Onboard,
    /// The device takes its settings from host software.
    Host,
}

impl OnboardMode {
    /// The byte that stands for the mode on the wire.
    pub open spec fn wire(self) -> u8 {
        match self {
            OnboardMode::Onboard => 1,
            OnboardMode::Host => 2,
        }
    }

    /// The byte that stands for the mode on the wire.
    pub fn to_byte(self) -> (byte: u8)
        ensures
            byte == self.wire(),
    {
        match self {
            OnboardMode::Onboard => 1,
            OnboardMode::Host => 2,
        }
    }

    /// The mode that `byte` stands for, if there is one.
    pub fn from_byte(byte: u8) -> (mode: Option<OnboardMode>)
        ensures
            match mode {
                Some(mode) => mode.wire() == byte,
                None => forall|mode: OnboardMode| #[trigger] mode.wire() != byte,
            },
    {
        match byte {
            1 => Some(OnboardMode::Onboard),
            2 => Some(OnboardMode::Host),
            _ => None,
        }
    }
}

/// The mode that the firmware mode `mode` stands for.
pub open spec fn profiles_mode(mode: OnboardMode) -> ProfilesMode {
    match mode {
        OnboardMode::Onboard => ProfilesMode::Onboard,
        OnboardMode::Host => ProfilesMode::Host,
    }
}

/// The mode that the firmware mode `mode` stands for.
pub fn onboard_mode_to_profiles(mode: OnboardMode) -> (profiles: ProfilesMode)
    ensures
        profiles == profiles_mode(mode),
{
    match mode {
        OnboardMode::Onboard => ProfilesMode::Onboard,
        OnboardMode::Host => ProfilesMode::Host,
    }
}

/// The firmware mode for `mode`.
pub open spec fn firmware_mode(mode: ProfilesMode) -> OnboardMode {
    match mode {
        ProfilesMode::Onboard => OnboardMode::Onboard,
        ProfilesMode::Host => OnboardMode::Host,
    }
}

/// The firmware mode for `mode`; the inverse of [`onboard_mode_to_profiles`].
pub fn profiles_to_onboard_mode(mode: ProfilesMode) -> (firmware: OnboardMode)
    ensures
        firmware == firmware_mode(mode),
{
    match mode {
        ProfilesMode::Onboard => OnboardMode::Onboard,
        ProfilesMode::Host => OnboardMode::Host,
    }
}

/// The `getProfilesDescription` response describing the device's profile
/// memory. The format ids are kept raw — they are informational and never
/// branched on.
#[derive(Clone, Copy, Debug, PartialEq, Eq, Hash, Structural)]
#[non_exhaustive]
pub struct ProfilesDescription {
    /// Memory model identifier.
    pub memory_model_id: u8,
    /// Profile format identifier.
    pub profile_format_id: u8,
    /// Macro format identifier.
    pub macro_format_id: u8,
    /// Number of writable user profiles.
    pub profile_count: u8,
    /// Number of out-of-box (ROM) profiles.
    pub profile_count_oob: u8,
    /// Number of physical buttons covered by a profile.
    pub button_count: u8,
    /// Number of writable flash sectors.
    pub sector_count: u8,
    /// Size of one flash sector in bytes.
    pub sector_size: u16,
    /// Mechanical layout descriptor (raw).
    pub mechanical_layout: u8,
    /// Additional device info (raw).
    pub various_info: u8,
}

impl ProfilesDescription {
    /// The description that a response payload holds.
    pub open spec fn of_payload(payload: Seq<u8>) -> Self {
        ProfilesDescription {
            memory_model_id: payload[0],
            profile_format_id: payload[1],
            macro_format_id: payload[2],
            profile_count: payload[3],
            profile_count_oob: payload[4],
            button_count: payload[5],
            sector_count: payload[6],
            sector_size: be16_at(payload, 7),
            mechanical_layout: payload[9],
            various_info: payload[10],
        }
    }

    /// Total number of user and out-of-box profiles.
    pub open spec fn profile_total(self) -> int {
        self.profile_count + self.profile_count_oob
    }

    /// Parses a description from a `getProfilesDescription` response payload.
    pub fn from_payload(payload: &[u8; 16]) -> (description: Self)
        ensures
            description == Self::of_payload(payload@),
    {
        ProfilesDescription {
            memory_model_id: payload[0],
            profile_format_id: payload[1],
            macro_format_id: payload[2],
            profile_count: payload[3],
            profile_count_oob: payload[4],
            button_count: payload[5],
            sector_count: payload[6],
            sector_size: be16(payload, 7),
            mechanical_layout: payload[9],
            various_info: payload[10],
        }
    }

    /// Total number of user and out-of-box profiles that may appear in the
    /// shared directory.
    pub fn total_profile_count(&self) -> (total: usize)
        ensures
            total == self.profile_total(),
    {
        (self.profile_count as usize) + (self.profile_count_oob as usize)
    }
}

/// One entry of the profile directory in sector [`DIRECTORY_SECTOR`].
#[derive(Clone, Copy, Debug, PartialEq, Eq, Hash, Structural)]
#[non_exhaustive]
pub struct ProfileDirectoryEntry {
    /// The flash sector holding the profile.
    pub sector: u16,
    /// Whether the profile is enabled.
    pub enabled: bool,
}

/// Whether all four bytes of directory entry `i` are in `bytes`.
pub open spec fn complete(bytes: Seq<u8>, i: int) -> bool {
    0 <= i && 4 * i + 4 <= bytes.len()
}

/// The sector number of directory entry `i`.
pub open spec fn sector_at(bytes: Seq<u8>, i: int) -> u16 {
    be16_at(bytes, 4 * i)
}

/// Directory entry `i`.
pub open spec fn entry_at(bytes: Seq<u8>, i: int) -> ProfileDirectoryEntry {
    ProfileDirectoryEntry { sector: sector_at(bytes, i), enabled: bytes[4 * i + 2] == 1 }
}

/// Whether entry `i` is complete and holds a profile, its enabled byte `0` or `1`.
pub open spec fn holds_profile(bytes: Seq<u8>, i: int) -> bool {
    complete(bytes, i) && sector_at(bytes, i) != DIRECTORY_END && bytes[4 * i + 2] <= 1
}

/// Whether entry `i` is complete and is the terminator.
pub open spec fn terminates(bytes: Seq<u8>, i: int) -> bool {
    complete(bytes, i) && sector_at(bytes, i) == DIRECTORY_END
}

/// Whether the directory in `bytes` consists of its first `n` entries: they all
/// hold profiles, and `n` is the most there can be or a terminator follows.
pub open spec fn directory_ends_at(bytes: Seq<u8>, max_entries: int, n: int) -> bool {
    &&& 0 <= n <= max_entries
    &&& n == max_entries || terminates(bytes, n)
    &&& forall|i: int| 0 <= i < n ==> #[trigger] holds_profile(bytes, i)
}

/// The first `n` entries of the directory in `bytes`.
pub open spec fn directory_entries(bytes: Seq<u8>, n: int) -> Seq<ProfileDirectoryEntry> {
    Seq::new(n as nat, |i: int| entry_at(bytes, i))
}

/// Whether `result` is what parsing `bytes` gives: the entries where the
/// directory ends, or an error where it ends nowhere.
pub open spec fn parses_to(
    bytes: Seq<u8>,
    max_entries: int,
    result: Result<Vec<ProfileDirectoryEntry>, Hidpp20Error>,
) -> bool {
    match result {
        Ok(entries) => {
            &&& directory_ends_at(bytes, max_entries, entries.len() as int)
            &&& entries@ == directory_entries(bytes, entries.len() as int)
        },
        Err(e) => {
            &&& e is UnsupportedResponse
            &&& forall|n: int| !#[trigger] directory_ends_at(bytes, max_entries, n)
        },
    }
}

/// Parses profile-directory entries out of accumulated sector bytes.
///
/// Entries are 4 bytes each — `sector` (big-endian `u16`), an enabled byte and
/// a reserved byte — and the directory ends at a [`DIRECTORY_END`] sector or
/// after `max_entries` entries, whichever comes first. Running out of bytes
/// before either bound, or an enabled byte other than `0`/`1`, is an
/// [`UnsupportedResponse`](Hidpp20Error::UnsupportedResponse).
pub fn parse_directory(bytes: &[u8], max_entries: usize) -> (result: Result<
    Vec<ProfileDirectoryEntry>,
    Hidpp20Error,
>)
    ensures
        parses_to(bytes@, max_entries as int, result),
{
    let mut entries: Vec<ProfileDirectoryEntry> = Vec::new();
    let mut offset: usize = 0;
    while entries.len() < max_entries
        invariant
            offset == 4 * entries.len(),
            offset <= bytes.len(),
            entries.len() <= max_entries,
            forall|i: int| 0 <= i < entries.len() ==> #[trigger] holds_profile(bytes@, i),
            entries@ == directory_entries(bytes@, entries.len() as int),
        decreases max_entries - entries.len(),
    {
        let ghost count = entries.len() as int;
        if bytes.len() - offset < DIRECTORY_ENTRY_LEN {
            assert forall|n: int| !#[trigger] directory_ends_at(bytes@, max_entries as int, n) by {
                assert(!holds_profile(bytes@, count));
                if 0 <= n < count {
                    assert(holds_profile(bytes@, n));
                }
            }
            return Err(Hidpp20Error::UnsupportedResponse);
        }
        let sector = be16(bytes, offset);
        if sector == DIRECTORY_END {
            assert(terminates(bytes@, count));
            return Ok(entries);
        }
        let enabled = match bytes[offset + 2] {
            0 => false,
            1 => true,
            _ => {
                assert forall|n: int| !#[trigger] directory_ends_at(
                    bytes@,
                    max_entries as int,
                    n,
                ) by {
                    assert(!holds_profile(bytes@, count));
                    if 0 <= n < count {
                        assert(holds_profile(bytes@, n));
                    }
                }
                return Err(Hidpp20Error::UnsupportedResponse);
            },
        };
        assert(holds_profile(bytes@, count));
        entries.push(ProfileDirectoryEntry { sector, enabled });
        assert(entries@ =~= directory_entries(bytes@, count + 1));
        offset += DIRECTORY_ENTRY_LEN;
    }
    Ok(entries)
}

/// Whether some complete directory entry in `bytes` is the terminator.
pub open spec fn has_terminator(bytes: Seq<u8>) -> bool {
    exists|i: int| #[trigger] terminates(bytes, i)
}

/// Whether any complete directory entry in `bytes` is the terminator.
pub fn contains_terminator(bytes: &[u8]) -> (found: bool)
    ensures
        found == has_terminator(bytes@),
{
    let mut offset: usize = 0;
    let ghost mut count: int = 0;
    while bytes.len() - offset >= DIRECTORY_ENTRY_LEN
        invariant
            offset == 4 * count,
            0 <= count,
            offset <= bytes.len(),
            forall|i: int| 0 <= i < count ==> !#[trigger] terminates(bytes@, i),
        decreases bytes.len() - offset,
    {
        if be16(bytes, offset) == DIRECTORY_END {
            assert(terminates(bytes@, count));
            return true;
        }
        assert(!terminates(bytes@, count));
        offset += DIRECTORY_ENTRY_LEN;
        proof {
            count = count + 1;
        }
    }
    false
}

/// Which device a feature is called on, and under which index it answers.
#[derive(Clone, Copy, Debug, PartialEq, Eq, Structural)]
pub struct FeatureEndpoint {
    /// HID++ index of the device.
    pub device_index: u8,
    /// Index of the feature in the device's feature table.
    pub feature_index: u8,
}

/// The arguments of a feature call.
#[derive(Clone, Copy, Debug, PartialEq, Eq)]
pub enum CallArguments {
    /// The three bytes of a short report.
    Short([u8; 3]),
    /// The sixteen bytes of a long report.
    Long([u8; 16]),
}

impl View for CallArguments {
    type V = Seq<u8>;

    open spec fn view(&self) -> Seq<u8> {
        match *self {
            CallArguments::Short(bytes) => bytes@,
            CallArguments::Long(bytes) => bytes@,
        }
    }
}

/// One call of a feature function.
#[derive(Clone, Copy, Debug, PartialEq, Eq)]
pub struct FeatureCall {
    /// Whom to call.
    pub endpoint: FeatureEndpoint,
    /// Number of the function.
    pub function: u8,
    /// Its arguments.
    pub arguments: CallArguments,
}

impl FeatureCall {
    /// Whether this is a short call of `function` with `arguments`.
    pub open spec fn is_short(
        self,
        endpoint: FeatureEndpoint,
        function: u8,
        arguments: Seq<u8>,
    ) -> bool {
        &&& self.endpoint == endpoint
        &&& self.function == function
        &&& self.arguments is Short
        &&& self.arguments@ == arguments
    }

    /// Whether this is a long call of `function` with `arguments`.
    pub open spec fn is_long(
        self,
        endpoint: FeatureEndpoint,
        function: u8,
        arguments: Seq<u8>,
    ) -> bool {
        &&& self.endpoint == endpoint
        &&& self.function == function
        &&& self.arguments is Long
        &&& self.arguments@ == arguments
    }
}

/// The `OnboardProfiles` / `0x8100` feature of one device.
#[derive(Clone, Copy, Debug, PartialEq, Eq)]
pub struct OnboardProfilesFeature {
    /// The endpoint this feature talks to.
    pub endpoint: FeatureEndpoint,
}

impl OnboardProfilesFeature {
    fn short_call(&self, function: u8, a: u8, b: u8, c: u8) -> (call: FeatureCall)
        ensures
            call.is_short(self.endpoint, function, seq![a, b, c]),
    {
        let bytes: [u8; 3] = [a, b, c];
        assert(bytes@ =~= seq![a, b, c]);
        FeatureCall { endpoint: self.endpoint, function, arguments: CallArguments::Short(bytes) }
    }

    /// The call that asks for the description of the device's profile memory.
    pub fn get_description_call(&self) -> (call: FeatureCall)
        ensures
            call.is_short(self.endpoint, 0, seq![0, 0, 0]),
    {
        self.short_call(0, 0, 0, 0)
    }

    /// Decodes the reply to [`Self::get_description_call`].
    pub fn get_description(&self, payload: &[u8; 16]) -> (description: ProfilesDescription)
        ensures
            description == ProfilesDescription::of_payload(payload@),
    {
        ProfilesDescription::from_payload(payload)
    }

    /// The call that sets whether the device applies its onboard profile or
    /// host settings. Its reply holds nothing.
    pub fn set_onboard_mode(&self, mode: OnboardMode) -> (call: FeatureCall)
        ensures
            call.is_short(self.endpoint, 1, seq![mode.wire(), 0, 0]),
    {
        self.short_call(1, mode.to_byte(), 0, 0)
    }

    /// The call that asks whether the device applies its onboard profile or
    /// host settings.
    pub fn get_onboard_mode_call(&self) -> (call: FeatureCall)
        ensures
            call.is_short(self.endpoint, 2, seq![0, 0, 0]),
    {
        self.short_call(2, 0, 0, 0)
    }

    /// Decodes the reply to [`Self::get_onboard_mode_call`].
    pub fn get_onboard_mode(&self, payload: &[u8; 16]) -> (mode: Result<OnboardMode, Hidpp20Error>)
        ensures
            match mode {
                Ok(mode) => mode.wire() == payload@[0],
                Err(e) => e is UnsupportedResponse && forall|mode: OnboardMode|
                    #[trigger] mode.wire() != payload@[0],
            },
    {
        match OnboardMode::from_byte(payload[0]) {
            Some(mode) => Ok(mode),
            None => Err(Hidpp20Error::UnsupportedResponse),
        }
    }

    /// The call that sets the active profile by its flash sector. Its reply
    /// holds nothing.
    ///
    /// User profiles live in sectors `0x0001..`; ROM profiles carry
    /// [`ROM_SECTOR_FLAG`]. Only legal in [`OnboardMode::Onboard`]: in host mode
    /// the firmware rejects this with an invalid-argument error.
    pub fn set_current_profile(&self, sector: u16) -> (call: FeatureCall)
        ensures
            call.is_short(self.endpoint, 3, be_bytes(sector).push(0)),
    {
        let call = self.short_call(3, (sector / 256) as u8, (sector % 256) as u8, 0);
        assert(call.arguments@ =~= be_bytes(sector).push(0));
        call
    }

    /// The call that asks for the sector of the active profile.
    pub fn get_current_profile_call(&self) -> (call: FeatureCall)
        ensures
            call.is_short(self.endpoint, 4, seq![0, 0, 0]),
    {
        self.short_call(4, 0, 0, 0)
    }

    /// Decodes the reply to [`Self::get_current_profile_call`].
    ///
    /// Host mode reports `0x0000` because no onboard profile is active.
    pub fn get_current_profile(&self, payload: &[u8; 16]) -> (sector: u16)
        ensures
            sector == be16_at(payload@, 0),
    {
        be16(payload, 0)
    }

    /// The call that reads 16 bytes of flash at `offset` of `sector`. The reply
    /// is those bytes.
    ///
    /// The firmware rejects reads past `sector_size - 16` with an
    /// invalid-argument error, so a full-sector read must fetch the final
    /// partial chunk from `sector_size - 16`.
    pub fn memory_read(&self, sector: u16, offset: u16) -> (call: FeatureCall)
        ensures
            call.is_long(
                self.endpoint,
                5,
                be_bytes(sector) + be_bytes(offset) + Seq::new(12, |i: int| 0u8),
            ),
    {
        let bytes: [u8; 16] = [
            (sector / 256) as u8,
            (sector % 256) as u8,
            (offset / 256) as u8,
            (offset % 256) as u8,
            0,
            0,
            0,
            0,
            0,
            0,
            0,
            0,
            0,
            0,
            0,
            0,
        ];
        assert(bytes@ =~= be_bytes(sector) + be_bytes(offset) + Seq::new(12, |i: int| 0u8));
        FeatureCall { endpoint: self.endpoint, function: 5, arguments: CallArguments::Long(bytes) }
    }

    /// Starts reading the profile directory from sector [`DIRECTORY_SECTOR`].
    ///
    /// Both user and out-of-box counts of the description bound the number of
    /// entries; reading stops early at the directory terminator.
    pub fn read_profile_directory(&self, description: &ProfilesDescription) -> (read: DirectoryRead)
        ensures
            read.wf(),
            read@ == Seq::<u8>::empty(),
            read.max_entries() == description.profile_total(),
    {
        DirectoryRead { max_entries: description.total_profile_count(), bytes: Vec::new() }
    }
}

/// Bytes that hold `max_entries` directory entries and a terminator.
pub open spec fn directory_room(max_entries: int) -> int {
    4 * (max_entries + 1)
}

/// Whether `bytes` are enough to tell what the directory holds.
pub open spec fn directory_read(bytes: Seq<u8>, max_entries: int) -> bool {
    bytes.len() >= directory_room(max_entries) || has_terminator(bytes)
}

/// A profile directory that is being read, 16 bytes at a time.
pub struct DirectoryRead {
    max_entries: usize,
    bytes: Vec<u8>,
}

/// What a [`DirectoryRead`] needs next.
pub enum DirectoryStep {
    /// 16 bytes of flash at `offset` of `sector`.
    Read {
        /// Flash sector to read.
        sector: u16,
        /// Offset in the sector.
        offset: u16,
    },
    /// Nothing: the directory is read, and this is what it holds.
    Done(Result<Vec<ProfileDirectoryEntry>, Hidpp20Error>),
}

impl View for DirectoryRead {
    type V = Seq<u8>;

    /// The bytes read so far.
    closed spec fn view(&self) -> Seq<u8> {
        self.bytes@
    }
}

impl DirectoryRead {
    /// The most entries that the directory can have.
    pub closed spec fn max_entries(&self) -> int {
        self.max_entries as int
    }

    /// Whole chunks were read, and none that was not needed.
    pub closed spec fn wf(&self) -> bool {
        &&& self.max_entries <= 510
        &&& self.bytes.len() % 16 == 0
        &&& self.bytes.len() < directory_room(self.max_entries as int) + 16
    }

    /// What is needed next.
    pub fn next(&self) -> (step: DirectoryStep)
        requires
            self.wf(),
        ensures
            match step {
                DirectoryStep::Read { sector, offset } => {
                    &&& !directory_read(self@, self.max_entries())
                    &&& sector == DIRECTORY_SECTOR
                    &&& offset == self@.len()
                },
                DirectoryStep::Done(result) => {
                    &&& directory_read(self@, self.max_entries())
                    &&& parses_to(self@, self.max_entries(), result)
                },
            },
    {
        // Room for every entry plus the terminator entry.
        let needed: usize = (self.max_entries + 1) * DIRECTORY_ENTRY_LEN;
        if self.bytes.len() < needed && !contains_terminator(self.bytes.as_slice()) {
            DirectoryStep::Read { sector: DIRECTORY_SECTOR, offset: self.bytes.len() as u16 }
        } else {
            DirectoryStep::Done(parse_directory(self.bytes.as_slice(), self.max_entries))
        }
    }

    /// Takes the bytes that [`Self::next`] asked for.
    pub fn accept(&mut self, chunk: &[u8; 16])
        requires
            old(self).wf(),
            !directory_read(old(self)@, old(self).max_entries()),
        ensures
            final(self).wf(),
            final(self)@ == old(self)@ + chunk@,
            final(self).max_entries() == old(self).max_entries(),
    {
        let mut i: usize = 0;
        let ghost before = self.bytes@;
        while i < MEMORY_READ_LEN
            invariant
                i <= MEMORY_READ_LEN,
                self.max_entries == old(self).max_entries,
                self.bytes@ == before + chunk@.take(i as int),
            decreases MEMORY_READ_LEN - i,
        {
            self.bytes.push(chunk[i]);
            i += 1;
            assert(self.bytes@ =~= before + chunk@.take(i as int));
        }
        assert(chunk@.take(16) =~= chunk@);
    }
}

/// A directory is read in whole chunks, and no chunk is read that starts past
/// the room for every entry and the terminator.
pub proof fn directory_read_is_bounded(read: DirectoryRead)
    requires
        read.wf(),
    ensures
        read@.len() % 16 == 0,
        read@.len() < directory_room(read.max_entries()) + 16,
{
}

/// The bytes of one directory entry, its reserved byte last.
pub open spec fn entry_bytes(entry: ProfileDirectoryEntry, reserved: u8) -> Seq<u8> {
    be_bytes(entry.sector) + seq![
        if entry.enabled {
            1u8
        } else {
            0u8
        },
        reserved,
    ]
}

/// Whether `bytes` hold `entries`, one after the other from the start.
pub open spec fn lays_out(bytes: Seq<u8>, entries: Seq<ProfileDirectoryEntry>) -> bool {
    forall|i: int|
        0 <= i < entries.len() ==> complete(bytes, i) && #[trigger] bytes.subrange(
            4 * i,
            4 * i + 4,
        ) == entry_bytes(entries[i], bytes[4 * i + 3])
}

/// A directory that is laid out in flash reads back as it was laid out: bytes
/// that hold `entries`, followed by a terminator unless there can be no more,
/// parse to `entries`, whatever the reserved bytes and whatever comes after.
pub proof fn directory_reads_back(
    bytes: Seq<u8>,
    entries: Seq<ProfileDirectoryEntry>,
    max_entries: int,
)
    requires
        entries.len() <= max_entries,
        lays_out(bytes, entries),
        forall|i: int| 0 <= i < entries.len() ==> (#[trigger] entries[i]).sector != DIRECTORY_END,
        entries.len() < max_entries ==> terminates(bytes, entries.len() as int),
    ensures
        directory_ends_at(bytes, max_entries, entries.len() as int),
        directory_entries(bytes, entries.len() as int) == entries,
{
    assert forall|i: int| 0 <= i < entries.len() implies #[trigger] holds_profile(bytes, i)
        && entry_at(bytes, i) == entries[i] by {
        let four = bytes.subrange(4 * i, 4 * i + 4);
        assert(four == entry_bytes(entries[i], bytes[4 * i + 3]));
        assert(four[0] == bytes[4 * i] && four[1] == bytes[4 * i + 1] && four[2] == bytes[4 * i
            + 2]);
        be_bytes_read_back(entries[i].sector);
        assert(be_bytes(entries[i].sector)[0] == four[0]);
        assert(be_bytes(entries[i].sector)[1] == four[1]);
    }
    assert forall|i: int| 0 <= i < entries.len() implies #[trigger] directory_entries(
        bytes,
        entries.len() as int,
    )[i] == entries[i] by {
        assert(holds_profile(bytes, i));
    }
    assert(directory_entries(bytes, entries.len() as int) =~= entries);
}

/// A directory ends in one place only.
pub proof fn directory_end_is_unique(bytes: Seq<u8>, max_entries: int, n: int, m: int)
    requires
        directory_ends_at(bytes, max_entries, n),
        directory_ends_at(bytes, max_entries, m),
    ensures
        n == m,
{
    if n < m {
        assert(holds_profile(bytes, n));
    }
    if m < n {
        assert(holds_profile(bytes, m));
    }
}

/// Stopping early changes nothing: once enough bytes are read, the directory
/// they hold is the one that all of the flash holds.
pub proof fn reading_on_changes_nothing(flash: Seq<u8>, read: int, max_entries: int, n: int)
    requires
        0 <= read <= flash.len(),
        0 <= max_entries,
        directory_read(flash.take(read), max_entries),
    ensures
        directory_ends_at(flash.take(read), max_entries, n) == directory_ends_at(
            flash,
            max_entries,
            n,
        ),
        directory_ends_at(flash, max_entries, n) ==> directory_entries(flash.take(read), n)
            == directory_entries(flash, n),
{
    let bytes = flash.take(read);
    assert forall|i: int| complete(bytes, i) implies #[trigger] sector_at(bytes, i) == sector_at(
        flash,
        i,
    ) && bytes[4 * i + 2] == flash[4 * i + 2] by {
        assert(bytes[4 * i] == flash[4 * i] && bytes[4 * i + 1] == flash[4 * i + 1]);
    }
    assert forall|i: int| complete(bytes, i) implies #[trigger] holds_profile(bytes, i)
        == holds_profile(flash, i) && terminates(bytes, i) == terminates(flash, i) by {
        assert(sector_at(bytes, i) == sector_at(flash, i));
    }
    if directory_ends_at(bytes, max_entries, n) {
        assert forall|i: int| 0 <= i < n implies #[trigger] holds_profile(flash, i) by {
            assert(holds_profile(bytes, i));
        }
        if n < max_entries {
            assert(holds_profile(bytes, n) == holds_profile(flash, n));
        }
    }
    if directory_ends_at(flash, max_entries, n) {
        // Everything that decides the end of the directory was read.
        assert forall|i: int| 0 <= i < n implies complete(bytes, i) by {
            if bytes.len() < directory_room(max_entries) {
                let t = choose|t: int| #[trigger] terminates(bytes, t);
                assert(holds_profile(bytes, t) == holds_profile(flash, t));
                if t < n {
                    assert(holds_profile(flash, t));
                }
            }
        }
        assert forall|i: int| 0 <= i < n implies #[trigger] holds_profile(bytes, i) by {
            assert(complete(bytes, i));
            assert(holds_profile(flash, i));
        }
        if n < max_entries {
            if bytes.len() < directory_room(max_entries) {
                let t = choose|t: int| #[trigger] terminates(bytes, t);
                assert(holds_profile(bytes, t) == holds_profile(flash, t));
                if t < n {
                    assert(holds_profile(flash, t));
                }
            }
            assert(complete(bytes, n));
            assert(holds_profile(bytes, n) == holds_profile(flash, n));
        }
        assert forall|i: int| 0 <= i < n implies #[trigger] entry_at(bytes, i) == entry_at(
            flash,
            i,
        ) by {
            assert(complete(bytes, i));
            assert(sector_at(bytes, i) == sector_at(flash, i));
        }
        assert(directory_entries(bytes, n) =~= directory_entries(flash, n));
    }
}

/// Once enough bytes are read, parsing fails for one reason only: an entry
/// before the end has an enabled byte other than `0` and `1`. In particular it
/// never fails for want of bytes.
pub proof fn only_a_bad_enabled_byte_fails(bytes: Seq<u8>, max_entries: int)
    requires
        0 <= max_entries,
        directory_read(bytes, max_entries),
    ensures
        (forall|n: int| !#[trigger] directory_ends_at(bytes, max_entries, n)) <==> (exists|i: int|
            #![trigger bad_enabled_byte(bytes, i)]
            0 <= i < max_entries && bad_enabled_byte(bytes, i)),
{
    if exists|i: int|
        #![trigger bad_enabled_byte(bytes, i)]
        0 <= i < max_entries && bad_enabled_byte(bytes, i) {
        let i = choose|i: int|
            #![trigger bad_enabled_byte(bytes, i)]
            0 <= i < max_entries && bad_enabled_byte(bytes, i);
        assert forall|n: int| !#[trigger] directory_ends_at(bytes, max_entries, n) by {
            if directory_ends_at(bytes, max_entries, n) {
                assert(!holds_profile(bytes, i));
                if n < i {
                    assert(holds_profile(bytes, n));
                }
            }
        }
    } else {
        lemma_directory_end_exists(bytes, max_entries, 0);
    }
}

/// Whether entry `i` is complete, its enabled byte is neither `0` nor `1`, and
/// the directory does not end before it.
pub open spec fn bad_enabled_byte(bytes: Seq<u8>, i: int) -> bool {
    &&& complete(bytes, i)
    &&& sector_at(bytes, i) != DIRECTORY_END
    &&& bytes[4 * i + 2] > 1
    &&& forall|j: int| 0 <= j < i ==> #[trigger] holds_profile(bytes, j)
}

proof fn lemma_directory_end_exists(bytes: Seq<u8>, max_entries: int, n: int)
    requires
        0 <= n <= max_entries,
        directory_read(bytes, max_entries),
        forall|i: int| 0 <= i < n ==> #[trigger] holds_profile(bytes, i),
        forall|i: int|
            #![trigger bad_enabled_byte(bytes, i)]
            0 <= i < max_entries ==> !bad_enabled_byte(bytes, i),
    ensures
        exists|m: int| #[trigger] directory_ends_at(bytes, max_entries, m),
    decreases max_entries - n,
{
    if n == max_entries || terminates(bytes, n) {
        assert(directory_ends_at(bytes, max_entries, n));
    } else {
        if bytes.len() < directory_room(max_entries) {
            let t = choose|t: int| #[trigger] terminates(bytes, t);
            if t < n {
                assert(holds_profile(bytes, t));
            }
        }
        assert(!bad_enabled_byte(bytes, n));
        assert(holds_profile(bytes, n));
        lemma_directory_end_exists(bytes, max_entries, n + 1);
    }
}

/// Modes round-trip through firmware modes, firmware modes through modes, and the
/// bytes on the wire tell the modes apart.
pub proof fn firmware_mode_round_trips(mode: ProfilesMode, other: ProfilesMode, firmware: OnboardMode)
    ensures
        profiles_mode(firmware_mode(mode)) == mode,
        firmware_mode(profiles_mode(firmware)) == firmware,
        firmware_mode(mode).wire() == firmware_mode(other).wire() ==> mode == other,
{
}

/// Numbers are two bytes, the high one first, and modes are the bytes one and two.
pub proof fn numbers_and_modes_on_the_wire(bytes: Seq<u8>, offset: int, n: u16)
    requires
        0 <= offset,
        offset + 1 < bytes.len(),
    ensures
        be16_at(bytes, offset) == 256 * bytes[offset] + bytes[offset + 1],
        be_bytes(n).len() == 2,
        256 * be_bytes(n)[0] + be_bytes(n)[1] == n,
        OnboardMode::Onboard.wire() == 1,
        OnboardMode::Host.wire() == 2,
        profiles_mode(OnboardMode::Onboard) == ProfilesMode::Onboard,
        profiles_mode(OnboardMode::Host) == ProfilesMode::Host,
{
}

/// Each field of a description stands at its own place of the payload.
pub proof fn description_fields_stand_at_their_places(
    payload: Seq<u8>,
    description: ProfilesDescription,
)
    requires
        payload.len() == 16,
        description == ProfilesDescription::of_payload(payload),
    ensures
        description.memory_model_id == payload[0],
        description.profile_format_id == payload[1],
        description.macro_format_id == payload[2],
        description.profile_count == payload[3],
        description.profile_count_oob == payload[4],
        description.button_count == payload[5],
        description.sector_count == payload[6],
        description.sector_size == 256 * payload[7] + payload[8],
        description.mechanical_layout == payload[9],
        description.various_info == payload[10],
        description.profile_total() == payload[3] + payload[4],
{
}

/// A parsed directory is what its bytes say: entry `i` has its sector in the first two
/// bytes of four and its enabled flag in the third, no sector is `0xffff`, and the
/// directory is full or ends at such a sector.
pub proof fn parsed_directory_is_what_the_bytes_say(
    bytes: Seq<u8>,
    max_entries: int,
    entries: Vec<ProfileDirectoryEntry>,
    i: int,
)
    requires
        parses_to(bytes, max_entries, Ok(entries)),
        0 <= max_entries,
    ensures
        entries.len() <= max_entries,
        4 * entries.len() <= bytes.len(),
        0 <= i < entries.len() ==> {
            &&& entries@[i].sector == 256 * bytes[4 * i] + bytes[4 * i + 1]
            &&& entries@[i].sector != 0xffff
            &&& bytes[4 * i + 2] == (if entries@[i].enabled {
                1u8
            } else {
                0u8
            })
        },
        entries.len() < max_entries ==> {
            &&& 4 * entries.len() + 4 <= bytes.len()
            &&& bytes[4 * entries.len()] == 0xff
            &&& bytes[4 * entries.len() + 1] == 0xff
        },
{
    let n = entries.len() as int;
    if n > 0 {
        assert(holds_profile(bytes, n - 1));
    }
    if 0 <= i < n {
        assert(holds_profile(bytes, i));
        assert(entries@[i] == entry_at(bytes, i));
    }
}

/// A directory is refused for one of two reasons: its bytes run out before it ends, or
/// the first entry that is not well formed has an enabled byte that is neither zero
/// nor one.
pub proof fn refused_directory_is_short_or_malformed(
    bytes: Seq<u8>,
    max_entries: int,
    error: Hidpp20Error,
)
    requires
        parses_to(bytes, max_entries, Err(error)),
        0 <= max_entries,
    ensures
        error is UnsupportedResponse,
        exists|n: int| #[trigger] refused_at(bytes, max_entries, n),
{
    lemma_refused_from(bytes, max_entries, 0);
}

/// Whether a directory goes well up to entry `n` and not beyond it, for want of bytes
/// or because of the enabled byte of that entry.
pub open spec fn refused_at(bytes: Seq<u8>, max_entries: int, n: int) -> bool {
    &&& 0 <= n < max_entries
    &&& 4 * n <= bytes.len()
    &&& forall|i: int|
        0 <= i < n ==> !((#[trigger] bytes[4 * i]) == 0xff && bytes[4 * i + 1] == 0xff) && bytes[4
            * i + 2] <= 1
    &&& bytes.len() < 4 * n + 4 || (!(bytes[4 * n] == 0xff && bytes[4 * n + 1] == 0xff) && bytes[4
        * n + 2] > 1)
}

proof fn lemma_refused_from(bytes: Seq<u8>, max_entries: int, n: int)
    requires
        0 <= n <= max_entries,
        forall|i: int| 0 <= i < n ==> #[trigger] holds_profile(bytes, i),
        forall|m: int| !#[trigger] directory_ends_at(bytes, max_entries, m),
    ensures
        exists|m: int| #[trigger] refused_at(bytes, max_entries, m),
    decreases max_entries - n,
{
    assert(!directory_ends_at(bytes, max_entries, n));
    if n > 0 {
        assert(holds_profile(bytes, n - 1));
    }
    if holds_profile(bytes, n) {
        lemma_refused_from(bytes, max_entries, n + 1);
    } else {
        assert forall|i: int| 0 <= i < n implies !((#[trigger] bytes[4 * i]) == 0xff && bytes[4 * i
            + 1] == 0xff) && bytes[4 * i + 2] <= 1 by {
            assert(holds_profile(bytes, i));
        }
        assert(refused_at(bytes, max_entries, n));
    }
}

/// Reading goes on until there is room for every entry and a terminator, or until a
/// whole entry with the sector `0xffff` was read.
pub proof fn reading_stops_at_the_room_or_the_terminator(bytes: Seq<u8>, max_entries: int, i: int)
    ensures
        directory_read(bytes, max_entries) <==> (bytes.len() >= 4 * max_entries + 4
            || has_terminator(bytes)),
        0 <= i && 4 * i + 4 <= bytes.len() && bytes[4 * i] == 0xff && bytes[4 * i + 1] == 0xff
            ==> has_terminator(bytes),
        has_terminator(bytes) ==> exists|t: int|
            0 <= t && 4 * t + 4 <= bytes.len() && (#[trigger] bytes[4 * t]) == 0xff && bytes[4 * t
                + 1] == 0xff,
{
    if 0 <= i && 4 * i + 4 <= bytes.len() && bytes[4 * i] == 0xff && bytes[4 * i + 1] == 0xff {
        assert(terminates(bytes, i));
    }
    if has_terminator(bytes) {
        let t = choose|t: int| #[trigger] terminates(bytes, t);
        assert(bytes[4 * t] == 0xff && bytes[4 * t + 1] == 0xff);
    }
}

/// A call carries its function and its arguments to the endpoint it was made for, in
/// a report of the size it was made for.
pub proof fn calls_carry_their_arguments(
    call: FeatureCall,
    endpoint: FeatureEndpoint,
    function: u8,
    arguments: Seq<u8>,
)
    ensures
        call.is_short(endpoint, function, arguments) ==> {
            &&& call.endpoint == endpoint
            &&& call.function == function
            &&& call.arguments matches CallArguments::Short(bytes)
            &&& bytes@ == arguments
        },
        call.is_long(endpoint, function, arguments) ==> {
            &&& call.endpoint == endpoint
            &&& call.function == function
            &&& call.arguments matches CallArguments::Long(bytes)
            &&& bytes@ == arguments
        },
{
}

/// The directory is in the sector that no profile can be in, its entries are four bytes
/// long, and so a read of flash returns four of them. A sector is a ROM one exactly if
/// it carries the flag.
pub proof fn flash_is_laid_out_in_sectors(sector: u16, entries: int)
    ensures
        DIRECTORY_SECTOR == 0,
        DIRECTORY_ENTRY_LEN == 4,
        MEMORY_READ_LEN == 16,
        DIRECTORY_END == 0xffff,
        FEATURE_ID == 0x8100,
        directory_room(entries) == DIRECTORY_ENTRY_LEN * entries + DIRECTORY_ENTRY_LEN,
        crate::profiles::rom_sector(sector) <==> sector & ROM_SECTOR_FLAG != 0,
        ROM_SECTOR_FLAG == 0x0100,
{
    assert((sector & 0x0100 != 0) == ((sector / 0x0100) % 2 == 1)) by (bit_vector);
}

} // verus!
