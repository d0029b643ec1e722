//! Onboard-profile controls for devices with HID++ feature `0x8100`.
//!
//! The panel selects whether the host or onboard memory drives the device and,
//! in onboard mode, which writable profile is active. Reads are lazy and every
//! write is followed by a confirming read so rejected changes do not remain as
//! optimistic state.

use vstd::prelude::*;

use crate::device;
use crate::device::{DeviceKey, DeviceRoute};
use crate::device_read::{device_read_step, ReadEvent, ReadStep};
use crate::error::WriteError;
use crate::load::Load;
use crate::profiles;
use crate::profiles::{OnboardProfilesInfo, ProfileEntry, ProfilesMode};
use crate::state::{AppState, ProfilesLoad};

verus! {

/// The entries of a directory with their positions.
pub open spec fn positions(directory: Seq<ProfileEntry>) -> Seq<(usize, ProfileEntry)> {
    Seq::new(directory.len(), |i: int| (i as usize, directory[i]))
}

/// The selectable entries of a directory, in its order, with their positions in
/// it.
pub open spec fn selectable(directory: Seq<ProfileEntry>) -> Seq<(usize, ProfileEntry)> {
    positions(directory).filter(|p: (usize, ProfileEntry)| p.1.selectable())
}

/// Selectable profiles paired with their original directory positions.
pub fn selectable_profiles(info: &OnboardProfilesInfo) -> (found: Vec<(usize, ProfileEntry)>)
    ensures
        found@ == selectable(info.directory@),
{
    let mut found: Vec<(usize, ProfileEntry)> = Vec::new();
    let ghost all = positions(info.directory@);
    let ghost chosen = |p: (usize, ProfileEntry)| p.1.selectable();
    let mut i: usize = 0;
    assert(all.take(0).filter(chosen) =~= Seq::empty()) by {
        reveal(Seq::filter);
    }
    while i < info.directory.len()
        invariant
            i <= info.directory.len(),
            all == positions(info.directory@),
            chosen == (|p: (usize, ProfileEntry)| p.1.selectable()),
            found@ == all.take(i as int).filter(chosen),
        decreases info.directory.len() - i,
    {
        let entry = info.directory[i];
        assert(all.take(i + 1).drop_last() =~= all.take(i as int));
        assert(all.take(i + 1).last() == (i, entry));
        reveal(Seq::filter);
        if entry.enabled && !entry.is_rom() {
            found.push((i, entry));
        }
        i += 1;
    }
    assert(all.take(i as int) =~= all);
    found
}

/// Every entry that is offered for selection is enabled, is no ROM profile, and
/// keeps its position in the directory.
pub proof fn offered_profiles_are_selectable(directory: Seq<ProfileEntry>, i: int)
    requires
        directory.len() <= usize::MAX,
        0 <= i < selectable(directory).len(),
    ensures
        ({
            let (position, entry) = selectable(directory)[i];
            &&& position < directory.len()
            &&& entry == directory[position as int]
            &&& entry.enabled
            &&& !profiles::rom_sector(entry.sector)
        }),
{
    let all = positions(directory);
    let chosen = |p: (usize, ProfileEntry)| p.1.selectable();
    all.lemma_filter_pred(chosen, i);
    all.lemma_filter_contains_rev(chosen, selectable(directory)[i]);
    let j = choose|j: int| 0 <= j < all.len() && all[j] == selectable(directory)[i];
    assert(all[j] == (j as usize, directory[j]));
}

/// Every selectable entry is offered.
pub proof fn selectable_profiles_are_offered(directory: Seq<ProfileEntry>, position: int)
    requires
        0 <= position < directory.len(),
        directory[position].selectable(),
    ensures
        selectable(directory).contains((position as usize, directory[position])),
{
    let chosen = |p: (usize, ProfileEntry)| p.1.selectable();
    positions(directory).lemma_filter_contains(chosen, position);
}

/// Whether entry `i` is the first selectable one of `directory`.
pub open spec fn first_selectable(directory: Seq<ProfileEntry>, i: int) -> bool {
    &&& 0 <= i < directory.len()
    &&& directory[i].selectable()
    &&& forall|j: int| 0 <= j < i ==> !(#[trigger] directory[j]).selectable()
}

/// Whether some selectable entry of `directory` is in `sector`.
pub open spec fn sector_selectable(directory: Seq<ProfileEntry>, sector: u16) -> bool {
    exists|i: int|
        0 <= i < directory.len() && (#[trigger] directory[i]).selectable() && directory[i].sector
            == sector
}

/// Whether `kept` is the profile that a change to onboard mode keeps: the active
/// one if it can be selected, else the first that can.
pub open spec fn keeps(info: profiles::ProfilesInfoView, kept: Option<u16>) -> bool {
    if sector_selectable(info.directory, info.active_profile) {
        kept == Some(info.active_profile)
    } else {
        match kept {
            Some(sector) => exists|i: int|
                #[trigger] first_selectable(info.directory, i) && info.directory[i].sector
                    == sector,
            None => forall|i: int|
                0 <= i < info.directory.len() ==> !(#[trigger] info.directory[i]).selectable(),
        }
    }
}

/// Keep the active writable profile, or fall back to the first enabled one.
/// ROM sectors are excluded because firmware rejects them as active profiles.
pub fn keep_profile_for(info: &OnboardProfilesInfo) -> (kept: Option<u16>)
    ensures
        keeps(info@, kept),
{
    let mut first: Option<u16> = None;
    let ghost mut first_at: int = 0;
    let mut i: usize = 0;
    while i < info.directory.len()
        invariant
            i <= info.directory.len(),
            forall|j: int|
                0 <= j < i ==> !((#[trigger] info.directory@[j]).selectable()
                    && info.directory@[j].sector == info.active_profile),
            match first {
                Some(sector) => first_selectable(info.directory@, first_at)
                    && info.directory@[first_at].sector == sector,
                None => forall|j: int|
                    0 <= j < i ==> !(#[trigger] info.directory@[j]).selectable(),
            },
        decreases info.directory.len() - i,
    {
        let entry = info.directory[i];
        if entry.enabled && !entry.is_rom() {
            if entry.sector == info.active_profile {
                assert(info.directory@[i as int].selectable());
                return Some(info.active_profile);
            }
            if first.is_none() {
                first = Some(entry.sector);
                proof {
                    first_at = i as int;
                }
            }
        }
        i += 1;
    }
    first
}

/// The kept profile is never a ROM profile.
pub proof fn kept_profile_is_never_rom(info: profiles::ProfilesInfoView, kept: u16)
    requires
        keeps(info, Some(kept)),
    ensures
        !profiles::rom_sector(kept),
        sector_selectable(info.directory, kept),
{
    if !sector_selectable(info.directory, info.active_profile) {
        let i = choose|i: int|
            #[trigger] first_selectable(info.directory, i) && info.directory[i].sector == kept;
        assert(info.directory[i].selectable());
    }
}

/// One button of the profile row.
#[derive(Debug, Clone, Copy, PartialEq, Eq, Structural)]
pub struct ProfileChoice {
    /// Number shown on the button: the position in the directory, from one.
    pub number: usize,
    /// Sector that the button activates.
    pub sector: u16,
    /// Whether the profile is the active one.
    pub selected: bool,
}

/// What the panel shows of a device whose state is known.
#[derive(Debug, PartialEq, Eq)]
pub struct ReadyBody {
    /// Whether onboard memory drives the device. The button for it is selected,
    /// else the one for the host.
    pub onboard: bool,
    /// The profile that the button for onboard memory keeps.
    pub keep_profile: Option<u16>,
    /// The profile row, which is shown in onboard mode only.
    pub profiles: Vec<ProfileChoice>,
}

/// Whether `body` shows `info`.
pub open spec fn body_shows(body: ReadyBody, info: profiles::ProfilesInfoView) -> bool {
    &&& body.onboard == (info.mode == ProfilesMode::Onboard)
    &&& keeps(info, body.keep_profile)
    &&& if body.onboard {
        &&& body.profiles.len() == selectable(info.directory).len()
        &&& forall|i: int|
            0 <= i < body.profiles.len() ==> {
                let (position, entry) = selectable(info.directory)[i];
                #[trigger] body.profiles[i] == (ProfileChoice {
                    number: (position + 1) as usize,
                    sector: entry.sector,
                    selected: entry.sector == info.active_profile,
                })
            }
    } else {
        body.profiles.len() == 0
    }
}

/// What the panel shows of a device whose state is `info`.
pub fn ready_body(info: &OnboardProfilesInfo) -> (body: ReadyBody)
    ensures
        body_shows(body, info@),
        forall|i: int|
            0 <= i < body.profiles.len() ==> ((#[trigger] body.profiles@[i]).selected
                <==> body.profiles@[i].sector == info.active_profile),
{
    let onboard = info.mode == ProfilesMode::Onboard;
    let keep_profile = keep_profile_for(info);
    let mut profiles: Vec<ProfileChoice> = Vec::new();
    if onboard {
        let found = selectable_profiles(info);
        let mut i: usize = 0;
        while i < found.len()
            invariant
                i <= found.len(),
                found@ == selectable(info.directory@),
                profiles.len() == i,
                forall|j: int|
                    0 <= j < i ==> {
                        let (position, entry) = selectable(info.directory@)[j];
                        #[trigger] profiles@[j] == (ProfileChoice {
                            number: (position + 1) as usize,
                            sector: entry.sector,
                            selected: entry.sector == info.active_profile,
                        })
                    },
            decreases found.len() - i,
        {
            let (position, entry) = found[i];
            proof {
                assert(info.directory.len() <= usize::MAX);
                offered_profiles_are_selectable(info.directory@, i as int);
            }
            profiles.push(
                ProfileChoice {
                    number: position + 1,
                    sector: entry.sector,
                    selected: entry.sector == info.active_profile,
                },
            );
            i += 1;
        }
    }
    ReadyBody { onboard, keep_profile, profiles }
}

/// What the panel shows.
pub enum ProfilesContent {
    /// The controls.
    Ready(ReadyBody),
    /// The device is offline; its profiles are unavailable.
    Offline,
    /// The profiles are being read.
    Reading,
    /// The read failed; a click retries it for the device.
    Retry(DeviceKey),
    /// The device has no onboard profile memory.
    NoMemory,
}

/// Which read of onboard profiles ended.
#[derive(Debug, Clone, Copy, PartialEq, Eq, Structural)]
pub enum ProfilesRead {
    /// The first one of a device, which shows a loading marker.
    Initial,
    /// The one that confirms a write and leaves the optimistic value on screen.
    Confirm,
}

impl AppState {
    /// Whether the active device can be reached.
    pub open spec fn reachable(&self) -> bool {
        self.current() is Some && self.current()->0.route is Some
    }

    /// The load state of the active device's onboard profiles, if one is recorded.
    pub open spec fn recorded_profiles(&self) -> Option<ProfilesLoad> {
        match self.current() {
            Some(record) if self.reads.profiles@.by_device.contains_key(record.key@) => Some(
                self.reads.profiles@.by_device[record.key@],
            ),
            _ => None,
        }
    }

    /// The active device, if its onboard profiles were never read and it can be
    /// reached.
    pub fn profiles_load_target(&self) -> (target: Option<(DeviceKey, DeviceRoute)>)
        requires
            self.wf(),
        ensures
            match target {
                Some((key, route)) => {
                    &&& self.current() matches Some(record)
                    &&& key@ == record.key@
                    &&& device::route_view(record.route) == Some(route@)
                    &&& self.recorded_profiles() is None
                },
                None => !self.reachable() || self.recorded_profiles() is Some,
            },
    {
        match self.current_record() {
            Some(record) => {
                if !self.current_profiles_unqueried() {
                    return None;
                }
                match &record.route {
                    Some(route) => Some((record.device_key(), route.clone())),
                    None => None,
                }
            },
            None => None,
        }
    }

    /// Starts the first read of the active device's onboard profiles, if it is
    /// due: marks the device as loading and says which read to issue.
    pub fn ensure_profiles_load(&mut self) -> (target: Option<(DeviceKey, DeviceRoute)>)
        requires
            old(self).wf(),
        ensures
            final(self).wf(),
            final(self).same_but_profiles(*old(self)),
            match target {
                Some((key, route)) => {
                    &&& old(self).current() matches Some(record)
                    &&& key@ == record.key@
                    &&& device::route_view(record.route) == Some(route@)
                    &&& old(self).recorded_profiles() is None
                    &&& final(self).reads.profiles@ == old(self).reads.profiles@.with(
                        key@,
                        Load::Loading,
                    )
                },
                None => {
                    &&& !old(self).reachable() || old(self).recorded_profiles() is Some
                    &&& *final(self) == *old(self)
                },
            },
    {
        match self.profiles_load_target() {
            Some((key, route)) => {
                self.reads.profiles.mark_loading(&key);
                Some((key, route))
            },
            None => None,
        }
    }

    /// Ends a read of onboard profiles: stores what came, or, for a first read
    /// that brought nothing, drops the loading marker. A confirming read that
    /// brought nothing changes nothing.
    pub fn finish_profiles_read(
        &mut self,
        read: ProfilesRead,
        key: DeviceKey,
        route: &DeviceRoute,
        event: ReadEvent<Result<OnboardProfilesInfo, WriteError>>,
    )
        requires
            old(self).wf(),
        ensures
            final(self).wf(),
            final(self).same_but_profiles(*old(self)),
            match event {
                ReadEvent::Delivered(result) => old(self).reads.profiles@.stores(
                    final(self).reads.profiles@,
                    key@,
                    result,
                    result is Err && result->Err_0 is FeatureUnsupported,
                    old(self).on_route(key@, route@),
                    old(self).listed(key@),
                ),
                _ => final(self).reads.profiles@ == (match read {
                    ProfilesRead::Initial => old(self).reads.profiles@.loading_cleared(key@),
                    ProfilesRead::Confirm => old(self).reads.profiles@,
                }),
            },
    {
        match device_read_step(event) {
            ReadStep::Store(result) => {
                self.store_profiles_info(key, route, result);
            },
            ReadStep::Clear => match read {
                ProfilesRead::Initial => {
                    self.reads.profiles.clear_loading(&key);
                },
                ProfilesRead::Confirm => {},
            },
        }
    }

    /// What the panel shows for the active device.
    pub fn profiles_content(&self) -> (content: ProfilesContent)
        requires
            self.wf(),
        ensures
            match (self.recorded_profiles(), content) {
                (Some(Load::Ready(info)), ProfilesContent::Ready(body)) => body_shows(body, info@),
                (Some(Load::Failed(_)), ProfilesContent::Retry(key)) => self.current() is Some
                    && key@ == self.current()->0.key@,
                (Some(Load::Unsupported(_)), ProfilesContent::NoMemory) => true,
                (Some(Load::Loading), ProfilesContent::Offline) => !self.reachable(),
                (Some(Load::Loading), ProfilesContent::Reading) => self.reachable(),
                (Some(Load::Unknown), ProfilesContent::Offline) => !self.reachable(),
                (Some(Load::Unknown), ProfilesContent::Reading) => self.reachable(),
                (None, ProfilesContent::Offline) => !self.reachable(),
                (None, ProfilesContent::Reading) => self.reachable(),
                _ => false,
            },
    {
        match self.current_record() {
            Some(record) => {
                let key = record.device_key();
                let waiting = if record.route.is_some() {
                    ProfilesContent::Reading
                } else {
                    ProfilesContent::Offline
                };
                match self.reads.profiles.get(&key) {
                    Some(Load::Ready(info)) => ProfilesContent::Ready(ready_body(info)),
                    Some(Load::Failed(_)) => ProfilesContent::Retry(key),
                    Some(Load::Unsupported(_)) => ProfilesContent::NoMemory,
                    Some(Load::Loading) => waiting,
                    Some(Load::Unknown) => waiting,
                    None => waiting,
                }
            },
            None => ProfilesContent::Offline,
        }
    }
}

/// A first read is started once: a device that is marked as loading is no longer
/// due for it.
pub proof fn started_profiles_load_is_not_due(before: AppState, after: AppState)
    requires
        before.current() is Some,
        after.current() == before.current(),
        after.reads.profiles@ == before.reads.profiles@.with(
            before.current()->0.key@,
            Load::Loading,
        ),
    ensures
        after.recorded_profiles() == Some(ProfilesLoad::Loading),
{
}

/// However a first read ends, the device is not left on its loading marker, as
/// long as it is still listed or nothing was delivered.
pub proof fn ended_read_leaves_no_loading_marker(
    before: AppState,
    after: AppState,
    key: Seq<char>,
    route: device::RouteView,
    event: ReadEvent<Result<OnboardProfilesInfo, WriteError>>,
)
    requires
        before.listed(key) || !(event is Delivered),
        match event {
            ReadEvent::Delivered(result) => before.reads.profiles@.stores(
                after.reads.profiles@,
                key,
                result,
                result is Err && result->Err_0 is FeatureUnsupported,
                before.on_route(key, route),
                before.listed(key),
            ),
            _ => after.reads.profiles@ == before.reads.profiles@.loading_cleared(key),
        },
    ensures
        after.reads.profiles@.by_device.contains_key(key) ==> !(
        after.reads.profiles@.by_device[key] is Loading),
{
}

/// Whether `entry` is an enabled profile outside the ROM.
pub open spec fn enabled_user_profile(entry: ProfileEntry) -> bool {
    entry.enabled && entry.sector & 0x0100 == 0
}

/// A button of the profile row is selected exactly if it stands for the active
/// profile that the device reported. It carries the sector and, counted from one, the
/// position of an enabled user profile of the directory.
pub proof fn selected_button_is_the_active_profile(
    info: OnboardProfilesInfo,
    body: ReadyBody,
    i: int,
)
    requires
        body_shows(body, info@),
        0 <= i < body.profiles.len(),
    ensures
        info.mode == ProfilesMode::Onboard,
        body.profiles@[i].selected <==> body.profiles@[i].sector == info.active_profile,
        1 <= body.profiles@[i].number <= info.directory.len(),
        ({
            let entry = info.directory@[body.profiles@[i].number - 1];
            enabled_user_profile(entry) && body.profiles@[i].sector == entry.sector
        }),
{
    assert(info.directory.len() <= usize::MAX);
    offered_profiles_are_selectable(info.directory@, i);
    let (position, entry) = selectable(info.directory@)[i];
    profiles::rom_flag_is_bit_eight(entry);
    assert(body.profiles[i] == body.profiles@[i]);
}

/// No button is selected while the active profile is not offered.
pub proof fn no_button_is_selected_for_another_profile(
    info: OnboardProfilesInfo,
    body: ReadyBody,
    i: int,
)
    requires
        body_shows(body, info@),
        0 <= i < body.profiles.len(),
        forall|p: int|
            0 <= p < info.directory.len() ==> !enabled_user_profile(
                #[trigger] info.directory@[p],
            ) || info.directory@[p].sector != info.active_profile,
    ensures
        !body.profiles@[i].selected,
{
    selected_button_is_the_active_profile(info, body, i);
}

/// The panel says what drives the device. In onboard mode every enabled user profile
/// has its button, in the order of the directory; in host mode there is none.
pub proof fn every_user_profile_has_its_button(
    info: OnboardProfilesInfo,
    body: ReadyBody,
    p: int,
    a: int,
    b: int,
)
    requires
        body_shows(body, info@),
    ensures
        body.onboard <==> info.mode == ProfilesMode::Onboard,
        info.mode == ProfilesMode::Host ==> body.profiles.len() == 0,
        info.mode == ProfilesMode::Onboard && 0 <= p < info.directory.len()
            && enabled_user_profile(info.directory@[p]) ==> exists|i: int|
            0 <= i < body.profiles.len() && (#[trigger] body.profiles@[i]).number == p + 1,
        0 <= a < b < body.profiles.len() ==> body.profiles@[a].number < body.profiles@[b].number,
{
    let directory = info.directory@;
    assert(info.directory.len() <= usize::MAX);
    if info.mode == ProfilesMode::Onboard && 0 <= p < directory.len() && enabled_user_profile(
        directory[p],
    ) {
        profiles::rom_flag_is_bit_eight(directory[p]);
        selectable_profiles_are_offered(directory, p);
        let found = selectable(directory);
        let i = choose|i: int| 0 <= i < found.len() && found[i] == (p as usize, directory[p]);
        assert(body.profiles[i] == body.profiles@[i]);
        assert(body.profiles@[i].number == p + 1);
    }
    if 0 <= a < b < body.profiles.len() {
        lemma_positions_ascend(directory, a, b);
        offered_profiles_are_selectable(directory, a);
        offered_profiles_are_selectable(directory, b);
        assert(body.profiles[a] == body.profiles@[a]);
        assert(body.profiles[b] == body.profiles@[b]);
    }
}

proof fn lemma_positions_ascend(directory: Seq<ProfileEntry>, a: int, b: int)
    requires
        directory.len() <= usize::MAX,
        0 <= a < b < selectable(directory).len(),
    ensures
        selectable(directory)[a].0 < selectable(directory)[b].0,
    decreases directory.len(),
{
    reveal(Seq::filter);
    let chosen = |p: (usize, ProfileEntry)| p.1.selectable();
    let all = positions(directory);
    if directory.len() > 0 {
        let fewer = directory.drop_last();
        assert(all.drop_last() =~= positions(fewer));
        let earlier = selectable(fewer);
        assert(earlier == all.drop_last().filter(chosen));
        assert(all.last() == ((directory.len() - 1) as usize, directory.last()));
        if b < earlier.len() {
            lemma_positions_ascend(fewer, a, b);
        } else {
            offered_profiles_are_selectable(fewer, a);
        }
    }
}

/// The profile that a change to onboard mode keeps is the active one wherever that is
/// an enabled user profile of the directory, else the first one of these, else none.
pub proof fn active_user_profile_is_kept(
    info: OnboardProfilesInfo,
    kept: Option<u16>,
    p: int,
)
    requires
        keeps(info@, kept),
        0 <= p <= info.directory.len(),
        // `p` is the first enabled user profile, or past the end if there is none.
        p < info.directory.len() ==> enabled_user_profile(info.directory@[p]),
        forall|j: int| 0 <= j < p ==> !enabled_user_profile(#[trigger] info.directory@[j]),
    ensures
        kept == (if exists|j: int|
            0 <= j < info.directory.len() && enabled_user_profile(#[trigger] info.directory@[j])
                && info.directory@[j].sector == info.active_profile {
            Some(info.active_profile)
        } else if p < info.directory.len() {
            Some(info.directory@[p].sector)
        } else {
            None
        }),
{
    let directory = info.directory@;
    assert forall|j: int| 0 <= j < directory.len() implies (enabled_user_profile(
        #[trigger] directory[j],
    ) <==> directory[j].selectable()) by {
        profiles::rom_flag_is_bit_eight(directory[j]);
    }
    assert(info@.directory == directory);
    if sector_selectable(directory, info.active_profile) {
        let j = choose|j: int|
            0 <= j < directory.len() && (#[trigger] directory[j]).selectable()
                && directory[j].sector == info.active_profile;
        assert(enabled_user_profile(directory[j]));
    } else {
        assert forall|j: int|
            0 <= j < directory.len() && enabled_user_profile(#[trigger] directory[j]) implies
            directory[j].sector != info.active_profile by {
            assert(directory[j].selectable());
        }
        match kept {
            Some(sector) => {
                let i = choose|i: int|
                    #[trigger] first_selectable(directory, i) && directory[i].sector == sector;
                assert(directory[i].selectable());
                assert(enabled_user_profile(directory[i]));
                if p < i {
                    assert(!directory[p].selectable());
                }
            },
            None => {
                if p < directory.len() {
                    assert(!directory[p].selectable());
                }
            },
        }
    }
}

/// The active device can be reached exactly if it has a route, and what is recorded
/// of it is what its key holds.
pub proof fn active_device_is_reached_by_its_route(state: AppState, record: device::DeviceRecord)
    requires
        state.current() == Some(record),
    ensures
        state.reachable() <==> record.route is Some,
        state.recorded_profiles() is Some <==> state.reads.profiles@.by_device.contains_key(
            record.key@,
        ),
        state.recorded_profiles() is Some ==> state.recorded_profiles()->0
            == state.reads.profiles@.by_device[record.key@],
{
}

} // verus!
