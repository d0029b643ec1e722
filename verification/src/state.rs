//! Application state around device reads: lazy reads, optimistic writes, and
//! reconnect persistence of onboard profiles; the resolution of the active
//! device.

use vstd::prelude::*;

use crate::device;
use crate::device::{DeviceKey, DeviceRecord, DeviceRoute};
use crate::dpi::{Dpi, DpiInfo};
use crate::error::WriteError;
use crate::keyed::KeyedMap;
use crate::load;
use crate::load::{LazyDeviceData, Load};
use crate::profiles::{OnboardProfilesInfo, ProfilesInfoView, ProfilesMode};
use crate::smartshift::SmartShiftStatus;

verus! {

/// Per-device DPI capability load state. See [`Load`].
pub type DpiStatus = Load<DpiInfo>;

/// Per-device SmartShift (`0x2111`) config load state. See [`Load`]. Unlike DPI
/// presets, the resolved config is *not* saved — the device stores it in its own
/// non-volatile memory.
pub type SmartShiftLoad = Load<SmartShiftStatus>;

/// Per-device onboard-profile (`0x8100`) state load. See [`Load`].
pub type ProfilesLoad = Load<OnboardProfilesInfo>;

/// The lazily-loaded read caches.
pub struct DeviceReads {
    /// Resolutions.
    pub dpi: LazyDeviceData<DpiInfo>,
    /// SmartShift configs.
    pub smartshift: LazyDeviceData<SmartShiftStatus>,
    /// Onboard profiles.
    pub profiles: LazyDeviceData<OnboardProfilesInfo>,
}

impl DeviceReads {
    /// The caches are well formed.
    pub open spec fn wf(&self) -> bool {
        self.dpi.wf() && self.smartshift.wf() && self.profiles.wf()
    }
}

impl Default for DeviceReads {
    fn default() -> (reads: Self)
        ensures
            reads.wf(),
            reads.dpi@ == load::LoadState::<DpiInfo>::empty(),
            reads.smartshift@ == load::LoadState::<SmartShiftStatus>::empty(),
            reads.profiles@ == load::LoadState::<OnboardProfilesInfo>::empty(),
    {
        DeviceReads {
            dpi: LazyDeviceData::default(),
            smartshift: LazyDeviceData::default(),
            profiles: LazyDeviceData::default(),
        }
    }
}

/// The saved choice of what drives a device.
#[derive(Debug, Clone, Copy, PartialEq, Eq, Structural)]
pub enum OnboardProfiles {
    /// The host.
    Host,
    /// The onboard memory, with the sector of a profile where one was chosen.
    Onboard {
        /// Sector of the profile.
        profile: Option<u16>,
    },
}

/// The saved settings that this state changes.
pub struct Config {
    onboard_profiles: KeyedMap<OnboardProfiles>,
}

impl View for Config {
    type V = Map<Seq<char>, OnboardProfiles>;

    closed spec fn view(&self) -> Map<Seq<char>, OnboardProfiles> {
        self.onboard_profiles@
    }
}

impl Config {
    /// Every device has one choice.
    pub closed spec fn wf(&self) -> bool {
        self.onboard_profiles.wf()
    }

    /// Settings in which nothing is chosen.
    pub fn new() -> (config: Self)
        ensures
            config.wf(),
            config@ == Map::<Seq<char>, OnboardProfiles>::empty(),
    {
        Config { onboard_profiles: KeyedMap::new() }
    }

    /// The choice for the device that is saved under `key`.
    pub fn onboard_profiles(&self, key: &str) -> (choice: Option<OnboardProfiles>)
        requires
            self.wf(),
        ensures
            choice == (if self@.contains_key(key@) {
                Some(self@[key@])
            } else {
                None
            }),
    {
        match self.onboard_profiles.get(key) {
            Some(choice) => Some(*choice),
            None => None,
        }
    }

    /// Sets or drops the choice for the device that is saved under `key`.
    pub fn set_onboard_profiles(&mut self, key: &str, choice: Option<OnboardProfiles>)
        requires
            old(self).wf(),
        ensures
            final(self).wf(),
            final(self)@ == (match choice {
                Some(choice) => old(self)@.insert(key@, choice),
                None => old(self)@.remove(key@),
            }),
    {
        match choice {
            Some(choice) => {
                self.onboard_profiles.insert(key.to_owned(), choice);
            },
            None => {
                let _ = self.onboard_profiles.remove(key);
            },
        }
    }
}

/// What the interface remembers of one device.
#[derive(Debug, Clone, Copy, PartialEq, Eq, Structural)]
pub struct DeviceUi {
    /// Whether a write of the onboard profiles awaits its confirming read.
    pub profiles_pending_confirm: bool,
}

/// A write that the process which owns the devices performs.
#[derive(Debug, PartialEq, Eq)]
pub enum Command {
    /// Set the mode and, in onboard mode, the profile where one is given.
    SetOnboardProfiles(DeviceRoute, ProfilesMode, Option<u16>),
}

/// A change of the onboard profiles of one device.
#[verifier::ext_equal]
pub struct Change {
    /// Session key of the device.
    pub key: Seq<char>,
    /// Where it is reached, unless it is offline.
    pub route: Option<device::RouteView>,
    /// The mode that is set.
    pub mode: ProfilesMode,
    /// The profile that is set, if any.
    pub profile: Option<u16>,
}

impl Change {
    /// The change of the device `record` to `mode` and `profile`. Host mode names
    /// no profile.
    pub open spec fn of(record: DeviceRecord, mode: ProfilesMode, profile: Option<u16>) -> Self {
        Change {
            key: record.key@,
            route: device::route_view(record.route),
            mode,
            profile: effective_profile(mode, profile),
        }
    }
}

/// A change of onboard profiles whose settings are not saved yet.
pub struct PendingCommit {
    key: DeviceKey,
    route: Option<DeviceRoute>,
    mode: ProfilesMode,
    profile: Option<u16>,
}

impl View for PendingCommit {
    type V = Change;

    closed spec fn view(&self) -> Change {
        Change {
            key: self.key@,
            route: device::route_view(self.route),
            mode: self.mode,
            profile: self.profile,
        }
    }
}

/// How far a change of onboard profiles has come.
pub enum CommitStep {
    /// There is no active device; nothing changed.
    Ignored,
    /// The settings changed and are to be saved; what comes next goes to
    /// [`AppState::resume_commit`].
    Persist(PendingCommit),
    /// Nothing is to be saved; the command, if any, is to be sent.
    Applied(Option<Command>),
}

/// The profile that a change to `mode` sets: none in host mode.
pub open spec fn effective_profile(mode: ProfilesMode, profile: Option<u16>) -> Option<u16> {
    match mode {
        ProfilesMode::Host => None,
        ProfilesMode::Onboard => profile,
    }
}

/// The choice that a change to `mode` saves.
pub open spec fn saved_choice(mode: ProfilesMode, profile: Option<u16>) -> OnboardProfiles {
    match mode {
        ProfilesMode::Host => OnboardProfiles::Host,
        ProfilesMode::Onboard => OnboardProfiles::Onboard { profile },
    }
}

/// The state that is shown for a device right after a change to `mode` and
/// `profile`, until a read confirms it.
pub open spec fn optimistic(
    info: ProfilesInfoView,
    mode: ProfilesMode,
    profile: Option<u16>,
) -> ProfilesInfoView {
    ProfilesInfoView {
        mode,
        active_profile: match (mode, profile) {
            (ProfilesMode::Host, _) => 0,
            (ProfilesMode::Onboard, Some(sector)) => sector,
            (ProfilesMode::Onboard, None) => info.active_profile,
        },
        ..info
    }
}

/// Whether `command` is what is sent for `change`: one command for a device that
/// has a route, none for one that is offline.
pub open spec fn commits_with(command: Option<Command>, change: Change) -> bool {
    match (change.route, command) {
        (None, None) => true,
        (Some(route), Some(Command::SetOnboardProfiles(target, mode, profile))) => target@ == route
            && mode == change.mode && profile == change.profile,
        _ => false,
    }
}

/// Whether two load states show the same, their payloads compared by contents.
pub open spec fn shows_same(a: ProfilesLoad, b: ProfilesLoad) -> bool {
    match (a, b) {
        (Load::Ready(x), Load::Ready(y)) => x@ == y@,
        _ => a == b,
    }
}

/// State of the application.
pub struct AppState {
    /// The devices that are shown.
    pub device_list: Vec<DeviceRecord>,
    /// Position of the active one.
    pub current_device: usize,
    /// What was read from them.
    pub reads: DeviceReads,
    /// The saved settings.
    pub config: Config,
    /// What the interface remembers of them.
    pub device_ui: KeyedMap<DeviceUi>,
    /// Resolution of the active device.
    pub dpi: Dpi,
    /// Whether the user is dragging the resolution slider.
    pub dpi_dragging: bool,
}

impl AppState {
    /// The caches and the settings are well formed.
    pub open spec fn wf(&self) -> bool {
        self.reads.wf() && self.config.wf() && self.device_ui.wf()
    }

    /// The active device.
    pub open spec fn current(&self) -> Option<DeviceRecord> {
        if self.current_device < self.device_list.len() {
            Some(self.device_list[self.current_device as int])
        } else {
            None
        }
    }

    /// Whether a device `key` is listed on `route`.
    pub open spec fn on_route(&self, key: Seq<char>, route: device::RouteView) -> bool {
        exists|i: int|
            0 <= i < self.device_list.len() && #[trigger] self.device_list[i].key@ == key
                && device::route_view(self.device_list[i].route) == Some(route)
    }

    /// Whether a device `key` is listed.
    pub open spec fn listed(&self, key: Seq<char>) -> bool {
        exists|i: int| 0 <= i < self.device_list.len() && #[trigger] self.device_list[i].key@ == key
    }

    /// Whether a confirming read of `key` is pending.
    pub open spec fn confirm_pending(&self, key: Seq<char>) -> bool {
        self.device_ui@.contains_key(key) && self.device_ui@[key].profiles_pending_confirm
    }

    /// Whether there is an active device and its onboard-profile state was never
    /// read.
    pub open spec fn profiles_unqueried(&self) -> bool {
        match self.current() {
            Some(record) => !self.reads.profiles@.by_device.contains_key(record.key@),
            None => false,
        }
    }

    /// Whether `status` is the onboard-profile status of the active device: what is
    /// recorded of it, else `Unknown`.
    pub open spec fn shows_profiles(&self, status: ProfilesLoad) -> bool {
        match self.current() {
            Some(record) if self.reads.profiles@.by_device.contains_key(record.key@) => shows_same(
                self.reads.profiles@.by_device[record.key@],
                status,
            ),
            _ => status is Unknown,
        }
    }

    /// State without devices, at the resolution `dpi`.
    pub fn new(dpi: Dpi) -> (state: Self)
        ensures
            state.wf(),
            state.device_list.len() == 0,
            state.current() is None,
            state.reads.dpi@ == load::LoadState::<DpiInfo>::empty(),
            state.reads.smartshift@ == load::LoadState::<SmartShiftStatus>::empty(),
            state.reads.profiles@ == load::LoadState::<OnboardProfilesInfo>::empty(),
            state.config@ == Map::<Seq<char>, OnboardProfiles>::empty(),
            state.device_ui@ == Map::<Seq<char>, DeviceUi>::empty(),
            state.dpi == dpi,
            !state.dpi_dragging,
    {
        AppState {
            device_list: Vec::new(),
            current_device: 0,
            reads: DeviceReads::default(),
            config: Config::new(),
            device_ui: KeyedMap::new(),
            dpi,
            dpi_dragging: false,
        }
    }

    /// The active device.
    pub fn current_record(&self) -> (record: Option<&DeviceRecord>)
        ensures
            match record {
                Some(record) => self.current() == Some(*record),
                None => self.current() is None,
            },
    {
        if self.current_device < self.device_list.len() {
            Some(&self.device_list[self.current_device])
        } else {
            None
        }
    }

    /// Onboard-profile status for the active device.
    #[must_use]
    pub fn current_profiles_status(&self) -> (status: ProfilesLoad)
        requires
            self.wf(),
        ensures
            self.shows_profiles(status),
            status is Unknown <==> self.current() is None || self.profiles_unqueried(),
    {
        match self.current_record() {
            Some(record) => self.reads.profiles.status(&record.device_key()),
            None => Load::Unknown,
        }
    }

    /// Whether the active device has never had its onboard-profile state read.
    #[must_use]
    pub fn current_profiles_unqueried(&self) -> (unqueried: bool)
        requires
            self.wf(),
        ensures
            unqueried == self.profiles_unqueried(),
    {
        match self.current_record() {
            Some(record) => self.reads.profiles.unqueried(&record.device_key()),
            None => false,
        }
    }

    /// Drop `key`'s failed state so the panel's next render retries the read.
    pub fn retry_profiles(&mut self, key: &DeviceKey)
        requires
            old(self).wf(),
        ensures
            final(self).wf(),
            final(self).reads.profiles@ == old(self).reads.profiles@.forgotten(key@),
            final(self).same_but_profiles(*old(self)),
    {
        self.reads.profiles.retry(key);
    }

    /// Whether nothing differs from `before` but what was read of onboard
    /// profiles.
    pub open spec fn same_but_profiles(&self, before: Self) -> bool {
        *self == (AppState {
            reads: DeviceReads { profiles: self.reads.profiles, ..before.reads },
            ..before
        })
    }

    /// Whether nothing differs from `before` but what was read of resolutions,
    /// and the resolution of the active device.
    pub open spec fn same_but_dpi(&self, before: Self) -> bool {
        *self == (AppState {
            reads: DeviceReads { dpi: self.reads.dpi, ..before.reads },
            dpi: self.dpi,
            ..before
        })
    }

    pub(crate) fn is_on_route(&self, key: &DeviceKey, route: &DeviceRoute) -> (found: bool)
        ensures
            found == self.on_route(key@, route@),
    {
        let mut i: usize = 0;
        while i < self.device_list.len()
            invariant
                i <= self.device_list.len(),
                forall|j: int|
                    0 <= j < i ==> !((#[trigger] self.device_list[j]).key@ == key@
                        && device::route_view(self.device_list[j].route) == Some(route@)),
            decreases self.device_list.len() - i,
        {
            let record = &self.device_list[i];
            if record.key.same(key) {
                if let Some(found) = &record.route {
                    if found.same(route) {
                        assert(self.device_list[i as int].key@ == key@);
                        return true;
                    }
                }
            }
            i += 1;
        }
        false
    }

    pub(crate) fn is_listed(&self, key: &DeviceKey) -> (found: bool)
        ensures
            found == self.listed(key@),
    {
        let mut i: usize = 0;
        while i < self.device_list.len()
            invariant
                i <= self.device_list.len(),
                forall|j: int| 0 <= j < i ==> (#[trigger] self.device_list[j]).key@ != key@,
            decreases self.device_list.len() - i,
        {
            if self.device_list[i].key.same(key) {
                assert(self.device_list[i as int].key@ == key@);
                return true;
            }
            i += 1;
        }
        false
    }

    /// Store a read only while its physical device and route still match.
    pub fn store_profiles_info(
        &mut self,
        key: DeviceKey,
        route: &DeviceRoute,
        result: Result<OnboardProfilesInfo, WriteError>,
    )
        requires
            old(self).wf(),
        ensures
            final(self).wf(),
            old(self).reads.profiles@.stores(
                final(self).reads.profiles@,
                key@,
                result,
                result is Err && result->Err_0 is FeatureUnsupported,
                old(self).on_route(key@, route@),
                old(self).listed(key@),
            ),
            final(self).same_but_profiles(*old(self)),
    {
        let matches_route = self.is_on_route(&key, route);
        let still_present = self.is_listed(&key);
        let _ = self.reads.profiles.store(
            key,
            result,
            profiles_error_is_permanent,
            matches_route,
            still_present,
            "onboard profiles",
        );
    }

    /// Set the onboard-profile mode of the active device: change the saved
    /// settings, have them saved, then apply the change. A device whose settings
    /// are not saved has the change applied at once.
    pub fn commit_onboard_profiles(&mut self, mode: ProfilesMode, profile: Option<u16>) -> (step:
        CommitStep)
        requires
            old(self).wf(),
        ensures
            final(self).wf(),
            match (old(self).current(), step) {
                (None, CommitStep::Ignored) => *final(self) == *old(self),
                (Some(record), CommitStep::Persist(pending)) => {
                    &&& record.config_key matches Some(saved)
                    &&& final(self).config@ == old(self).config@.insert(
                        saved@,
                        saved_choice(mode, profile),
                    )
                    &&& *final(self) == (AppState { config: final(self).config, ..*old(self) })
                    &&& pending@ == Change::of(record, mode, profile)
                    &&& pending@.key == record.key@
                    &&& pending@.route == device::route_view(record.route)
                    &&& pending@.mode == mode
                    &&& pending@.profile == (match mode {
                        ProfilesMode::Host => None,
                        ProfilesMode::Onboard => profile,
                    })
                },
                (Some(record), CommitStep::Applied(command)) => {
                    &&& record.config_key is None
                    &&& final(self).applied(*old(self), Change::of(record, mode, profile))
                    &&& commits_with(command, Change::of(record, mode, profile))
                    &&& match record.route {
                        Some(route) => sets(
                            command,
                            route,
                            mode,
                            match mode {
                                ProfilesMode::Host => None,
                                ProfilesMode::Onboard => profile,
                            },
                        ),
                        None => command is None,
                    }
                },
                _ => false,
            },
    {
        let (key, saved, route) = match self.current_record() {
            Some(record) => (
                record.device_key(),
                record.persistent_config_key(),
                record.route_copy(),
            ),
            None => {
                return CommitStep::Ignored;
            },
        };
        let profile: Option<u16> = match mode {
            ProfilesMode::Host => None,
            ProfilesMode::Onboard => profile,
        };
        match saved {
            Some(saved) => {
                let choice = match mode {
                    ProfilesMode::Host => OnboardProfiles::Host,
                    ProfilesMode::Onboard => OnboardProfiles::Onboard { profile },
                };
                self.config.set_onboard_profiles(saved.as_str(), Some(choice));
                CommitStep::Persist(PendingCommit { key, route, mode, profile })
            },
            None => {
                let command = self.apply_onboard_profiles(key, route, mode, profile);
                CommitStep::Applied(command)
            },
        }
    }

    /// Go on with a change once saving its settings was tried. Where that failed
    /// the change is dropped: nothing is sent, and what is shown stays.
    pub fn resume_commit(&mut self, pending: PendingCommit, saved: bool) -> (command: Option<
        Command,
    >)
        requires
            old(self).wf(),
        ensures
            final(self).wf(),
            if saved {
                &&& final(self).applied(*old(self), pending@)
                &&& commits_with(command, pending@)
                &&& pending@.route is Some <==> command is Some
                &&& command matches Some(Command::SetOnboardProfiles(_, mode, profile)) ==> mode
                    == pending@.mode && profile == pending@.profile
            } else {
                *final(self) == *old(self) && command is None
            },
    {
        if !saved {
            return None;
        }
        let PendingCommit { key, route, mode, profile } = pending;
        self.apply_onboard_profiles(key, route, mode, profile)
    }

    /// Whether this is `before` with `change` applied: the state that is shown for
    /// the device was brought up to date, and, if it has a route, a confirming read
    /// is pending.
    pub open spec fn applied(&self, before: Self, change: Change) -> bool {
        &&& *self == (AppState {
            reads: DeviceReads { profiles: self.reads.profiles, ..before.reads },
            device_ui: self.device_ui,
            ..before
        })
        &&& self.device_ui@ == (if change.route is Some {
            before.device_ui@.insert(change.key, (DeviceUi { profiles_pending_confirm: true }))
        } else {
            before.device_ui@
        })
        &&& if before.reads.profiles@.ready(change.key) {
            exists|info: OnboardProfilesInfo|
                #![trigger before.reads.profiles@.with(change.key, Load::Ready(info))]
                self.reads.profiles@ == before.reads.profiles@.with(change.key, Load::Ready(info))
                    && info@ == optimistic(
                    before.reads.profiles@.by_device[change.key]->Ready_0@,
                    change.mode,
                    change.profile,
                )
        } else {
            self.reads.profiles@ == before.reads.profiles@
        }
    }

    fn apply_onboard_profiles(
        &mut self,
        key: DeviceKey,
        route: Option<DeviceRoute>,
        mode: ProfilesMode,
        profile: Option<u16>,
    ) -> (command: Option<Command>)
        requires
            old(self).wf(),
        ensures
            final(self).wf(),
            ({
                let change = Change {
                    key: key@,
                    route: device::route_view(route),
                    mode,
                    profile,
                };
                &&& final(self).applied(*old(self), change)
                &&& commits_with(command, change)
            }),
    {
        let ghost before = *self;
        let shown: Option<OnboardProfilesInfo> = match self.reads.profiles.get(&key) {
            Some(Load::Ready(info)) => Some(info.clone()),
            _ => None,
        };
        if let Some(mut info) = shown {
            info.mode = mode;
            match (mode, profile) {
                (ProfilesMode::Host, _) => {
                    info.active_profile = 0;
                },
                (ProfilesMode::Onboard, Some(sector)) => {
                    info.active_profile = sector;
                },
                (ProfilesMode::Onboard, None) => {},
            }
            let ghost after = info;
            self.reads.profiles.set_ready(key.clone(), info);
            assert(self.reads.profiles@ == before.reads.profiles@.with(key@, Load::Ready(after)));
        }
        match route {
            Some(route) => {
                self.device_ui.insert(key.text(), DeviceUi { profiles_pending_confirm: true });
                Some(Command::SetOnboardProfiles(route, mode, profile))
            },
            None => None,
        }
    }

    /// Take the active device's one-shot post-write confirmation target.
    pub fn take_active_profiles_confirm(&mut self) -> (target: Option<(DeviceKey, DeviceRoute)>)
        requires
            old(self).wf(),
        ensures
            final(self).wf(),
            *final(self) == (AppState { device_ui: final(self).device_ui, ..*old(self) }),
            match (old(self).current(), target) {
                (Some(record), Some((key, route))) => {
                    &&& old(self).confirm_pending(record.key@)
                    &&& key@ == record.key@
                    &&& device::route_view(record.route) == Some(route@)
                    &&& final(self).device_ui@ == old(self).device_ui@.insert(
                        record.key@,
                        (DeviceUi { profiles_pending_confirm: false }),
                    )
                },
                (Some(record), None) => {
                    &&& record.route is None || !old(self).confirm_pending(record.key@)
                    &&& *final(self) == *old(self)
                },
                (None, None) => *final(self) == *old(self),
                (None, Some(_)) => false,
            },
    {
        let (key, route) = match self.current_record() {
            Some(record) => match &record.route {
                Some(route) => (record.device_key(), route.clone()),
                None => {
                    return None;
                },
            },
            None => {
                return None;
            },
        };
        let pending = match self.device_ui.get(key.as_str()) {
            Some(ui) => ui.profiles_pending_confirm,
            None => false,
        };
        if !pending {
            return None;
        }
        self.device_ui.insert(key.text(), DeviceUi { profiles_pending_confirm: false });
        Some((key, route))
    }
}

/// Whether a failed read of onboard profiles is not worth repeating: only a
/// missing feature never changes.
pub fn profiles_error_is_permanent(error: &WriteError) -> (permanent: bool)
    ensures
        permanent == (*error is FeatureUnsupported),
{
    match error {
        WriteError::FeatureUnsupported { feature_hex: _ } => true,
        _ => false,
    }
}

/// The active device was never read exactly when there is one and its status is
/// `Unknown`. Without an active device the status is `Unknown` too, and nothing is
/// unqueried.
pub proof fn unknown_status_means_unqueried(state: AppState, status: ProfilesLoad)
    requires
        state.wf(),
        state.shows_profiles(status),
    ensures
        state.profiles_unqueried() <==> state.current() is Some && status is Unknown,
        state.current() is None ==> status is Unknown && !state.profiles_unqueried(),
{
    state.reads.profiles.wf_is_valid();
}

/// A retry of the active device makes it unqueried, so that it is read again.
pub proof fn retried_device_is_unqueried(before: AppState, after: AppState)
    requires
        before.current() is Some,
        after.current() == before.current(),
        after.reads.profiles@ == before.reads.profiles@.forgotten(before.current()->0.key@),
    ensures
        after.profiles_unqueried(),
{
}

/// A change to host mode names no profile, whatever the caller passed: none is
/// saved, none is sent, and none is shown as active.
pub proof fn host_mode_names_no_profile(info: ProfilesInfoView, profile: Option<u16>)
    ensures
        effective_profile(ProfilesMode::Host, profile) is None,
        saved_choice(ProfilesMode::Host, profile) == OnboardProfiles::Host,
        optimistic(
            info,
            ProfilesMode::Host,
            effective_profile(ProfilesMode::Host, profile),
        ).active_profile == 0,
{
}

/// What is shown after a change differs from what was shown only in the mode and
/// the active profile, and an onboard change without a profile keeps the latter.
pub proof fn change_shows_mode_and_profile_only(
    info: ProfilesInfoView,
    mode: ProfilesMode,
    profile: Option<u16>,
)
    ensures
        optimistic(info, mode, profile).mode == mode,
        optimistic(info, ProfilesMode::Onboard, None).active_profile == info.active_profile,
        (ProfilesInfoView {
            mode: info.mode,
            active_profile: info.active_profile,
            ..optimistic(info, mode, profile)
        }) == info,
{
}

/// A change of a device that has a route arms one confirming read: it is pending
/// after the change, and no longer once it was taken.
pub proof fn change_arms_one_confirm(
    before: AppState,
    changed: AppState,
    taken: AppState,
    change: Change,
)
    requires
        change.route is Some,
        changed.applied(before, change),
        taken.device_ui@ == changed.device_ui@.insert(
            change.key,
            (DeviceUi { profiles_pending_confirm: false }),
        ),
    ensures
        changed.confirm_pending(change.key),
        !taken.confirm_pending(change.key),
        forall|other: Seq<char>|
            other != change.key ==> #[trigger] taken.confirm_pending(other)
                == before.confirm_pending(other),
{
}

/// A change of one device leaves what is known of the others alone.
pub proof fn change_leaves_other_devices_alone(
    before: AppState,
    changed: AppState,
    change: Change,
    other: Seq<char>,
)
    requires
        changed.applied(before, change),
        other != change.key,
    ensures
        changed.reads.profiles@.by_device.contains_key(other)
            == before.reads.profiles@.by_device.contains_key(other),
        changed.reads.profiles@.by_device.contains_key(other)
            ==> changed.reads.profiles@.by_device[other] == before.reads.profiles@.by_device[other],
        changed.confirm_pending(other) == before.confirm_pending(other),
        changed.config == before.config,
        changed.device_list == before.device_list,
{
}

/// A change that the device turned down does not stay on screen: whatever was
/// shown, the value of the confirming read replaces it.
pub proof fn confirming_read_replaces_what_is_shown(
    changed: AppState,
    confirmed: AppState,
    key: Seq<char>,
    route: device::RouteView,
    info: OnboardProfilesInfo,
)
    requires
        changed.on_route(key, route),
        changed.reads.profiles@.stores(
            confirmed.reads.profiles@,
            key,
            Ok(info),
            false,
            changed.on_route(key, route),
            changed.listed(key),
        ),
    ensures
        confirmed.reads.profiles@.by_device.contains_key(key),
        confirmed.reads.profiles@.by_device[key] == ProfilesLoad::Ready(info),
{
}

/// Whether `command` sets `mode` and `profile` on the device at `route`.
pub open spec fn sets(
    command: Option<Command>,
    route: DeviceRoute,
    mode: ProfilesMode,
    profile: Option<u16>,
) -> bool {
    command matches Some(Command::SetOnboardProfiles(target, sent_mode, sent_profile)) && target@
        == route@ && sent_mode == mode && sent_profile == profile
}

/// Whether `state` shows the onboard profiles of the device `key` as read, with
/// `mode` and `active`.
pub open spec fn shows(state: AppState, key: Seq<char>, mode: ProfilesMode, active: u16) -> bool {
    &&& state.reads.profiles@.by_device.contains_key(key)
    &&& state.reads.profiles@.by_device[key] matches Load::Ready(info)
    &&& info.mode == mode
    &&& info.active_profile == active
}

/// A profile that is chosen is sent and shown: once a change of the active device to
/// onboard mode and the profile `sector` was committed, and resumed if its settings
/// had to be saved, the command carries that mode and that sector, and both are shown
/// until a read confirms them.
pub proof fn chosen_profile_is_sent_and_shown(
    before: AppState,
    committed: AppState,
    after: AppState,
    record: DeviceRecord,
    route: DeviceRoute,
    sector: u16,
    change: Change,
    command: Option<Command>,
)
    requires
        before.current() == Some(record),
        record.route == Some(route),
        // What committing leaves behind.
        committed == (AppState { config: committed.config, ..before }),
        change == Change::of(record, ProfilesMode::Onboard, Some(sector)),
        // What applying the change, at once or when it is resumed, leaves behind.
        after.applied(committed, change),
        commits_with(command, change),
    ensures
        sets(command, route, ProfilesMode::Onboard, Some(sector)),
        before.reads.profiles@.ready(record.key@) ==> shows(
            after,
            record.key@,
            ProfilesMode::Onboard,
            sector,
        ),
        after.confirm_pending(record.key@),
        after.config == committed.config,
{
}

/// In the same way a change to onboard mode without a profile names none and keeps
/// the active one on screen, and a change to host mode names none, whatever the
/// caller passed, and shows none as active.
pub proof fn mode_change_is_sent_and_shown(
    before: AppState,
    committed: AppState,
    after: AppState,
    record: DeviceRecord,
    route: DeviceRoute,
    mode: ProfilesMode,
    profile: Option<u16>,
    change: Change,
    command: Option<Command>,
)
    requires
        before.current() == Some(record),
        record.route == Some(route),
        committed == (AppState { config: committed.config, ..before }),
        change == Change::of(record, mode, profile),
        mode == ProfilesMode::Host || profile is None,
        after.applied(committed, change),
        commits_with(command, change),
    ensures
        sets(command, route, mode, None),
        before.reads.profiles@.ready(record.key@) ==> shows(
            after,
            record.key@,
            mode,
            if mode == ProfilesMode::Host {
                0
            } else {
                before.reads.profiles@.by_device[record.key@]->Ready_0.active_profile
            },
        ),
        after.confirm_pending(record.key@),
{
}

/// A change of an offline device is sent nowhere and awaits no confirmation; where its
/// profiles were read, the change is shown all the same.
pub proof fn offline_change_is_not_sent(
    before: AppState,
    after: AppState,
    record: DeviceRecord,
    mode: ProfilesMode,
    profile: Option<u16>,
    command: Option<Command>,
)
    requires
        record.route is None,
        after.applied(before, Change::of(record, mode, profile)),
        commits_with(command, Change::of(record, mode, profile)),
    ensures
        command is None,
        after.device_ui@ == before.device_ui@,
        before.reads.profiles@.ready(record.key@) ==> shows(
            after,
            record.key@,
            mode,
            match (mode, profile) {
                (ProfilesMode::Host, _) => 0,
                (ProfilesMode::Onboard, Some(sector)) => sector,
                (ProfilesMode::Onboard, None) =>
                    before.reads.profiles@.by_device[record.key@]->Ready_0.active_profile,
            },
        ),
{
}

/// Where the profiles of a device are not read yet, a change of it shows nothing.
pub proof fn unread_profiles_are_not_made_up(before: AppState, after: AppState, change: Change)
    requires
        after.applied(before, change),
        !(before.reads.profiles@.by_device.contains_key(change.key)
            && before.reads.profiles@.by_device[change.key] is Ready),
    ensures
        after.reads.profiles@.by_device == before.reads.profiles@.by_device,
        after.reads.profiles@.stale == before.reads.profiles@.stale,
        after.reads.profiles@.refreshing == before.reads.profiles@.refreshing,
        after.reads.profiles@.attempts == before.reads.profiles@.attempts,
{
}

/// A change shows the memory of the device as it was read: nothing of it but the mode
/// and the active profile differs, and no failure or refresh is forgotten.
pub proof fn changed_device_keeps_its_memory(before: AppState, after: AppState, change: Change)
    requires
        after.applied(before, change),
        before.reads.profiles@.by_device.contains_key(change.key),
        before.reads.profiles@.by_device[change.key] is Ready,
    ensures
        after.reads.profiles@.by_device.contains_key(change.key),
        after.reads.profiles@.by_device[change.key] is Ready,
        ({
            let read = before.reads.profiles@.by_device[change.key]->Ready_0;
            let shown = after.reads.profiles@.by_device[change.key]->Ready_0;
            &&& shown.directory@ == read.directory@
            &&& shown.profile_count == read.profile_count
            &&& shown.profile_count_oob == read.profile_count_oob
            &&& shown.button_count == read.button_count
            &&& shown.sector_count == read.sector_count
            &&& shown.sector_size == read.sector_size
            &&& shown.memory_model_id == read.memory_model_id
            &&& shown.profile_format_id == read.profile_format_id
            &&& shown.macro_format_id == read.macro_format_id
        }),
        after.reads.profiles@.stale == before.reads.profiles@.stale,
        after.reads.profiles@.refreshing == before.reads.profiles@.refreshing,
        after.reads.profiles@.attempts == before.reads.profiles@.attempts,
{
}

/// What a change saves is what was chosen.
pub proof fn choice_is_saved(profile: Option<u16>)
    ensures
        saved_choice(ProfilesMode::Host, profile) == OnboardProfiles::Host,
        saved_choice(ProfilesMode::Onboard, profile) == (OnboardProfiles::Onboard { profile }),
{
}

/// The active device is the one at the current position of the list.
pub proof fn current_position_is_the_active_device(state: AppState)
    ensures
        state.current_device < state.device_list.len() ==> state.current() == Some(
            state.device_list@[state.current_device as int],
        ),
        state.current_device >= state.device_list.len() ==> state.current() is None,
{
}

/// A device is listed, and on its route, by its own record and by no other.
pub proof fn record_lists_its_device(state: AppState, i: int, key: Seq<char>, route: DeviceRoute)
    requires
        0 <= i < state.device_list.len(),
    ensures
        state.listed(state.device_list@[i].key@),
        state.device_list@[i].route matches Some(held) ==> state.on_route(
            state.device_list@[i].key@,
            held@,
        ),
        (forall|j: int|
            0 <= j < state.device_list.len() ==> (#[trigger] state.device_list@[j]).key@ != key)
            ==> !state.listed(key),
        (forall|j: int|
            0 <= j < state.device_list.len() ==> (#[trigger] state.device_list@[j]).key@ != key
                || (state.device_list@[j].route matches Some(held) ==> held@ != route@))
            ==> !state.on_route(key, route@),
{
}

/// What is shown of the active device is what was read of it.
pub proof fn read_profiles_are_shown(state: AppState, record: DeviceRecord, status: ProfilesLoad)
    requires
        state.current() == Some(record),
        state.reads.profiles@.by_device.contains_key(record.key@),
        state.shows_profiles(status),
    ensures
        match state.reads.profiles@.by_device[record.key@] {
            Load::Ready(info) => {
                &&& status matches Load::Ready(shown)
                &&& shown.mode == info.mode
                &&& shown.active_profile == info.active_profile
                &&& shown.directory@ == info.directory@
                &&& shown.profile_count == info.profile_count
                &&& shown.profile_count_oob == info.profile_count_oob
                &&& shown.button_count == info.button_count
                &&& shown.sector_count == info.sector_count
                &&& shown.sector_size == info.sector_size
                &&& shown.memory_model_id == info.memory_model_id
                &&& shown.profile_format_id == info.profile_format_id
                &&& shown.macro_format_id == info.macro_format_id
            },
            recorded => status == recorded,
        },
{
}

/// A read of onboard profiles touches nothing else: not the devices that are shown, not
/// what was read of their resolution or wheel, and neither the settings nor the rest
/// of the interface.
pub proof fn reading_profiles_leaves_the_rest(before: AppState, after: AppState)
    requires
        after.same_but_profiles(before),
    ensures
        after.device_list == before.device_list,
        after.current_device == before.current_device,
        after.reads.dpi == before.reads.dpi,
        after.reads.smartshift == before.reads.smartshift,
        after.config == before.config,
        after.device_ui == before.device_ui,
        after.dpi == before.dpi,
        after.dpi_dragging == before.dpi_dragging,
{
}

/// A read of resolutions touches nothing but them.
pub proof fn reading_resolutions_leaves_the_rest(before: AppState, after: AppState)
    requires
        after.same_but_dpi(before),
    ensures
        after.device_list == before.device_list,
        after.current_device == before.current_device,
        after.reads.profiles == before.reads.profiles,
        after.reads.smartshift == before.reads.smartshift,
        after.config == before.config,
        after.device_ui == before.device_ui,
        after.dpi_dragging == before.dpi_dragging,
{
}

/// Applying a change of onboard profiles leaves alone what it does not name: the devices
/// that are shown, the other reads, the settings and the resolution.
pub proof fn applied_change_leaves_the_rest(before: AppState, after: AppState, change: Change)
    requires
        after.applied(before, change),
    ensures
        after.device_list == before.device_list,
        after.current_device == before.current_device,
        after.reads.dpi == before.reads.dpi,
        after.reads.smartshift == before.reads.smartshift,
        after.config == before.config,
        after.dpi == before.dpi,
        after.dpi_dragging == before.dpi_dragging,
        change.route is None ==> after.device_ui@ == before.device_ui@,
{
}

} // verus!
