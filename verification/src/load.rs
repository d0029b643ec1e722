//! Lazy per-device load state for background HID++ reads, shared by DPI,
//! SmartShift, and onboard-profile discovery.

use vstd::prelude::*;

use crate::device::DeviceKey;
use crate::error;
use crate::error::WriteError;
use crate::keyed;
use crate::keyed::{KeySet, KeyedMap};

verus! {

/// How many times a device read may fail in a row with a transient HID++ error
/// (read timeout, busy device) before it is given up. A genuine "feature not
/// supported" reply is permanent and never retried.
pub const LOAD_MAX_ATTEMPTS: u8 = 3;

/// Lazy per-device load state for a background HID++ read: unqueried, in flight,
/// resolved, transiently failed (retryable on re-select), or permanently
/// unsupported.
#[derive(Debug, PartialEq, Eq)]
pub enum Load<T> {
    /// The selected device has not been queried yet.
    Unknown,
    /// A background HID++ read is in flight.
    Loading,
    /// The device reported its value.
    Ready(T),
    /// Transient errors (read timeouts, busy device) exhausted the retry budget.
    /// Distinct from [`Self::Unsupported`] because the device may well support
    /// the feature.
    Failed(String),
    /// The device genuinely does not support the feature; never retried.
    Unsupported(String),
}

/// Whether `copy` is a clone of `load`.
pub open spec fn load_cloned<T: Clone>(load: Load<T>, copy: Load<T>) -> bool {
    match (load, copy) {
        (Load::Unknown, Load::Unknown) => true,
        (Load::Loading, Load::Loading) => true,
        (Load::Ready(value), Load::Ready(value_copy)) => cloned(value, value_copy),
        (Load::Failed(message), Load::Failed(message_copy)) => message == message_copy,
        (Load::Unsupported(message), Load::Unsupported(message_copy)) => message == message_copy,
        _ => false,
    }
}

impl<T: Clone> Clone for Load<T> {
    fn clone(&self) -> (copy: Self)
        ensures
            load_cloned(*self, copy),
    {
        match self {
            Load::Unknown => Load::Unknown,
            Load::Loading => Load::Loading,
            Load::Ready(value) => Load::Ready(value.clone()),
            Load::Failed(message) => Load::Failed(message.clone()),
            Load::Unsupported(message) => Load::Unsupported(message.clone()),
        }
    }
}

/// Mathematical contents of a [`LazyDeviceData`].
#[verifier::ext_equal]
pub struct LoadState<T> {
    /// The recorded state of each queried device.
    pub by_device: Map<Seq<char>, Load<T>>,
    /// Transient failures in a row, for each device that has any.
    pub attempts: Map<Seq<char>, u8>,
    /// Resolved devices whose value may be out of date.
    pub stale: Set<Seq<char>>,
    /// Devices with a silent refresh in flight.
    pub refreshing: Set<Seq<char>>,
}

impl<T> LoadState<T> {
    /// No device is known.
    pub open spec fn empty() -> Self {
        LoadState {
            by_device: Map::empty(),
            attempts: Map::empty(),
            stale: Set::empty(),
            refreshing: Set::empty(),
        }
    }

    /// What every state keeps: a device whose refresh is in flight is not also
    /// waiting for one, a failure count is positive and within the budget, and
    /// `Unknown` is never recorded, so that it always means unqueried.
    pub open spec fn valid(self) -> bool {
        &&& self.stale.disjoint(self.refreshing)
        &&& forall|k: Seq<char>|
            self.by_device.contains_key(k) ==> !((#[trigger] self.by_device[k]) is Unknown)
        &&& forall|k: Seq<char>|
            self.attempts.contains_key(k) ==> (#[trigger] self.attempts[k]) > 0 && self.attempts[k]
                < LOAD_MAX_ATTEMPTS
    }

    /// Transient failures in a row of `key`.
    pub open spec fn failures(self, key: Seq<char>) -> int {
        if self.attempts.contains_key(key) {
            self.attempts[key] as int
        } else {
            0
        }
    }

    /// Whether `key` holds a resolved value.
    pub open spec fn ready(self, key: Seq<char>) -> bool {
        self.by_device.contains_key(key) && self.by_device[key] is Ready
    }

    /// `load` is recorded for `key`.
    pub open spec fn with(self, key: Seq<char>, load: Load<T>) -> Self {
        LoadState { by_device: self.by_device.insert(key, load), ..self }
    }

    /// Nothing is recorded for `key`, so that it is read again.
    pub open spec fn unqueried(self, key: Seq<char>) -> Self {
        LoadState { by_device: self.by_device.remove(key), ..self }
    }

    /// A `Loading` marker of `key` is dropped.
    pub open spec fn loading_cleared(self, key: Seq<char>) -> Self {
        if self.by_device.contains_key(key) && self.by_device[key] is Loading {
            self.unqueried(key)
        } else {
            self
        }
    }

    /// Everything about `key` is dropped.
    pub open spec fn forgotten(self, key: Seq<char>) -> Self {
        LoadState {
            by_device: self.by_device.remove(key),
            attempts: self.attempts.remove(key),
            stale: self.stale.remove(key),
            refreshing: self.refreshing.remove(key),
        }
    }

    /// The resolved value of `key` is flagged as possibly out of date.
    pub open spec fn flagged_stale(self, key: Seq<char>) -> Self {
        if self.ready(key) && !self.refreshing.contains(key) {
            LoadState { stale: self.stale.insert(key), ..self }
        } else {
            self
        }
    }

    /// The stale flag of `key`, if there is one, is claimed for a refresh.
    pub open spec fn refresh_begun(self, key: Seq<char>) -> Self {
        if self.stale.contains(key) {
            LoadState {
                stale: self.stale.remove(key),
                refreshing: self.refreshing.insert(key),
                ..self
            }
        } else {
            self
        }
    }

    /// No refresh of `key` is in flight.
    pub open spec fn refresh_ended(self, key: Seq<char>) -> Self {
        LoadState { refreshing: self.refreshing.remove(key), ..self }
    }

    /// `key` settled on an outcome that `outcome` describes, and nothing else
    /// changed but that its failures were forgotten.
    pub open spec fn settled(self, key: Seq<char>, outcome: Load<T>) -> Self {
        LoadState {
            by_device: self.by_device.insert(key, outcome),
            attempts: self.attempts.remove(key),
            ..self
        }
    }

    /// Whether `next` is what a read of `key` that ended with `result` leaves
    /// behind. `permanent` says whether an error is permanent, `matches_route`
    /// whether the device is still on the route that was read, `still_present`
    /// whether it is still there at all.
    pub open spec fn stores(
        self,
        next: Self,
        key: Seq<char>,
        result: Result<T, WriteError>,
        permanent: bool,
        matches_route: bool,
        still_present: bool,
    ) -> bool {
        if !matches_route {
            next == (if still_present {
                self.unqueried(key)
            } else {
                self
            })
        } else {
            match result {
                Ok(value) => next == self.settled(key, Load::Ready(value)),
                Err(e) => if permanent {
                    exists|message: String|
                        message@ == error::error_text(e) && next == #[trigger] self.settled(
                            key,
                            Load::Unsupported(message),
                        )
                } else if self.failures(key) + 1 < LOAD_MAX_ATTEMPTS {
                    next == (LoadState {
                        by_device: self.by_device.remove(key),
                        attempts: self.attempts.insert(key, (self.failures(key) + 1) as u8),
                        ..self
                    })
                } else {
                    exists|message: String|
                        message@ == error::error_text(e) && next == #[trigger] self.settled(
                            key,
                            Load::Failed(message),
                        )
                },
            }
        }
    }
}

impl<T: Clone> LoadState<T> {
    /// Whether `next` is what a refresh of `key` that ended with `result` leaves
    /// behind: a clone of a delivered value replaces the recorded one, an error
    /// changes nothing that is shown.
    pub open spec fn refreshes(
        self,
        next: Self,
        key: Seq<char>,
        result: Result<T, WriteError>,
    ) -> bool {
        match result {
            Ok(value) => exists|copy: T|
                cloned(value, copy) && next == #[trigger] self.refresh_ended(key).with(
                    key,
                    Load::Ready(copy),
                ),
            Err(_) => next == self.refresh_ended(key),
        }
    }
}

/// Per-device lazy-load cache for a background HID++ read, keyed by
/// [`DeviceKey`]. Holds each device's [`Load`] state plus its transient-retry
/// counter, and carries the stale-route guard and retry-budget policy once.
pub struct LazyDeviceData<T> {
    by_device: KeyedMap<Load<T>>,
    /// Consecutive transient read failures per device, capped by
    /// [`LOAD_MAX_ATTEMPTS`] before the device settles on [`Load::Failed`].
    attempts: KeyedMap<u8>,
    /// [`Load::Ready`] entries whose payload may no longer match the device.
    /// A stale entry keeps rendering its cached payload while the next render
    /// issues a silent re-read.
    stale: KeySet,
    /// Devices with a silent refresh in flight, so a render loop doesn't
    /// re-issue one per frame.
    refreshing: KeySet,
}

impl<T> View for LazyDeviceData<T> {
    type V = LoadState<T>;

    closed spec fn view(&self) -> LoadState<T> {
        LoadState {
            by_device: self.by_device@,
            attempts: self.attempts@,
            stale: self.stale@,
            refreshing: self.refreshing@,
        }
    }
}

impl<T> Default for LazyDeviceData<T> {
    fn default() -> (data: Self)
        ensures
            data.wf(),
            data@ == LoadState::<T>::empty(),
    {
        LazyDeviceData {
            by_device: KeyedMap::new(),
            attempts: KeyedMap::new(),
            stale: KeySet::new(),
            refreshing: KeySet::new(),
        }
    }
}

impl<T> LazyDeviceData<T> {
    /// The cache is well formed and its contents are [`LoadState::valid`].
    pub closed spec fn wf(&self) -> bool {
        &&& self.by_device.wf()
        &&& self.attempts.wf()
        &&& self.stale.wf()
        &&& self.refreshing.wf()
        &&& self.stale@.disjoint(self.refreshing@)
        &&& forall|k: Seq<char>|
            self.by_device@.contains_key(k) ==> !((#[trigger] self.by_device@[k]) is Unknown)
        &&& forall|k: Seq<char>|
            self.attempts@.contains_key(k) ==> (#[trigger] self.attempts@[k]) > 0
                && self.attempts@[k] < LOAD_MAX_ATTEMPTS
    }

    /// A well-formed cache has valid contents.
    pub proof fn wf_is_valid(&self)
        requires
            self.wf(),
        ensures
            self@.valid(),
    {
    }
}

impl<T: Clone> LazyDeviceData<T> {
    /// The recorded state for `key`, or [`Load::Unknown`] if never queried.
    pub fn status(&self, key: &DeviceKey) -> (load: Load<T>)
        requires
            self.wf(),
        ensures
            if self@.by_device.contains_key(key@) {
                load_cloned(self@.by_device[key@], load)
            } else {
                load is Unknown
            },
            load is Unknown <==> !self@.by_device.contains_key(key@),
    {
        match self.by_device.get(key.as_str()) {
            Some(load) => load.clone(),
            None => Load::Unknown,
        }
    }

    /// The raw recorded entry for `key`, for callers that match on `Ready`
    /// without cloning the payload.
    pub fn get(&self, key: &DeviceKey) -> (load: Option<&Load<T>>)
        requires
            self.wf(),
        ensures
            match load {
                Some(load) => self@.by_device.contains_key(key@) && *load == self@.by_device[key@],
                None => !self@.by_device.contains_key(key@),
            },
            load matches Some(load) ==> !(*load is Unknown),
    {
        self.by_device.get(key.as_str())
    }

    /// Whether `key` still needs a read (nothing recorded yet).
    pub fn unqueried(&self, key: &DeviceKey) -> (unqueried: bool)
        requires
            self.wf(),
        ensures
            unqueried == !self@.by_device.contains_key(key@),
    {
        !self.by_device.contains_key(key.as_str())
    }

    /// Mark a read as in flight for `key`.
    pub fn mark_loading(&mut self, key: &DeviceKey)
        requires
            old(self).wf(),
        ensures
            final(self).wf(),
            final(self)@ == old(self)@.with(key@, Load::Loading),
    {
        self.by_device.insert(key.text(), Load::Loading);
    }

    /// Reset a stuck `Loading` for `key` back to unqueried — the read worker
    /// vanished without delivering a result, so the next render re-issues
    /// instead of wedging the device on "Reading…".
    pub fn clear_loading(&mut self, key: &DeviceKey)
        requires
            old(self).wf(),
        ensures
            final(self).wf(),
            final(self)@ == old(self)@.loading_cleared(key@),
    {
        let loading = match self.by_device.get(key.as_str()) {
            Some(Load::Loading) => true,
            _ => false,
        };
        if loading {
            let _ = self.by_device.remove(key.as_str());
        }
    }

    /// Drop `key`'s recorded state and retry budget so the next render re-reads.
    /// Backs the "click to retry" affordance and the re-select-grants-a-retry
    /// rule for a [`Load::Failed`] device.
    pub fn retry(&mut self, key: &DeviceKey)
        requires
            old(self).wf(),
        ensures
            final(self).wf(),
            final(self)@ == old(self)@.forgotten(key@),
    {
        self.remove(key);
    }

    /// Forget `key` entirely — the device disappeared, or reconnected on a new
    /// route, so its cached state (keyed to the dead route) is stale.
    pub fn remove(&mut self, key: &DeviceKey)
        requires
            old(self).wf(),
        ensures
            final(self).wf(),
            final(self)@ == old(self)@.forgotten(key@),
    {
        let _ = self.by_device.remove(key.as_str());
        let _ = self.attempts.remove(key.as_str());
        let _ = self.stale.remove(key.as_str());
        let _ = self.refreshing.remove(key.as_str());
    }

    /// Forget every device the `present` predicate rejects (not in the live set).
    pub fn retain_present<F: Fn(&str) -> bool>(&mut self, present: F)
        requires
            old(self).wf(),
            keyed::total(present),
        ensures
            final(self).wf(),
            final(self)@.by_device.dom().subset_of(old(self)@.by_device.dom()),
            final(self)@.attempts.dom().subset_of(old(self)@.attempts.dom()),
            final(self)@.stale.subset_of(old(self)@.stale),
            final(self)@.refreshing.subset_of(old(self)@.refreshing),
            forall|k: Seq<char>|
                final(self)@.by_device.contains_key(k) ==> #[trigger] final(self)@.by_device[k]
                    == old(self)@.by_device[k],
            forall|k: Seq<char>|
                final(self)@.attempts.contains_key(k) ==> #[trigger] final(self)@.attempts[k]
                    == old(self)@.attempts[k],
            forall|k: Seq<char>|
                #![trigger final(self)@.by_device.contains_key(k)]
                old(self)@.by_device.contains_key(k) ==> keyed::answers(
                    present,
                    k,
                    final(self)@.by_device.contains_key(k),
                ),
            forall|k: Seq<char>|
                #![trigger final(self)@.attempts.contains_key(k)]
                old(self)@.attempts.contains_key(k) ==> keyed::answers(
                    present,
                    k,
                    final(self)@.attempts.contains_key(k),
                ),
            forall|k: Seq<char>|
                #![trigger final(self)@.stale.contains(k)]
                old(self)@.stale.contains(k) ==> keyed::answers(
                    present,
                    k,
                    final(self)@.stale.contains(k),
                ),
            forall|k: Seq<char>|
                #![trigger final(self)@.refreshing.contains(k)]
                old(self)@.refreshing.contains(k) ==> keyed::answers(
                    present,
                    k,
                    final(self)@.refreshing.contains(k),
                ),
    {
        self.by_device.retain(&present);
        self.attempts.retain(&present);
        self.stale.retain(&present);
        self.refreshing.retain(&present);
    }

    /// Flag `key`'s resolved value as possibly out of date — the device can
    /// change it on its own (DPI button press, onboard profile activation).
    /// The cached payload keeps rendering; the next render issues a silent
    /// re-read via [`Self::begin_refresh`]. No-op unless `key` is
    /// [`Load::Ready`] with no refresh already in flight, so non-resolved
    /// states keep their initial-load / retry semantics.
    pub fn mark_stale(&mut self, key: &DeviceKey)
        requires
            old(self).wf(),
        ensures
            final(self).wf(),
            final(self)@ == old(self)@.flagged_stale(key@),
    {
        let resolved = match self.by_device.get(key.as_str()) {
            Some(Load::Ready(_)) => true,
            _ => false,
        };
        if resolved && !self.refreshing.contains(key.as_str()) {
            self.stale.insert(key.text());
        }
    }

    /// Claim `key`'s stale flag for a refresh read: returns `true` exactly once
    /// per [`Self::mark_stale`], moving the key into the refresh-in-flight set
    /// so a render loop can't issue duplicates. The result lands through
    /// [`Self::store_refresh`], or [`Self::clear_refreshing`] if it never comes.
    pub fn begin_refresh(&mut self, key: &DeviceKey) -> (claimed: bool)
        requires
            old(self).wf(),
        ensures
            final(self).wf(),
            claimed == old(self)@.stale.contains(key@),
            final(self)@ == old(self)@.refresh_begun(key@),
    {
        if self.stale.remove(key.as_str()) {
            self.refreshing.insert(key.text());
            true
        } else {
            assert(self@.stale =~= old(self)@.stale);
            false
        }
    }

    /// Reset a refresh whose reply was dropped, so a later
    /// [`Self::mark_stale`] can try again.
    pub fn clear_refreshing(&mut self, key: &DeviceKey)
        requires
            old(self).wf(),
        ensures
            final(self).wf(),
            final(self)@ == old(self)@.refresh_ended(key@),
    {
        let _ = self.refreshing.remove(key.as_str());
    }

    /// Store a silent-refresh result: a delivered value replaces the cached
    /// one (returned so the caller can seed derived state), while any error
    /// keeps the previous [`Load::Ready`] on screen — a refresh must never
    /// blank a panel that was rendering fine a frame ago. `_label` names the
    /// value that was read.
    pub fn store_refresh(
        &mut self,
        key: DeviceKey,
        result: Result<T, WriteError>,
        _label: &'static str,
    ) -> (resolved: Option<T>)
        requires
            old(self).wf(),
        ensures
            final(self).wf(),
            old(self)@.refreshes(final(self)@, key@, result),
            resolved == (match result {
                Ok(value) => Some(value),
                Err(_) => None,
            }),
    {
        let _ = self.refreshing.remove(key.as_str());
        match result {
            Ok(value) => {
                let copy = value.clone();
                self.by_device.insert(key.text(), Load::Ready(copy));
                assert(self@ == old(self)@.refresh_ended(key@).with(key@, Load::Ready(copy)));
                Some(value)
            },
            Err(_) => None,
        }
    }

    /// Optimistically record a resolved value with no read involved — e.g. a
    /// just-written config, shown until a confirming re-read replaces it.
    /// Leaves the retry budget untouched.
    pub fn set_ready(&mut self, key: DeviceKey, value: T)
        requires
            old(self).wf(),
        ensures
            final(self).wf(),
            final(self)@ == old(self)@.with(key@, Load::Ready(value)),
    {
        self.by_device.insert(key.text(), Load::Ready(value));
    }

    /// Store a read result under the stale-route guard and the transient-retry /
    /// permanent-unsupported policy. `matches_route` is whether a live device
    /// still holds `key` *on the route the read targeted*; `still_present` is
    /// whether `key` exists at all. Returns the resolved value when the result
    /// settled to [`Load::Ready`], so the caller can run a side effect.
    /// `is_permanent` is consulted only about the error of a read whose route still
    /// matches. `_label` names the value that was read.
    pub fn store<F: Fn(&WriteError) -> bool>(
        &mut self,
        key: DeviceKey,
        result: Result<T, WriteError>,
        is_permanent: F,
        matches_route: bool,
        still_present: bool,
        _label: &'static str,
    ) -> (resolved: Option<T>)
        requires
            old(self).wf(),
            matches_route && result is Err ==> call_requires(is_permanent, (&result->Err_0,)),
        ensures
            final(self).wf(),
            exists|permanent: bool|
                (matches_route && result is Err ==> call_ensures(
                    is_permanent,
                    (&result->Err_0,),
                    permanent,
                )) && #[trigger] old(self)@.stores(
                    final(self)@,
                    key@,
                    result,
                    permanent,
                    matches_route,
                    still_present,
                ),
            match (result, resolved) {
                (Ok(value), Some(copy)) => matches_route && cloned(value, copy),
                (Ok(_), None) => !matches_route,
                (Err(_), _) => resolved is None,
            },
    {
        if !matches_route {
            // The device reconnected on a different route mid-read: drop the
            // orphaned `Loading` marker so the next render re-reads against the
            // live route instead of spinning on "Reading…" forever.
            if still_present {
                let _ = self.by_device.remove(key.as_str());
            }
            assert(old(self)@.stores(self@, key@, result, false, false, still_present));
            return None;
        }
        match result {
            Ok(value) => {
                let _ = self.attempts.remove(key.as_str());
                let copy = value.clone();
                self.by_device.insert(key.text(), Load::Ready(value));
                assert(old(self)@.stores(self@, key@, result, false, true, still_present));
                Some(copy)
            },
            Err(e) => {
                // A genuine "feature not supported" reply never changes — record
                // it and stop probing.
                if is_permanent(&e) {
                    let _ = self.attempts.remove(key.as_str());
                    let message = e.message();
                    self.by_device.insert(key.text(), Load::Unsupported(message));
                    assert(self@ == old(self)@.settled(key@, Load::Unsupported(message)));
                    assert(old(self)@.stores(self@, key@, result, true, true, still_present));
                    return None;
                }
                // Transient failures get a few more tries: clear the status so
                // the next render re-reads, until the budget runs out, then
                // settle on `Failed` (retryable on re-select).
                let failed_before: u8 = match self.attempts.get(key.as_str()) {
                    Some(n) => *n,
                    None => 0,
                };
                let attempts: u8 = failed_before + 1;
                if attempts < LOAD_MAX_ATTEMPTS {
                    self.attempts.insert(key.text(), attempts);
                    let _ = self.by_device.remove(key.as_str());
                    assert(old(self)@.stores(self@, key@, result, false, true, still_present));
                    return None;
                }
                let _ = self.attempts.remove(key.as_str());
                let message = e.message();
                self.by_device.insert(key.text(), Load::Failed(message));
                assert(self@ == old(self)@.settled(key@, Load::Failed(message)));
                assert(old(self)@.stores(self@, key@, result, false, true, still_present));
                None
            },
        }
    }
}

/// Flagging a resolved device arms exactly one refresh: the flag is claimed once,
/// and while that refresh is in flight flagging again arms nothing. Once it has
/// ended, the device can be flagged again.
pub proof fn stale_flag_is_claimed_once<T>(state: LoadState<T>, key: Seq<char>)
    requires
        state.ready(key),
        !state.refreshing.contains(key),
    ensures
        ({
            let flagged = state.flagged_stale(key);
            let begun = flagged.refresh_begun(key);
            &&& flagged.stale.contains(key)
            &&& begun.by_device == state.by_device
            &&& !begun.stale.contains(key)
            &&& begun.refresh_begun(key) == begun
            &&& begun.flagged_stale(key) == begun
            &&& begun.refresh_ended(key).flagged_stale(key).stale.contains(key)
        }),
{
}

/// A device that is not resolved cannot be armed for a refresh.
pub proof fn unresolved_device_is_not_flagged<T>(state: LoadState<T>, key: Seq<char>)
    requires
        !state.ready(key),
    ensures
        state.flagged_stale(key) == state,
{
}

/// A refresh that fails changes nothing that is shown, spends no retry budget,
/// and lets the device be flagged again.
pub proof fn failed_refresh_keeps_what_is_shown<T: Clone>(
    state: LoadState<T>,
    next: LoadState<T>,
    key: Seq<char>,
    failure: WriteError,
)
    requires
        state.refreshes(next, key, Err(failure)),
    ensures
        next.by_device == state.by_device,
        next.attempts == state.attempts,
        next.stale == state.stale,
        !next.refreshing.contains(key),
        state.ready(key) ==> next.flagged_stale(key).stale.contains(key),
{
}

/// Three transient failures in a row settle a device on `Failed`; after the
/// first and the second it is read again.
pub proof fn third_transient_failure_settles<T>(
    start: LoadState<T>,
    first: LoadState<T>,
    second: LoadState<T>,
    third: LoadState<T>,
    key: Seq<char>,
    failures: (WriteError, WriteError, WriteError),
)
    requires
        start.failures(key) == 0,
        start.stores(first, key, Err(failures.0), false, true, true),
        first.stores(second, key, Err(failures.1), false, true, true),
        second.stores(third, key, Err(failures.2), false, true, true),
    ensures
        !first.by_device.contains_key(key),
        first.failures(key) == 1,
        !second.by_device.contains_key(key),
        second.failures(key) == 2,
        third.by_device.contains_key(key),
        third.by_device[key] matches Load::Failed(message) && message@ == error::error_text(
            failures.2,
        ),
        third.failures(key) == 0,
{
}

/// A permanent error settles a device at once, so that it is not read again,
/// and a delivered value or a permanent error gives the retry budget back.
pub proof fn settled_device_is_not_read_again<T>(
    state: LoadState<T>,
    next: LoadState<T>,
    key: Seq<char>,
    result: Result<T, WriteError>,
    permanent: bool,
    still_present: bool,
)
    requires
        state.stores(next, key, result, permanent, true, still_present),
        result is Ok || permanent,
    ensures
        next.by_device.contains_key(key),
        next.failures(key) == 0,
        result is Err ==> next.by_device[key] is Unsupported,
        result matches Ok(value) ==> next.by_device[key] == Load::Ready(value),
{
}

/// The result of a read that targeted a route the device no longer holds is
/// never shown: the device is read again, or it is gone and left as it was.
pub proof fn stale_route_result_is_not_shown<T>(
    state: LoadState<T>,
    next: LoadState<T>,
    key: Seq<char>,
    result: Result<T, WriteError>,
    permanent: bool,
    still_present: bool,
)
    requires
        state.stores(next, key, result, permanent, false, still_present),
    ensures
        still_present ==> !next.by_device.contains_key(key),
        !still_present ==> next == state,
        next.attempts == state.attempts,
{
}

/// Storing a read of one device leaves every other device as it was.
pub proof fn storing_leaves_other_devices_alone<T>(
    state: LoadState<T>,
    next: LoadState<T>,
    key: Seq<char>,
    other: Seq<char>,
    result: Result<T, WriteError>,
    permanent: bool,
    matches_route: bool,
    still_present: bool,
)
    requires
        state.stores(next, key, result, permanent, matches_route, still_present),
        other != key,
    ensures
        next.by_device.contains_key(other) == state.by_device.contains_key(other),
        next.by_device.contains_key(other) ==> next.by_device[other] == state.by_device[other],
        next.failures(other) == state.failures(other),
        next.stale == state.stale,
        next.refreshing == state.refreshing,
{
}

/// `Unknown` means unqueried: a status that is a clone of what is recorded, or
/// `Unknown` where nothing is, is `Unknown` exactly where nothing is recorded.
pub proof fn unknown_means_unqueried<T: Clone>(state: LoadState<T>, key: Seq<char>, status: Load<T>)
    requires
        state.valid(),
        if state.by_device.contains_key(key) {
            load_cloned(state.by_device[key], status)
        } else {
            status is Unknown
        },
    ensures
        status is Unknown <==> !state.by_device.contains_key(key),
{
}

/// A forgotten device is as one that was never seen: unqueried, with its whole
/// retry budget, and with no refresh flag left behind.
pub proof fn forgotten_device_is_as_new<T>(state: LoadState<T>, key: Seq<char>)
    ensures
        ({
            let next = state.forgotten(key);
            &&& !next.by_device.contains_key(key)
            &&& next.failures(key) == 0
            &&& !next.stale.contains(key)
            &&& !next.refreshing.contains(key)
            &&& next.refresh_begun(key) == next
            &&& next.forgotten(key) == next
        }),
{
    assert(state.forgotten(key).forgotten(key) =~= state.forgotten(key));
}

/// What each operation does to the device it names.
pub proof fn operations_on_the_named_device<T>(state: LoadState<T>, key: Seq<char>, load: Load<T>)
    ensures
        // Recording a load state records it, and touches no count or flag.
        state.with(key, load).by_device.contains_key(key),
        state.with(key, load).by_device[key] == load,
        state.with(key, load).attempts == state.attempts,
        state.with(key, load).stale == state.stale,
        state.with(key, load).refreshing == state.refreshing,
        // Only a loading marker is cleared.
        state.loading_cleared(key).by_device.contains_key(key) <==> (state.by_device.contains_key(
            key,
        ) && !(state.by_device[key] is Loading)),
        state.loading_cleared(key).by_device.contains_key(key) ==> state.loading_cleared(
            key,
        ).by_device[key] == state.by_device[key],
        state.loading_cleared(key).attempts == state.attempts,
        state.loading_cleared(key).stale == state.stale,
        state.loading_cleared(key).refreshing == state.refreshing,
        // Forgetting leaves nothing.
        !state.forgotten(key).by_device.contains_key(key),
        !state.forgotten(key).attempts.contains_key(key),
        !state.forgotten(key).stale.contains(key),
        !state.forgotten(key).refreshing.contains(key),
        // A resolved device without a refresh in flight is flagged, and no other.
        state.flagged_stale(key).stale.contains(key) <==> (state.stale.contains(key) || (
        state.by_device.contains_key(key) && state.by_device[key] is Ready
            && !state.refreshing.contains(key))),
        state.flagged_stale(key).by_device == state.by_device,
        state.flagged_stale(key).attempts == state.attempts,
        state.flagged_stale(key).refreshing == state.refreshing,
        // A refresh takes the flag and is in flight exactly if there was one.
        !state.refresh_begun(key).stale.contains(key),
        state.refresh_begun(key).refreshing.contains(key) <==> (state.refreshing.contains(key)
            || state.stale.contains(key)),
        state.refresh_begun(key).by_device == state.by_device,
        state.refresh_begun(key).attempts == state.attempts,
        // Ending a refresh ends that refresh alone.
        !state.refresh_ended(key).refreshing.contains(key),
        state.refresh_ended(key).by_device == state.by_device,
        state.refresh_ended(key).attempts == state.attempts,
        state.refresh_ended(key).stale == state.stale,
{
}

/// Whether nothing that `a` and `b` hold of `key` differs.
pub open spec fn same_for<T>(a: LoadState<T>, b: LoadState<T>, key: Seq<char>) -> bool {
    &&& a.by_device.contains_key(key) == b.by_device.contains_key(key)
    &&& a.by_device.contains_key(key) ==> a.by_device[key] == b.by_device[key]
    &&& a.attempts.contains_key(key) == b.attempts.contains_key(key)
    &&& a.attempts.contains_key(key) ==> a.attempts[key] == b.attempts[key]
    &&& a.stale.contains(key) == b.stale.contains(key)
    &&& a.refreshing.contains(key) == b.refreshing.contains(key)
}

/// An operation on one device leaves every other device as it was.
pub proof fn operations_leave_other_devices_alone<T: Clone>(
    state: LoadState<T>,
    next: LoadState<T>,
    key: Seq<char>,
    other: Seq<char>,
    load: Load<T>,
    result: Result<T, WriteError>,
)
    requires
        other != key,
        state.refreshes(next, key, result),
    ensures
        same_for(state.with(key, load), state, other),
        same_for(state.unqueried(key), state, other),
        same_for(state.loading_cleared(key), state, other),
        same_for(state.forgotten(key), state, other),
        same_for(state.flagged_stale(key), state, other),
        same_for(state.refresh_begun(key), state, other),
        same_for(state.refresh_ended(key), state, other),
        same_for(next, state, other),
{
}

/// A read of a device on its route ends in one of four ways: with its value, with
/// `Unsupported` after a permanent error, unqueried again after the first and the
/// second transient error in a row, and with `Failed` after the third. A message is
/// that of the last error.
pub proof fn read_settles_or_is_repeated<T>(
    state: LoadState<T>,
    next: LoadState<T>,
    key: Seq<char>,
    result: Result<T, WriteError>,
    permanent: bool,
    still_present: bool,
    failed_before: int,
)
    requires
        state.stores(next, key, result, permanent, true, still_present),
        failed_before == (if state.attempts.contains_key(key) {
            state.attempts[key] as int
        } else {
            0
        }),
        0 <= failed_before < 3,
    ensures
        next.stale == state.stale,
        next.refreshing == state.refreshing,
        match result {
            Ok(value) => {
                &&& next.by_device.contains_key(key)
                &&& next.by_device[key] == Load::Ready(value)
                &&& !next.attempts.contains_key(key)
            },
            Err(e) => if permanent {
                &&& next.by_device.contains_key(key)
                &&& !next.attempts.contains_key(key)
                &&& next.by_device[key] matches Load::Unsupported(message)
                &&& message@ == error::error_text(e)
            } else if failed_before < 2 {
                &&& !next.by_device.contains_key(key)
                &&& next.attempts.contains_key(key)
                &&& next.attempts[key] == failed_before + 1
            } else {
                &&& next.by_device.contains_key(key)
                &&& !next.attempts.contains_key(key)
                &&& next.by_device[key] matches Load::Failed(message)
                &&& message@ == error::error_text(e)
            },
        },
{
}

/// A refresh that brought a value shows a clone of it; whatever it brought, it is no
/// longer in flight.
pub proof fn delivered_refresh_is_shown<T: Clone>(
    state: LoadState<T>,
    next: LoadState<T>,
    key: Seq<char>,
    value: T,
)
    requires
        state.refreshes(next, key, Ok(value)),
    ensures
        next.by_device.contains_key(key),
        next.by_device[key] matches Load::Ready(shown) && cloned(value, shown),
        !next.refreshing.contains(key),
        next.attempts == state.attempts,
        next.stale == state.stale,
{
}

/// A cache that was just made holds nothing of any device.
pub proof fn new_cache_knows_no_device<T>(key: Seq<char>)
    ensures
        !LoadState::<T>::empty().by_device.contains_key(key),
        !LoadState::<T>::empty().attempts.contains_key(key),
        !LoadState::<T>::empty().stale.contains(key),
        !LoadState::<T>::empty().refreshing.contains(key),
{
}

/// A copy of a load is in the same state, and shows the same message where it failed.
pub proof fn copied_load_is_in_the_same_state<T: Clone>(load: Load<T>, copy: Load<T>)
    requires
        load_cloned(load, copy),
    ensures
        copy is Unknown <==> load is Unknown,
        copy is Loading <==> load is Loading,
        copy is Ready <==> load is Ready,
        load matches Load::Ready(value) ==> cloned(value, copy->Ready_0),
        load matches Load::Failed(message) ==> copy == Load::<T>::Failed(message),
        load matches Load::Unsupported(message) ==> copy == Load::<T>::Unsupported(message),
{
}

} // verus!
