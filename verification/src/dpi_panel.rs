//! Device DPI controls.
//!
//! The slider range comes from the selected device's DPI capability. Capability
//! discovery runs in the background and only exact device-supported values are
//! offered once the list is known.

use vstd::prelude::*;

use crate::device;
use crate::device::{DeviceKey, DeviceRoute};
use crate::device_read::{device_read_step, ReadEvent, ReadStep};
use crate::dpi;
use crate::dpi::{Dpi, DpiCapabilities, DpiInfo};
use crate::error::WriteError;
use crate::load::Load;
use crate::state::{AppState, DpiStatus};
use crate::text;

verus! {

/// Whether a failed read of resolutions is not worth repeating: a missing
/// feature and an empty list never change.
pub fn dpi_error_is_permanent(error: &WriteError) -> (permanent: bool)
    ensures
        permanent == (*error is FeatureUnsupported || *error is EmptyDpiList),
{
    match error {
        WriteError::FeatureUnsupported { feature_hex: _ } => true,
        WriteError::EmptyDpiList => true,
        _ => false,
    }
}

/// Which read of resolutions is due.
#[derive(Debug, Clone, Copy, PartialEq, Eq, Structural)]
pub enum DpiRead {
    /// The first one of a device, which shows a loading marker.
    Initial,
    /// A silent one of a device whose value may be out of date; the cached value
    /// stays on screen until the fresh one lands.
    Refresh,
}

/// What the panel shows of the active device.
pub struct DpiPanelSnapshot {
    /// The device; the empty key if there is none.
    pub device_key: DeviceKey,
    /// Its resolution.
    pub dpi: Dpi,
    /// The presets.
    pub presets: Vec<Dpi>,
    /// What was read of it.
    pub status: DpiStatus,
    /// Whether the active device currently has a usable route. An offline
    /// device sits in `Unknown` forever, so it is shown as offline rather than
    /// as being read.
    pub reachable: bool,
}

/// Whether two load states show the same, their payloads compared by contents.
pub open spec fn shows_same_dpi(a: DpiStatus, b: DpiStatus) -> bool {
    match (a, b) {
        (Load::Ready(x), Load::Ready(y)) => x.current == y.current && x.capabilities@
            == y.capabilities@,
        _ => a == b,
    }
}

impl AppState {
    /// What was read of the active device's resolutions, if anything is recorded.
    pub open spec fn recorded_dpi(&self) -> Option<DpiStatus> {
        match self.current() {
            Some(record) if self.reads.dpi@.by_device.contains_key(record.key@) => Some(
                self.reads.dpi@.by_device[record.key@],
            ),
            _ => None,
        }
    }

    /// Whether `key` is the active device.
    pub open spec fn is_current(&self, key: Seq<char>) -> bool {
        self.current() is Some && self.current()->0.key@ == key
    }

    /// Whether `value` is `wanted` as the active device can have it: the nearest
    /// supported value, or `wanted` itself as long as the supported values are not
    /// known.
    pub open spec fn normalizes(&self, wanted: Dpi, value: Dpi) -> bool {
        match self.recorded_dpi() {
            Some(Load::Ready(info)) => dpi::is_nearest(info.capabilities@, wanted, value),
            _ => value == wanted,
        }
    }

    /// Whether `active` is the preset that is highlighted at the resolution
    /// `current`: the first one that the active device has as `current`.
    pub open spec fn highlights_preset(
        &self,
        presets: Seq<Dpi>,
        current: Dpi,
        active: Option<usize>,
    ) -> bool {
        match active {
            Some(i) => {
                &&& i < presets.len()
                &&& self.normalizes(presets[i as int], current)
                &&& forall|j: int| 0 <= j < i ==> !self.normalizes(#[trigger] presets[j], current)
            },
            None => forall|j: int|
                0 <= j < presets.len() ==> !self.normalizes(#[trigger] presets[j], current),
        }
    }

    /// The resolutions the active device supports, once they are known.
    pub fn active_dpi_capabilities(&self) -> (capabilities: Option<&DpiCapabilities>)
        requires
            self.wf(),
        ensures
            match (self.recorded_dpi(), capabilities) {
                (Some(Load::Ready(info)), Some(capabilities)) => info.capabilities == *capabilities,
                (Some(Load::Ready(_)), None) => false,
                (_, Some(_)) => false,
                (_, None) => true,
            },
    {
        match self.current_record() {
            Some(record) => match self.reads.dpi.get(&record.device_key()) {
                Some(Load::Ready(info)) => Some(&info.capabilities),
                _ => None,
            },
            None => None,
        }
    }

    /// `wanted` as the active device can have it: the nearest supported value,
    /// or `wanted` itself as long as the supported values are not known.
    pub fn normalize_active_dpi(&self, wanted: Dpi) -> (normalized: Dpi)
        requires
            self.wf(),
        ensures
            self.normalizes(wanted, normalized),
    {
        match self.active_dpi_capabilities() {
            Some(capabilities) => capabilities.nearest(wanted),
            None => wanted,
        }
    }

    /// The value that a click on the preset `value` applies: the nearest supported
    /// one. Nothing is applied before the supported values are known, so that a
    /// read that lands afterwards cannot undo it.
    pub fn preset_target(&self, value: Dpi) -> (target: Option<Dpi>)
        requires
            self.wf(),
        ensures
            match (self.recorded_dpi(), target) {
                (Some(Load::Ready(info)), Some(target)) => dpi::is_nearest(
                    info.capabilities@,
                    value,
                    target,
                ),
                (Some(Load::Ready(_)), None) => false,
                (_, Some(_)) => false,
                (_, None) => true,
            },
    {
        match self.active_dpi_capabilities() {
            Some(capabilities) => Some(capabilities.nearest(value)),
            None => None,
        }
    }

    /// The active device, if its resolutions were never read and it can be reached.
    pub fn dpi_load_target(&self) -> (target: Option<(DeviceKey, DeviceRoute)>)
        requires
            self.wf(),
        ensures
            match target {
                Some((key, route)) => {
                    &&& self.current() matches Some(record)
                    &&& key@ == record.key@
                    &&& device::route_view(record.route) == Some(route@)
                    &&& self.recorded_dpi() is None
                },
                None => !self.reachable() || self.recorded_dpi() is Some,
            },
    {
        match self.current_record() {
            Some(record) => {
                let key = record.device_key();
                if !self.reads.dpi.unqueried(&key) {
                    return None;
                }
                match &record.route {
                    Some(route) => Some((key, route.clone())),
                    None => None,
                }
            },
            None => None,
        }
    }

    /// The active device, when its resolved DPI is flagged stale — claiming the
    /// flag so one render issues one read.
    pub fn dpi_refresh_target(&mut self) -> (target: Option<(DeviceKey, DeviceRoute)>)
        requires
            old(self).wf(),
        ensures
            final(self).wf(),
            final(self).same_but_dpi(*old(self)),
            final(self).dpi == old(self).dpi,
            match target {
                Some((key, route)) => {
                    &&& old(self).current() matches Some(record)
                    &&& key@ == record.key@
                    &&& device::route_view(record.route) == Some(route@)
                    &&& old(self).reads.dpi@.stale.contains(key@)
                    &&& final(self).reads.dpi@ == old(self).reads.dpi@.refresh_begun(key@)
                },
                None => {
                    &&& !old(self).reachable() || !old(self).reads.dpi@.stale.contains(
                        old(self).current()->0.key@,
                    )
                    &&& final(self).reads.dpi@ == old(self).reads.dpi@
                },
            },
    {
        let (key, route) = match self.current_record() {
            Some(record) => match &record.route {
                Some(route) => (record.device_key(), route.clone()),
                None => {
                    return None;
                },
            },
            None => {
                return None;
            },
        };
        if self.reads.dpi.begin_refresh(&key) {
            Some((key, route))
        } else {
            None
        }
    }

    /// Starts the read of the active device's resolutions that is due, if any:
    /// the first one, which marks the device as loading, or else a refresh.
    pub fn ensure_dpi_load(&mut self) -> (read: Option<(DpiRead, DeviceKey, DeviceRoute)>)
        requires
            old(self).wf(),
        ensures
            final(self).wf(),
            final(self).same_but_dpi(*old(self)),
            final(self).dpi == old(self).dpi,
            match read {
                Some((kind, key, route)) => {
                    &&& old(self).current() matches Some(record)
                    &&& key@ == record.key@
                    &&& device::route_view(record.route) == Some(route@)
                    &&& match kind {
                        DpiRead::Initial => {
                            &&& old(self).recorded_dpi() is None
                            &&& final(self).reads.dpi@ == old(self).reads.dpi@.with(
                                key@,
                                Load::Loading,
                            )
                        },
                        DpiRead::Refresh => {
                            &&& old(self).recorded_dpi() is Some
                            &&& old(self).reads.dpi@.stale.contains(key@)
                            &&& final(self).reads.dpi@ == old(self).reads.dpi@.refresh_begun(key@)
                        },
                    }
                },
                None => {
                    &&& !old(self).reachable() || (old(self).recorded_dpi() is Some && !old(
                        self,
                    ).reads.dpi@.stale.contains(old(self).current()->0.key@))
                    &&& final(self).reads.dpi@ == old(self).reads.dpi@
                },
            },
    {
        match self.dpi_load_target() {
            Some((key, route)) => {
                self.reads.dpi.mark_loading(&key);
                Some((DpiRead::Initial, key, route))
            },
            None => match self.dpi_refresh_target() {
                Some((key, route)) => Some((DpiRead::Refresh, key, route)),
                None => None,
            },
        }
    }

    /// Stores a first read, only while its physical device and route still match.
    /// The value of the active device becomes the current one.
    pub fn store_dpi_info(
        &mut self,
        key: DeviceKey,
        route: &DeviceRoute,
        result: Result<DpiInfo, WriteError>,
    )
        requires
            old(self).wf(),
        ensures
            final(self).wf(),
            final(self).same_but_dpi(*old(self)),
            old(self).reads.dpi@.stores(
                final(self).reads.dpi@,
                key@,
                result,
                result is Err && (result->Err_0 is FeatureUnsupported
                    || result->Err_0 is EmptyDpiList),
                old(self).on_route(key@, route@),
                old(self).listed(key@),
            ),
            final(self).dpi == (if result is Ok && old(self).on_route(key@, route@) && old(
                self,
            ).is_current(key@) {
                result->Ok_0.current
            } else {
                old(self).dpi
            }),
    {
        let active = self.is_active(&key);
        let matches_route = self.is_on_route(&key, route);
        let still_present = self.is_listed(&key);
        let resolved = self.reads.dpi.store(
            key,
            result,
            dpi_error_is_permanent,
            matches_route,
            still_present,
            "DPI",
        );
        if let Some(info) = resolved {
            if active {
                self.dpi = info.current;
            }
        }
    }

    /// Stores a silent refresh, only while its physical device and route still
    /// match; otherwise only the refresh ends. The value of the active device
    /// becomes the current one, but not out of the hand of a user who is dragging
    /// the slider.
    pub fn store_dpi_refresh(
        &mut self,
        key: DeviceKey,
        route: &DeviceRoute,
        result: Result<DpiInfo, WriteError>,
    )
        requires
            old(self).wf(),
        ensures
            final(self).wf(),
            final(self).same_but_dpi(*old(self)),
            if old(self).on_route(key@, route@) {
                old(self).reads.dpi@.refreshes(final(self).reads.dpi@, key@, result)
            } else {
                final(self).reads.dpi@ == old(self).reads.dpi@.refresh_ended(key@)
            },
            final(self).dpi == (if result is Ok && old(self).on_route(key@, route@) && old(
                self,
            ).is_current(key@) && !old(self).dpi_dragging {
                result->Ok_0.current
            } else {
                old(self).dpi
            }),
    {
        if !self.is_on_route(&key, route) {
            self.reads.dpi.clear_refreshing(&key);
            return;
        }
        let active = self.is_active(&key);
        let resolved = self.reads.dpi.store_refresh(key, result, "DPI");
        if let Some(info) = resolved {
            if active && !self.dpi_dragging {
                self.dpi = info.current;
            }
        }
    }

    fn is_active(&self, key: &DeviceKey) -> (active: bool)
        ensures
            active == self.is_current(key@),
    {
        match self.current_record() {
            Some(record) => record.key.same(key),
            None => false,
        }
    }

    /// Ends a read of resolutions that brought nothing: a first read drops its
    /// loading marker, a refresh its claim.
    pub fn clear_dpi_read(&mut self, read: DpiRead, key: &DeviceKey)
        requires
            old(self).wf(),
        ensures
            final(self).wf(),
            final(self).same_but_dpi(*old(self)),
            final(self).dpi == old(self).dpi,
            final(self).reads.dpi@ == (match read {
                DpiRead::Initial => old(self).reads.dpi@.loading_cleared(key@),
                DpiRead::Refresh => old(self).reads.dpi@.refresh_ended(key@),
            }),
    {
        match read {
            DpiRead::Initial => {
                self.reads.dpi.clear_loading(key);
            },
            DpiRead::Refresh => {
                self.reads.dpi.clear_refreshing(key);
            },
        }
    }

    /// Ends a read of resolutions.
    pub fn finish_dpi_read(
        &mut self,
        read: DpiRead,
        key: DeviceKey,
        route: &DeviceRoute,
        event: ReadEvent<Result<DpiInfo, WriteError>>,
    )
        requires
            old(self).wf(),
        ensures
            final(self).wf(),
            final(self).same_but_dpi(*old(self)),
            match (event, read) {
                (ReadEvent::Delivered(result), DpiRead::Initial) => old(self).reads.dpi@.stores(
                    final(self).reads.dpi@,
                    key@,
                    result,
                    result is Err && (result->Err_0 is FeatureUnsupported
                        || result->Err_0 is EmptyDpiList),
                    old(self).on_route(key@, route@),
                    old(self).listed(key@),
                ),
                (ReadEvent::Delivered(result), DpiRead::Refresh) => if old(self).on_route(
                    key@,
                    route@,
                ) {
                    old(self).reads.dpi@.refreshes(final(self).reads.dpi@, key@, result)
                } else {
                    final(self).reads.dpi@ == old(self).reads.dpi@.refresh_ended(key@)
                },
                (_, DpiRead::Initial) => final(self).reads.dpi@ == old(
                    self,
                ).reads.dpi@.loading_cleared(key@),
                (_, DpiRead::Refresh) => final(self).reads.dpi@ == old(
                    self,
                ).reads.dpi@.refresh_ended(key@),
            },
            final(self).dpi == (match event {
                ReadEvent::Delivered(Ok(info)) => if old(self).on_route(key@, route@) && old(
                    self,
                ).is_current(key@) && (read == DpiRead::Initial || !old(self).dpi_dragging) {
                    info.current
                } else {
                    old(self).dpi
                },
                _ => old(self).dpi,
            }),
    {
        match device_read_step(event) {
            ReadStep::Store(result) => match read {
                DpiRead::Initial => self.store_dpi_info(key, route, result),
                DpiRead::Refresh => self.store_dpi_refresh(key, route, result),
            },
            ReadStep::Clear => self.clear_dpi_read(read, &key),
        }
    }

    /// What the panel shows. `presets` are the presets of the active device;
    /// `fallback` is the resolution shown without one, with `no_device` as the
    /// reason why none is available.
    pub fn dpi_panel_snapshot(
        &self,
        presets: Vec<Dpi>,
        fallback: Dpi,
        no_device: String,
    ) -> (snapshot: DpiPanelSnapshot)
        requires
            self.wf(),
        ensures
            match self.current() {
                Some(record) => {
                    &&& snapshot.device_key@ == record.key@
                    &&& snapshot.dpi == self.dpi
                    &&& snapshot.presets == presets
                    &&& match self.recorded_dpi() {
                        Some(recorded) => shows_same_dpi(recorded, snapshot.status),
                        None => snapshot.status is Unknown,
                    }
                    &&& snapshot.reachable == self.reachable()
                },
                None => {
                    &&& snapshot.device_key@ == Seq::<char>::empty()
                    &&& snapshot.dpi == fallback
                    &&& snapshot.presets.len() == 0
                    &&& snapshot.status == DpiStatus::Unsupported(no_device)
                    &&& !snapshot.reachable
                },
            },
    {
        match self.current_record() {
            Some(record) => {
                let device_key = record.device_key();
                DpiPanelSnapshot {
                    status: self.reads.dpi.status(&device_key),
                    device_key,
                    dpi: self.dpi,
                    presets,
                    reachable: record.route.is_some(),
                }
            },
            None => DpiPanelSnapshot {
                device_key: DeviceKey::default(),
                dpi: fallback,
                presets: Vec::new(),
                status: Load::Unsupported(no_device),
                reachable: false,
            },
        }
    }

    /// The slider moved to `dpi`: the label follows, and until the release no
    /// refresh may move the slider.
    pub fn slider_changed(&mut self, dpi: Dpi)
        requires
            old(self).wf(),
        ensures
            final(self).wf(),
            *final(self) == (AppState {
                dpi: final(self).dpi,
                dpi_dragging: true,
                ..*old(self)
            }),
            old(self).normalizes(dpi, final(self).dpi),
    {
        let normalized = self.normalize_active_dpi(dpi);
        self.dpi = normalized;
        self.dpi_dragging = true;
    }

    /// The slider was released at `dpi`: the result is to be written to the active
    /// device.
    pub fn slider_released(&mut self, dpi: Dpi) -> (commit: Dpi)
        requires
            old(self).wf(),
        ensures
            final(self).wf(),
            *final(self) == (AppState { dpi_dragging: false, ..*old(self) }),
            old(self).normalizes(dpi, commit),
    {
        let normalized = self.normalize_active_dpi(dpi);
        self.dpi_dragging = false;
        normalized
    }
}

/// Range and step of a slider.
#[derive(Debug, Clone, Copy, PartialEq, Eq, Structural)]
pub struct SliderShape {
    /// Lowest value.
    pub min: Dpi,
    /// Highest value.
    pub max: Dpi,
    /// Distance between values.
    pub step: Dpi,
}

/// What is to be done with the slider.
#[derive(Debug, Clone, Copy, PartialEq, Eq, Structural)]
pub enum SliderPlan {
    /// Drop it: the supported values are not known.
    Drop,
    /// Leave it as it is.
    Keep,
    /// Move its thumb.
    Reseat(Dpi),
    /// Build a new one.
    Build {
        /// Range and step.
        shape: SliderShape,
        /// Where the thumb starts.
        value: Dpi,
    },
}

/// The shape of a slider over `values`.
pub open spec fn slider_shape(values: Seq<Dpi>, step: Dpi) -> SliderShape {
    SliderShape { min: values.first(), max: values.last(), step }
}

/// Whether `plan` is what is to be done with the slider of a device that supports
/// `values` and is at `dpi`. A slider of another device or shape is built anew,
/// its thumb on the supported value nearest to `dpi`. A `present` one has its
/// thumb moved there unless it already rests nearest to the same value.
pub open spec fn slider_planned(
    plan: SliderPlan,
    present: bool,
    values: Seq<Dpi>,
    shape: SliderShape,
    dpi: Dpi,
    thumb: Dpi,
) -> bool {
    match plan {
        SliderPlan::Drop => false,
        SliderPlan::Keep => present && exists|value: Dpi|
            #[trigger] dpi::is_nearest(values, dpi, value) && dpi::is_nearest(values, thumb, value),
        SliderPlan::Reseat(value) => present && dpi::is_nearest(values, dpi, value)
            && !dpi::is_nearest(values, thumb, value),
        SliderPlan::Build { shape: built, value } => !present && built == shape && dpi::is_nearest(
            values,
            dpi,
            value,
        ),
    }
}

/// The panel: which device and range its slider was built for. The slider is
/// rebuilt whenever either changes.
pub struct DpiPanel {
    slider: Option<(String, SliderShape)>,
}

impl View for DpiPanel {
    type V = Option<(Seq<char>, SliderShape)>;

    closed spec fn view(&self) -> Option<(Seq<char>, SliderShape)> {
        match self.slider {
            Some((key, shape)) => Some((key@, shape)),
            None => None,
        }
    }
}

impl DpiPanel {
    /// A panel without a slider.
    pub fn new() -> (panel: Self)
        ensures
            panel@ is None,
    {
        DpiPanel { slider: None }
    }

    /// Brings the slider up to date for the device `key` at the resolution `dpi`.
    /// `step` is the distance between slider values; `thumb` is where the thumb of
    /// the present slider rests.
    ///
    /// The thumb is only moved when `dpi` resolves to a *different supported
    /// value* than the thumb rests on. Comparing supported values keeps a drag
    /// that lands between them from yanking the thumb back every frame.
    pub fn ensure_slider(
        &mut self,
        key: &str,
        capabilities: &DpiCapabilities,
        step: Dpi,
        dpi: Dpi,
        thumb: Dpi,
    ) -> (plan: SliderPlan)
        ensures
            final(self)@ == Some((key@, slider_shape(capabilities@, step))),
            slider_planned(
                plan,
                old(self)@ == final(self)@,
                capabilities@,
                slider_shape(capabilities@, step),
                dpi,
                thumb,
            ),
    {
        let shape = SliderShape { min: capabilities.min(), max: capabilities.max(), step };
        let target = capabilities.nearest(dpi);
        let present = match &self.slider {
            Some((built_for, built)) => text::same(built_for.as_str(), key) && *built == shape,
            None => false,
        };
        if present {
            let rests = capabilities.nearest(thumb);
            if rests == target {
                SliderPlan::Keep
            } else {
                proof {
                    if dpi::is_nearest(capabilities@, thumb, target) {
                        dpi::nearest_is_unique(capabilities@, thumb, target, rests);
                    }
                }
                SliderPlan::Reseat(target)
            }
        } else {
            self.slider = Some((key.to_owned(), shape));
            SliderPlan::Build { shape, value: target }
        }
    }

    /// What the panel shows of `snapshot`, and what is to be done with the slider.
    /// Presets are compared as the active device of `state` can have them; `step`
    /// is the distance between slider values, and `thumb` is where the thumb rests.
    pub fn render(
        &mut self,
        state: &AppState,
        snapshot: &DpiPanelSnapshot,
        step: Dpi,
        thumb: Dpi,
    ) -> (view: DpiPanelView)
        requires
            state.wf(),
        ensures
            match snapshot.status {
                Load::Ready(info) => {
                    &&& final(self)@ == Some(
                        (snapshot.device_key@, slider_shape(info.capabilities@, step)),
                    )
                    &&& slider_planned(
                        view.slider,
                        old(self)@ == final(self)@,
                        info.capabilities@,
                        slider_shape(info.capabilities@, step),
                        snapshot.dpi,
                        thumb,
                    )
                },
                _ => final(self)@ is None && view.slider is Drop,
            },
            state.highlights_preset(snapshot.presets@, snapshot.dpi, view.active_preset),
            view.label.describes(snapshot.status, snapshot.reachable, step),
            view.body == slider_body(snapshot.status, final(self)@ is Some, snapshot.reachable),
    {
        let slider = match &snapshot.status {
            Load::Ready(info) => self.ensure_slider(
                snapshot.device_key.as_str(),
                &info.capabilities,
                step,
                snapshot.dpi,
                thumb,
            ),
            _ => {
                self.slider = None;
                SliderPlan::Drop
            },
        };
        let normalized = normalized_presets(state, &snapshot.presets);
        let active = active_preset(&normalized, snapshot.dpi);
        proof {
            lemma_highlighted(*state, snapshot.presets@, normalized@, snapshot.dpi, active);
        }
        DpiPanelView {
            slider,
            active_preset: active,
            label: dpi_range_label(&snapshot.status, snapshot.reachable, step),
            body: slider_element(&snapshot.status, self.slider.is_some(), snapshot.reachable),
        }
    }
}

/// What the panel shows.
pub struct DpiPanelView {
    /// What is to be done with the slider.
    pub slider: SliderPlan,
    /// The preset that is highlighted.
    pub active_preset: Option<usize>,
    /// The line below the slider.
    pub label: RangeLabel,
    /// What stands in the place of the slider.
    pub body: SliderBody,
}

/// Whether `active` is the first of `presets` that equals `current`, if there is
/// one.
pub open spec fn highlights(presets: Seq<Dpi>, current: Dpi, active: Option<usize>) -> bool {
    match active {
        Some(i) => {
            &&& i < presets.len()
            &&& presets[i as int] == current
            &&& forall|j: int| 0 <= j < i ==> #[trigger] presets[j] != current
        },
        None => forall|j: int| 0 <= j < presets.len() ==> #[trigger] presets[j] != current,
    }
}

/// The preset to highlight: when several presets snap to the same supported value
/// as the current resolution, only the first is active.
pub fn active_preset(normalized: &Vec<Dpi>, current: Dpi) -> (active: Option<usize>)
    ensures
        highlights(normalized@, current, active),
{
    let mut i: usize = 0;
    while i < normalized.len()
        invariant
            i <= normalized.len(),
            forall|j: int| 0 <= j < i ==> #[trigger] normalized@[j] != current,
        decreases normalized.len() - i,
    {
        if normalized[i] == current {
            return Some(i);
        }
        i += 1;
    }
    None
}

/// The presets as the active device can have them.
pub fn normalized_presets(state: &AppState, presets: &Vec<Dpi>) -> (normalized: Vec<Dpi>)
    requires
        state.wf(),
    ensures
        normalized.len() == presets.len(),
        forall|i: int|
            0 <= i < presets.len() ==> state.normalizes(presets@[i], #[trigger] normalized@[i]),
{
    let mut normalized: Vec<Dpi> = Vec::new();
    let mut i: usize = 0;
    while i < presets.len()
        invariant
            state.wf(),
            i <= presets.len(),
            normalized.len() == i,
            forall|j: int|
                0 <= j < i ==> state.normalizes(presets@[j], #[trigger] normalized@[j]),
        decreases presets.len() - i,
    {
        normalized.push(state.normalize_active_dpi(presets[i]));
        i += 1;
    }
    normalized
}

/// The presets without the one at `index`; all of them if there is none.
pub fn without_preset(presets: &Vec<Dpi>, index: usize) -> (rest: Vec<Dpi>)
    ensures
        rest@ == (if index < presets.len() {
            presets@.remove(index as int)
        } else {
            presets@
        }),
{
    let mut rest = presets.clone();
    assert(rest@ =~= presets@);
    if index < rest.len() {
        let _ = rest.remove(index);
    }
    rest
}

/// The presets and `current` at their end. Duplicates are allowed — the same
/// value may be wanted at several positions of the cycle.
pub fn with_preset(presets: &Vec<Dpi>, current: Dpi) -> (more: Vec<Dpi>)
    ensures
        more@ == presets@.push(current),
{
    let mut more = presets.clone();
    assert(more@ =~= presets@);
    more.push(current);
    more
}

/// The line below the slider.
pub enum RangeLabel {
    /// The range and the step.
    Range(String),
    /// The device is offline; it must reconnect for its range to be read.
    Offline,
    /// The range is being read.
    Loading,
    /// The read failed; the text says how.
    Failed(String),
    /// There is no range; the text says why.
    Unavailable(String),
}

/// The range from `min` to `max` in steps of `step`: digits and symbols only.
pub open spec fn range_text(min: Dpi, max: Dpi, step: Dpi) -> Seq<char> {
    text::decimal_text(min.0 as nat) + "–"@ + text::decimal_text(max.0 as nat) + " · step "@
        + text::decimal_text(step.0 as nat)
}

impl RangeLabel {
    /// Whether this is the line for `status`.
    pub open spec fn describes(self, status: DpiStatus, reachable: bool, step: Dpi) -> bool {
        match (status, self) {
            (Load::Ready(info), RangeLabel::Range(label)) => label@ == range_text(
                info.capabilities@.first(),
                info.capabilities@.last(),
                step,
            ),
            (Load::Unknown, RangeLabel::Offline) => !reachable,
            (Load::Unknown, RangeLabel::Loading) => reachable,
            (Load::Loading, RangeLabel::Offline) => !reachable,
            (Load::Loading, RangeLabel::Loading) => reachable,
            (Load::Failed(message), RangeLabel::Failed(shown)) => shown@ == message@,
            (Load::Unsupported(message), RangeLabel::Unavailable(shown)) => shown@ == message@,
            _ => false,
        }
    }
}

/// The line below the slider for a device in state `status`; `step` is the
/// distance between slider values.
pub fn dpi_range_label(status: &DpiStatus, reachable: bool, step: Dpi) -> (label: RangeLabel)
    ensures
        label.describes(*status, reachable, step),
{
    match status {
        Load::Ready(info) => {
            let mut s = text::decimal(info.capabilities.min().0 as u64);
            s.append("–");
            s.append(text::decimal(info.capabilities.max().0 as u64).as_str());
            s.append(" · step ");
            s.append(text::decimal(step.0 as u64).as_str());
            RangeLabel::Range(s)
        },
        Load::Unknown => if reachable {
            RangeLabel::Loading
        } else {
            RangeLabel::Offline
        },
        Load::Loading => if reachable {
            RangeLabel::Loading
        } else {
            RangeLabel::Offline
        },
        Load::Failed(message) => RangeLabel::Failed(message.clone()),
        Load::Unsupported(message) => RangeLabel::Unavailable(message.clone()),
    }
}

/// What stands in the place of the slider.
#[derive(Debug, Clone, Copy, PartialEq, Eq, Structural)]
pub enum SliderBody {
    /// The only supported value: there is nothing to drag.
    Fixed(Dpi),
    /// The slider.
    Slider,
    /// The slider is being prepared.
    Preparing,
    /// The device is offline; its resolution is unavailable.
    Offline,
    /// The supported values are being read.
    Reading,
    /// The read failed; a click retries it.
    Retry,
    /// The device has no adjustable resolution.
    Unsupported,
}

/// What stands in the place of the slider for a device in state `status`.
pub open spec fn slider_body(status: DpiStatus, has_slider: bool, reachable: bool) -> SliderBody {
    match status {
        Load::Ready(info) => if info.capabilities@.first() == info.capabilities@.last() {
            SliderBody::Fixed(info.capabilities@.first())
        } else if has_slider {
            SliderBody::Slider
        } else {
            SliderBody::Preparing
        },
        Load::Unknown | Load::Loading => if reachable {
            SliderBody::Reading
        } else {
            SliderBody::Offline
        },
        Load::Failed(_) => SliderBody::Retry,
        Load::Unsupported(_) => SliderBody::Unsupported,
    }
}

/// Decides what stands in the place of the slider. A failed read is retried by a
/// click: reselecting is a no-op for a single device.
pub fn slider_element(status: &DpiStatus, has_slider: bool, reachable: bool) -> (body: SliderBody)
    ensures
        body == slider_body(*status, has_slider, reachable),
{
    match status {
        Load::Ready(info) => {
            let min = info.capabilities.min();
            if min == info.capabilities.max() {
                SliderBody::Fixed(min)
            } else if has_slider {
                SliderBody::Slider
            } else {
                SliderBody::Preparing
            }
        },
        Load::Unknown => if reachable {
            SliderBody::Reading
        } else {
            SliderBody::Offline
        },
        Load::Loading => if reachable {
            SliderBody::Reading
        } else {
            SliderBody::Offline
        },
        Load::Failed(_) => SliderBody::Retry,
        Load::Unsupported(_) => SliderBody::Unsupported,
    }
}

/// One render issues one read: a device that is marked as loading is no longer due
/// for its first read, and one whose refresh has begun is not due for another.
pub proof fn started_dpi_read_is_not_due(before: AppState, after: AppState)
    requires
        before.current() is Some,
        after.current() == before.current(),
    ensures
        ({
            let key = before.current()->0.key@;
            &&& after.reads.dpi@ == before.reads.dpi@.with(key, Load::Loading)
                ==> after.recorded_dpi() == Some(DpiStatus::Loading)
            &&& after.reads.dpi@ == before.reads.dpi@.refresh_begun(key)
                ==> !after.reads.dpi@.stale.contains(key) && after.recorded_dpi()
                == before.recorded_dpi()
        }),
{
}

proof fn lemma_highlighted(
    state: AppState,
    presets: Seq<Dpi>,
    normalized: Seq<Dpi>,
    current: Dpi,
    active: Option<usize>,
)
    requires
        normalized.len() == presets.len(),
        forall|i: int|
            0 <= i < presets.len() ==> state.normalizes(presets[i], #[trigger] normalized[i]),
        highlights(normalized, current, active),
    ensures
        state.highlights_preset(presets, current, active),
{
    assert forall|j: int| 0 <= j < presets.len() implies (state.normalizes(
        #[trigger] presets[j],
        current,
    ) <==> normalized[j] == current) by {
        normalized_value_is_unique(state, presets[j], normalized[j], current);
    }
}

/// A resolution has one value that the active device can have for it.
pub proof fn normalized_value_is_unique(state: AppState, wanted: Dpi, a: Dpi, b: Dpi)
    requires
        state.normalizes(wanted, a),
    ensures
        state.normalizes(wanted, b) <==> a == b,
{
    if state.normalizes(wanted, b) {
        if let Some(Load::Ready(info)) = state.recorded_dpi() {
            dpi::nearest_is_unique(info.capabilities@, wanted, a, b);
        }
    }
}

/// A preset is highlighted exactly if it is the first one that the active device
/// has as the current resolution: never two at a time.
pub proof fn first_matching_preset_is_highlighted(
    state: AppState,
    presets: Seq<Dpi>,
    current: Dpi,
    active: Option<usize>,
    i: usize,
)
    requires
        state.highlights_preset(presets, current, active),
    ensures
        active == Some(i) <==> {
            &&& i < presets.len()
            &&& state.normalizes(presets[i as int], current)
            &&& forall|j: int| 0 <= j < i ==> !state.normalizes(#[trigger] presets[j], current)
        },
{
    if let Some(found) = active {
        if found < i {
            assert(state.normalizes(presets[found as int], current));
        }
    }
}

/// Highlighting picks at most one preset.
pub proof fn one_preset_is_highlighted(
    presets: Seq<Dpi>,
    current: Dpi,
    a: Option<usize>,
    b: Option<usize>,
)
    requires
        highlights(presets, current, a),
        highlights(presets, current, b),
    ensures
        a == b,
{
    match (a, b) {
        (Some(i), Some(j)) => {
            if i < j {
                assert(presets[i as int] != current);
            }
            if j < i {
                assert(presets[j as int] != current);
            }
        },
        _ => {},
    }
}

/// Adding a preset and removing it again leaves the presets as they were.
pub proof fn added_preset_can_be_removed(presets: Seq<Dpi>, current: Dpi)
    ensures
        presets.push(current).remove(presets.len() as int) == presets,
{
    assert(presets.push(current).remove(presets.len() as int) =~= presets);
}

/// Whether `value` is the supported value nearest to `wanted`, the lower of two that
/// are equally near.
pub open spec fn snapped(values: Seq<Dpi>, wanted: int, value: int) -> bool {
    &&& exists|i: int| 0 <= i < values.len() && (#[trigger] values[i]).0 == value
    &&& forall|i: int|
        0 <= i < values.len() ==> {
            let off = if value < wanted {
                wanted - value
            } else {
                value - wanted
            };
            let other = if (#[trigger] values[i]).0 < wanted {
                wanted - values[i].0
            } else {
                values[i].0 - wanted
            };
            off < other || (off == other && value <= values[i].0)
        }
}

proof fn lemma_snapped(values: Seq<Dpi>, wanted: Dpi, value: Dpi)
    ensures
        dpi::is_nearest(values, wanted, value) <==> snapped(
            values,
            wanted.0 as int,
            value.0 as int,
        ),
{
    if dpi::is_nearest(values, wanted, value) {
        let i = choose|i: int| 0 <= i < values.len() && values[i] == value;
        assert(values[i].0 == value.0);
        assert forall|i: int| 0 <= i < values.len() implies {
            let off = if value.0 < wanted.0 {
                wanted.0 - value.0
            } else {
                value.0 - wanted.0
            };
            let other = if (#[trigger] values[i]).0 < wanted.0 {
                wanted.0 - values[i].0
            } else {
                values[i].0 - wanted.0
            };
            off < other || (off == other && value.0 <= values[i].0)
        } by {
            dpi::no_supported_value_is_nearer(values, wanted, value, i);
        }
    }
    if snapped(values, wanted.0 as int, value.0 as int) {
        let i = choose|i: int| 0 <= i < values.len() && (#[trigger] values[i]).0 == value.0;
        assert(values[i] == value);
    }
}

/// A resolution is normalized to the nearest value that the active device is known to
/// support, and left alone as long as nothing is known.
pub proof fn normalizing_snaps_to_what_is_known(
    state: AppState,
    record: device::DeviceRecord,
    wanted: Dpi,
    value: Dpi,
)
    requires
        state.current() == Some(record),
    ensures
        state.reads.dpi@.ready(record.key@) ==> (state.normalizes(wanted, value) <==> snapped(
            state.reads.dpi@.by_device[record.key@]->Ready_0.capabilities@,
            wanted.0 as int,
            value.0 as int,
        )),
        !state.reads.dpi@.ready(record.key@) ==> (state.normalizes(wanted, value) <==> value
            == wanted),
{
    if state.reads.dpi@.ready(record.key@) {
        lemma_snapped(
            state.reads.dpi@.by_device[record.key@]->Ready_0.capabilities@,
            wanted,
            value,
        );
    }
}

/// Where the thumb of the slider rests once `plan` was carried out.
pub open spec fn thumb_after(plan: SliderPlan, thumb: Dpi) -> Dpi {
    match plan {
        SliderPlan::Reseat(value) => value,
        SliderPlan::Build { value, .. } => value,
        _ => thumb,
    }
}

/// The thumb follows the resolution: afterwards it rests nearest to the same supported
/// value. A slider is built exactly if none was there for this device and range, and
/// a thumb is moved only if it rested nearest to another value.
pub proof fn thumb_follows_the_resolution(
    plan: SliderPlan,
    present: bool,
    values: Seq<Dpi>,
    shape: SliderShape,
    current: Dpi,
    thumb: Dpi,
    value: Dpi,
)
    requires
        slider_planned(plan, present, values, shape, current, thumb),
        snapped(values, current.0 as int, value.0 as int),
    ensures
        snapped(values, thumb_after(plan, thumb).0 as int, value.0 as int),
        present <==> !(plan is Build),
        !(plan is Drop),
        plan is Keep <==> present && snapped(values, thumb.0 as int, value.0 as int),
        plan matches SliderPlan::Build { shape: built, .. } ==> built == shape,
{
    lemma_snapped(values, current, value);
    lemma_snapped(values, thumb, value);
    let after = thumb_after(plan, thumb);
    lemma_snapped(values, after, value);
    match plan {
        SliderPlan::Keep => {
            let rests = choose|v: Dpi|
                #[trigger] dpi::is_nearest(values, current, v) && dpi::is_nearest(values, thumb, v);
            dpi::nearest_is_unique(values, current, value, rests);
        },
        SliderPlan::Reseat(moved) => {
            dpi::nearest_is_unique(values, current, value, moved);
            dpi::supported_value_is_nearest_to_itself(values, moved);
        },
        SliderPlan::Build { value: moved, .. } => {
            dpi::nearest_is_unique(values, current, value, moved);
            dpi::supported_value_is_nearest_to_itself(values, moved);
        },
        SliderPlan::Drop => {},
    }
}

/// The slider spans what the device supports: from the lowest value to the highest.
pub proof fn slider_spans_the_supported_values(values: Seq<Dpi>, step: Dpi, i: int)
    requires
        dpi::ascending(values),
        0 <= i < values.len(),
    ensures
        slider_shape(values, step).min.0 <= values[i].0 <= slider_shape(values, step).max.0,
        values.contains(slider_shape(values, step).min),
        values.contains(slider_shape(values, step).max),
        slider_shape(values, step).step == step,
{
    assert(values[0] == values.first());
    assert(values[values.len() - 1] == values.last());
}

/// The line below the slider shows the lowest value, the highest value and the step,
/// in decimal, or says why there is no range.
pub proof fn label_says_the_range_or_why_not(
    label: RangeLabel,
    status: DpiStatus,
    reachable: bool,
    step: Dpi,
)
    requires
        label.describes(status, reachable, step),
    ensures
        match status {
            Load::Ready(info) => {
                let head = text::decimal_text(info.capabilities@.first().0 as nat) + "–"@
                    + text::decimal_text(info.capabilities@.last().0 as nat);
                let tail = " · step "@ + text::decimal_text(step.0 as nat);
                &&& label matches RangeLabel::Range(shown)
                &&& head.is_prefix_of(shown@)
                &&& tail.is_suffix_of(shown@)
                &&& shown@.len() == head.len() + tail.len()
            },
            Load::Unknown | Load::Loading => if reachable {
                label is Loading
            } else {
                label is Offline
            },
            Load::Failed(message) => label matches RangeLabel::Failed(shown) && shown@ == message@,
            Load::Unsupported(message) => label matches RangeLabel::Unavailable(shown) && shown@
                == message@,
        },
{
    if let Load::Ready(info) = status {
        if let RangeLabel::Range(shown) = label {
            let head = text::decimal_text(info.capabilities@.first().0 as nat) + "–"@
                + text::decimal_text(info.capabilities@.last().0 as nat);
            let tail = " · step "@ + text::decimal_text(step.0 as nat);
            assert(shown@ =~= head + tail);
        }
    }
}

/// A slider stands only where there is something to drag: the values are known, there
/// are several, and the slider was built. In any other state the place says why.
pub proof fn slider_stands_where_it_can_be_dragged(
    status: DpiStatus,
    has_slider: bool,
    reachable: bool,
)
    ensures
        ({
            let body = slider_body(status, has_slider, reachable);
            match status {
                Load::Ready(info) => {
                    let lowest = info.capabilities@.first();
                    let several = lowest != info.capabilities@.last();
                    &&& body is Slider <==> several && has_slider
                    &&& body is Preparing <==> several && !has_slider
                    &&& !several ==> body == SliderBody::Fixed(lowest)
                },
                Load::Unknown | Load::Loading => {
                    &&& body is Reading <==> reachable
                    &&& body is Offline <==> !reachable
                },
                Load::Failed(_) => body is Retry,
                Load::Unsupported(_) => body is Unsupported,
            }
        }),
{
}

/// What is recorded of the resolution of the active device is what its key holds, and a
/// device is the active one exactly if it has the key of that one.
pub proof fn resolution_is_recorded_by_key(
    state: AppState,
    record: device::DeviceRecord,
    key: Seq<char>,
)
    requires
        state.current() == Some(record),
    ensures
        state.recorded_dpi() is Some <==> state.reads.dpi@.by_device.contains_key(record.key@),
        state.recorded_dpi() is Some ==> state.recorded_dpi()->0
            == state.reads.dpi@.by_device[record.key@],
        state.is_current(key) <==> key == record.key@,
{
}

/// Without an active device nothing is recorded, and no key is that of the active one.
pub proof fn nothing_is_recorded_without_a_device(state: AppState, key: Seq<char>)
    requires
        state.current() is None,
    ensures
        state.recorded_dpi() is None,
        state.recorded_profiles() is None,
        !state.is_current(key),
        !state.reachable(),
{
}

/// A snapshot that shows the same resolution shows the same current value and the same
/// supported values, and any other state as it is.
pub proof fn same_resolution_is_shown(recorded: DpiStatus, shown: DpiStatus)
    requires
        shows_same_dpi(recorded, shown),
    ensures
        recorded is Ready <==> shown is Ready,
        recorded matches Load::Ready(info) ==> shown->Ready_0.current == info.current
            && shown->Ready_0.capabilities@ == info.capabilities@,
        !(recorded is Ready) ==> shown == recorded,
{
}

} // verus!
