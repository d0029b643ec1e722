//! Policy of the background sync against the asset mirrors.
//!
//! The index is fetched first, even with no devices connected. Then, for each
//! connected device, the matching depot is resolved from that index and the files
//! of the depot that are not cached yet are downloaded.

use vstd::prelude::*;

use backon::BackoffBuilder;

use crate::text;

verus! {

/// Whether `setting` asks never to sync.
pub open spec fn asks_off(setting: Option<&str>) -> bool {
    setting is Some && (setting->0@ == "off"@ || setting->0@ == "false"@ || setting->0@ == "0"@)
}

/// Whether `setting` asks always to sync.
pub open spec fn asks_on(setting: Option<&str>) -> bool {
    setting is Some && (setting->0@ == "on"@ || setting->0@ == "true"@ || setting->0@ == "1"@)
}

/// Whether the startup sync should run on this launch.
///
/// - The setting `off` → never run.
/// - The setting `on` → always run.
/// - Debug builds → run, so developers see registry updates immediately.
/// - Release builds → run only when the app bundle didn't ship assets.
pub fn should_run(setting: Option<&str>, debug_build: bool, has_bundle: bool) -> (run: bool)
    ensures
        run == (!asks_off(setting) && (asks_on(setting) || debug_build || !has_bundle)),
{
    if let Some(setting) = setting {
        if text::same(setting, "off") || text::same(setting, "false") || text::same(setting, "0") {
            return false;
        }
        if text::same(setting, "on") || text::same(setting, "true") || text::same(setting, "1") {
            return true;
        }
    }
    debug_build || !has_bundle
}

/// HID++ model information of a device.
#[derive(Debug, Clone, Copy, PartialEq, Eq)]
pub struct DeviceModelInfo {
    /// Colour variant of the model.
    pub extended_model_id: u8,
    /// Model ids, one for each transport.
    pub model_ids: [u16; 3],
}

/// One model-level asset lookup.
///
/// A HID++ entry pairs the device's model info with its firmware `codename`,
/// so the depot match can fall back to the registry name for devices
/// whose live product id isn't in the registry.
#[derive(Debug, PartialEq, Eq)]
pub enum AssetTarget {
    /// HID++ lookup.
    Hidpp {
        /// HID++ model information used for registry matching.
        model: DeviceModelInfo,
        /// Firmware codename used as the final matching fallback.
        codename: Option<String>,
    },
    /// Standalone raw-HID lookup by the driver-provided registry identity.
    Standalone {
        /// Exact model-level registry id, never a physical-device key.
        registry_model_id: String,
    },
}

impl Clone for AssetTarget {
    fn clone(&self) -> (copy: Self)
        ensures
            copy == *self,
    {
        match self {
            AssetTarget::Hidpp { model, codename } => AssetTarget::Hidpp {
                model: *model,
                codename: match codename {
                    Some(codename) => Some(codename.clone()),
                    None => None,
                },
            },
            AssetTarget::Standalone { registry_model_id } => AssetTarget::Standalone {
                registry_model_id: registry_model_id.clone(),
            },
        }
    }
}

/// The codename, or the empty string without one.
pub open spec fn codename_text(codename: Option<String>) -> Seq<char> {
    match codename {
        Some(codename) => codename@,
        None => Seq::empty(),
    }
}

/// The part of a HID++ session key that tells models apart.
pub open spec fn hidpp_model_text(model: DeviceModelInfo) -> Seq<char> {
    text::hex2_text(model.extended_model_id) + ":"@ + text::hex4_text(model.model_ids@[0]) + ":"@
        + text::hex4_text(model.model_ids@[1]) + ":"@ + text::hex4_text(model.model_ids@[2]) + ":"@
}

/// The session key of `target`.
pub open spec fn model_key_text(target: AssetTarget) -> Seq<char> {
    match target {
        AssetTarget::Hidpp { model, codename } => "hidpp:"@ + hidpp_model_text(model)
            + codename_text(codename),
        AssetTarget::Standalone { registry_model_id } => "standalone:model:"@
            + registry_model_id@,
    }
}

/// Stable session key for one model-level asset target.
#[must_use]
pub fn model_key(target: &AssetTarget) -> (key: String)
    ensures
        key@ == model_key_text(*target),
{
    match target {
        AssetTarget::Hidpp { model, codename } => {
            let mut model_text = text::hex2(model.extended_model_id);
            model_text.append(":");
            model_text.append(text::hex4(model.model_ids[0]).as_str());
            model_text.append(":");
            model_text.append(text::hex4(model.model_ids[1]).as_str());
            model_text.append(":");
            model_text.append(text::hex4(model.model_ids[2]).as_str());
            model_text.append(":");
            let mut key = "hidpp:".to_owned();
            key.append(model_text.as_str());
            match codename {
                Some(codename) => {
                    key.append(codename.as_str());
                },
                None => {
                    assert(key@ + Seq::<char>::empty() =~= key@);
                },
            }
            key
        },
        AssetTarget::Standalone { registry_model_id } => {
            let mut key = "standalone:model:".to_owned();
            key.append(registry_model_id.as_str());
            key
        },
    }
}

/// Which mirror assets come from.
#[derive(Debug, PartialEq, Eq)]
pub enum AssetSource {
    /// The official server.
    Production,
    /// The mirror on static pages.
    Pages,
    /// The mirror on a content delivery network.
    JsDelivr,
    /// A server chosen for this launch.
    Override(String),
}

/// Which mirror the user prefers.
#[derive(Debug, Clone, Copy, PartialEq, Eq, Structural)]
pub enum AssetSourcePreference {
    /// The fastest one.
    Automatic,
    /// The official server.
    OpenLogi,
    /// The mirror on Cloudflare.
    Cloudflare,
    /// The mirror on Fastly.
    Fastly,
}

/// The source to sync from; none means that the built-in ones are raced. A server
/// chosen for this launch goes before the saved preference.
pub fn source_for_sync(preference: AssetSourcePreference, override_base: Option<&str>) -> (source:
    Option<AssetSource>)
    ensures
        match (override_base, preference) {
            (Some(base), _) => source matches Some(AssetSource::Override(server)) && server@
                == base@,
            (None, AssetSourcePreference::Automatic) => source is None,
            (None, AssetSourcePreference::OpenLogi) => source == Some(AssetSource::Production),
            (None, AssetSourcePreference::Cloudflare) => source == Some(AssetSource::Pages),
            (None, AssetSourcePreference::Fastly) => source == Some(AssetSource::JsDelivr),
        },
{
    if let Some(base) = override_base {
        return Some(AssetSource::Override(base.to_owned()));
    }
    match preference {
        AssetSourcePreference::Automatic => None,
        AssetSourcePreference::OpenLogi => Some(AssetSource::Production),
        AssetSourcePreference::Cloudflare => Some(AssetSource::Pages),
        AssetSourcePreference::Fastly => Some(AssetSource::JsDelivr),
    }
}

/// A manual asset action.
#[derive(Debug, Clone, Copy, PartialEq, Eq, Structural)]
pub enum AssetCommand {
    /// Force-fetch assets for known devices now, bypassing the
    /// automatic download policy.
    Refresh,
    /// Delete the per-user cache, then re-fetch.
    ClearCache,
}

/// Delay `n` of a series that starts at one second, doubles, and stops growing at
/// a minute, in seconds.
pub open spec fn backoff_seconds(n: int) -> u64
    decreases n,
{
    if n <= 0 {
        1
    } else if backoff_seconds(n - 1) >= 30 {
        60
    } else {
        (2 * backoff_seconds(n - 1)) as u64
    }
}

/// Calls `backon::ExponentialBuilder::default`, `without_max_times`, `build` and
/// `Iterator::nth` on the result. The default builder starts at one second, has
/// the factor two, a maximum of sixty seconds and no jitter; without a maximum
/// number of times the series does not end. So delay `n`, counted from zero, is
/// there, and is `backoff_seconds(n)` whole seconds. The delay is returned in
/// seconds and nanoseconds.
#[verifier::external_body]
fn exponential_delay(n: u8) -> (delay: Option<(u64, u32)>)
    ensures
        delay == Some((backoff_seconds(n as int), 0u32)),
{
    backon::ExponentialBuilder::default()
        .without_max_times()
        .build()
        .nth(n as usize)
        .map(|delay| (delay.as_secs(), delay.subsec_nanos()))
}

/// Minimum gap, in seconds, before re-attempting a failed sync, doubling with each
/// consecutive attempt and capped at a minute. A permanently-down host is polled
/// ever more slowly (1s, 2s, 4s … 60s) instead of on every tick, while a recovered
/// host still self-heals on the next attempt.
pub fn sync_retry_delay(attempts: u32) -> (seconds: u64)
    ensures
        seconds == backoff_seconds(attempts - 1),
        attempts <= 1 ==> seconds == 1,
        attempts == 2 ==> seconds == 2,
        attempts == 3 ==> seconds == 4,
        attempts == 4 ==> seconds == 8,
        attempts == 5 ==> seconds == 16,
        attempts == 6 ==> seconds == 32,
        attempts >= 7 ==> seconds == 60,
{
    proof {
        reveal_with_fuel(backoff_seconds, 8);
        if attempts > 7 {
            backoff_stays_at_a_minute(attempts - 1);
        }
    }
    let earlier: u32 = if attempts == 0 {
        0
    } else {
        attempts - 1
    };
    let n: u8 = if earlier < 6 {
        earlier as u8
    } else {
        6
    };
    match exponential_delay(n) {
        Some((seconds, _)) => seconds,
        None => 60,
    }
}

/// From the seventh delay on the series stays at a minute.
pub proof fn backoff_stays_at_a_minute(n: int)
    requires
        n >= 6,
    ensures
        backoff_seconds(n) == 60,
    decreases n,
{
    reveal_with_fuel(backoff_seconds, 8);
    if n > 6 {
        backoff_stays_at_a_minute(n - 1);
    }
}

/// Delays never shrink from one attempt to the next, and never leave one second
/// to one minute.
pub proof fn backoff_never_shrinks(n: int)
    ensures
        1 <= backoff_seconds(n) <= backoff_seconds(n + 1) <= 60,
    decreases n,
{
    if n > 0 {
        backoff_never_shrinks(n - 1);
    }
}

proof fn lemma_hex4_injective(a: u16, b: u16)
    requires
        text::hex4_text(a) == text::hex4_text(b),
    ensures
        a == b,
{
    let x = text::hex4_text(a);
    let y = text::hex4_text(b);
    assert(x[0] == y[0] && x[1] == y[1] && x[2] == y[2] && x[3] == y[3]);
}

proof fn lemma_hex2_injective(a: u8, b: u8)
    requires
        text::hex2_text(a) == text::hex2_text(b),
    ensures
        a == b,
{
    let x = text::hex2_text(a);
    let y = text::hex2_text(b);
    assert(x[0] == y[0] && x[1] == y[1]);
}

/// Session keys tell models apart: targets share a key only if both are HID++
/// targets with the same model ids, variant and codename text, or both are
/// standalone targets with the same registry id. In particular a standalone key
/// depends on nothing but the registry id of the model.
pub proof fn model_keys_tell_models_apart(a: AssetTarget, b: AssetTarget)
    requires
        model_key_text(a) == model_key_text(b),
    ensures
        match (a, b) {
            (
                AssetTarget::Hidpp { model, codename },
                AssetTarget::Hidpp { model: other_model, codename: other_codename },
            ) => {
                &&& model.extended_model_id == other_model.extended_model_id
                &&& model.model_ids@ == other_model.model_ids@
                &&& codename_text(codename) == codename_text(other_codename)
            },
            (
                AssetTarget::Standalone { registry_model_id },
                AssetTarget::Standalone { registry_model_id: other },
            ) => registry_model_id@ == other@,
            _ => false,
        },
{
    lemma_key_tells_the_kind(a);
    lemma_key_tells_the_kind(b);
    match (a, b) {
        (
            AssetTarget::Hidpp { model, codename },
            AssetTarget::Hidpp { model: other_model, codename: other_codename },
        ) => {
            lemma_hidpp_keys(model, codename, other_model, other_codename);
        },
        (
            AssetTarget::Standalone { registry_model_id },
            AssetTarget::Standalone { registry_model_id: other },
        ) => {
            lemma_standalone_keys(registry_model_id, other);
        },
        _ => {},
    }
}

proof fn lemma_key_tells_the_kind(target: AssetTarget)
    ensures
        model_key_text(target).len() > 0,
        model_key_text(target)[0] == (if target is Hidpp {
            'h'
        } else {
            's'
        }),
{
    reveal_strlit("hidpp:");
    reveal_strlit("standalone:model:");
}

proof fn lemma_standalone_keys(id: String, other: String)
    requires
        model_key_text(AssetTarget::Standalone { registry_model_id: id }) == model_key_text(
            AssetTarget::Standalone { registry_model_id: other },
        ),
    ensures
        id@ == other@,
{
    reveal_strlit("standalone:model:");
    let key = model_key_text(AssetTarget::Standalone { registry_model_id: id });
    assert(id@ =~= key.skip(17));
    assert(other@ =~= key.skip(17));
}

proof fn lemma_hidpp_keys(
    model: DeviceModelInfo,
    codename: Option<String>,
    other_model: DeviceModelInfo,
    other_codename: Option<String>,
)
    requires
        model_key_text(AssetTarget::Hidpp { model, codename }) == model_key_text(
            AssetTarget::Hidpp { model: other_model, codename: other_codename },
        ),
    ensures
        model.extended_model_id == other_model.extended_model_id,
        model.model_ids@ == other_model.model_ids@,
        codename_text(codename) == codename_text(other_codename),
{
    lemma_hidpp_key_parts(model, codename);
    lemma_hidpp_key_parts(other_model, other_codename);
    lemma_hex2_injective(model.extended_model_id, other_model.extended_model_id);
    lemma_hex4_injective(model.model_ids@[0], other_model.model_ids@[0]);
    lemma_hex4_injective(model.model_ids@[1], other_model.model_ids@[1]);
    lemma_hex4_injective(model.model_ids@[2], other_model.model_ids@[2]);
    assert(model.model_ids@ =~= other_model.model_ids@);
}

proof fn lemma_hidpp_key_parts(model: DeviceModelInfo, codename: Option<String>)
    ensures
        ({
            let key = model_key_text(AssetTarget::Hidpp { model, codename });
            &&& key.subrange(6, 8) == text::hex2_text(model.extended_model_id)
            &&& key.subrange(9, 13) == text::hex4_text(model.model_ids@[0])
            &&& key.subrange(14, 18) == text::hex4_text(model.model_ids@[1])
            &&& key.subrange(19, 23) == text::hex4_text(model.model_ids@[2])
            &&& key.skip(24) == codename_text(codename)
        }),
{
    reveal_strlit("hidpp:");
    reveal_strlit(":");
    let key = model_key_text(AssetTarget::Hidpp { model, codename });
    assert(key.subrange(6, 8) =~= text::hex2_text(model.extended_model_id));
    assert(key.subrange(9, 13) =~= text::hex4_text(model.model_ids@[0]));
    assert(key.subrange(14, 18) =~= text::hex4_text(model.model_ids@[1]));
    assert(key.subrange(19, 23) =~= text::hex4_text(model.model_ids@[2]));
    assert(key.skip(24) =~= codename_text(codename));
}

/// One file of a depot, as the registry lists it.
#[derive(Debug, PartialEq, Eq)]
pub struct FileEntry {
    /// Name of the file.
    pub name: String,
    /// Hash that the file must have.
    pub sha256: String,
}

/// One depot, as the registry lists it.
#[derive(Debug, PartialEq, Eq)]
pub struct DeviceEntry {
    /// Model ids of the devices it is for.
    pub model_ids: Vec<String>,
    /// Where its files are.
    pub asset_path: String,
    /// Its files.
    pub files: Vec<FileEntry>,
}

/// A depot to sync, and the colour variant to fetch of it.
#[derive(Debug, PartialEq, Eq)]
pub struct DepotTarget {
    /// Name of the depot.
    pub depot: String,
    /// What the registry lists of it.
    pub entry: DeviceEntry,
    /// Colour variant.
    pub ext: u8,
}

/// The colour variant that is fetched for `target`.
pub open spec fn variant_of(target: AssetTarget) -> u8 {
    match target {
        AssetTarget::Hidpp { model, .. } => model.extended_model_id,
        AssetTarget::Standalone { .. } => 0,
    }
}

/// The depots found for the first `n` targets, in their order. A depot that was
/// forced comes before them, in its base variant.
pub open spec fn found_depots(
    forced: Option<(String, DeviceEntry)>,
    targets: Seq<AssetTarget>,
    found: Seq<Option<(String, DeviceEntry)>>,
    n: int,
) -> Seq<DepotTarget>
    decreases n,
{
    if n <= 0 {
        match forced {
            Some((depot, entry)) => seq![DepotTarget { depot, entry, ext: 0 }],
            None => Seq::empty(),
        }
    } else {
        match found[n - 1] {
            Some((depot, entry)) => found_depots(forced, targets, found, n - 1).push(
                DepotTarget { depot, entry, ext: variant_of(targets[n - 1]) },
            ),
            None => found_depots(forced, targets, found, n - 1),
        }
    }
}

/// Lists the depots that were found. `found` holds what the index lists for each
/// of `targets`; a target that is not registered has none.
pub fn depot_candidates(
    forced: Option<(String, DeviceEntry)>,
    targets: &Vec<AssetTarget>,
    found: Vec<Option<(String, DeviceEntry)>>,
) -> (candidates: Vec<DepotTarget>)
    requires
        found.len() == targets.len(),
    ensures
        candidates@ == found_depots(forced, targets@, found@, targets.len() as int),
{
    let ghost all = found@;
    let mut candidates: Vec<DepotTarget> = Vec::new();
    if let Some((depot, entry)) = forced {
        candidates.push(DepotTarget { depot, entry, ext: 0 });
    }
    assert(candidates@ =~= found_depots(forced, targets@, all, 0));
    let mut rest = found;
    let mut i: usize = 0;
    while i < targets.len()
        invariant
            i <= targets.len(),
            all.len() == targets.len(),
            rest@ == all.skip(i as int),
            candidates@ == found_depots(forced, targets@, all, i as int),
        decreases targets.len() - i,
    {
        let matched = rest.remove(0);
        assert(matched == all[i as int]);
        assert(rest@ =~= all.skip(i + 1));
        if let Some((depot, entry)) = matched {
            let ext: u8 = match &targets[i] {
                AssetTarget::Hidpp { model, codename: _ } => model.extended_model_id,
                AssetTarget::Standalone { registry_model_id: _ } => 0,
            };
            candidates.push(DepotTarget { depot, entry, ext });
        }
        i += 1;
    }
    candidates
}

/// Whether candidate `i` is the first one from `start` on with its depot.
pub open spec fn first_of_depot(candidates: Seq<DepotTarget>, start: int, i: int) -> bool {
    &&& start <= i < candidates.len()
    &&& forall|k: int|
        start <= k < i ==> (#[trigger] candidates[k]).depot@ != candidates[i].depot@
}

/// Whether `target` is the first candidate from `start` on with its depot.
pub open spec fn is_first(candidates: Seq<DepotTarget>, start: int, target: DepotTarget) -> bool {
    exists|i: int| #[trigger] first_of_depot(candidates, start, i) && candidates[i] == target
}

/// Whether one of `depots` has the name `depot`.
pub open spec fn has_depot(depots: Seq<DepotTarget>, depot: Seq<char>) -> bool {
    exists|j: int| 0 <= j < depots.len() && (#[trigger] depots[j]).depot@ == depot
}

/// Whether `depots` are the candidates from `start` on, sorted by depot, the first
/// one of each depot.
pub open spec fn sorted_firsts(
    depots: Seq<DepotTarget>,
    candidates: Seq<DepotTarget>,
    start: int,
) -> bool {
    &&& forall|a: int, b: int|
        0 <= a < b < depots.len() ==> text::sorts_before(
            (#[trigger] depots[a]).depot@,
            (#[trigger] depots[b]).depot@,
        )
    &&& forall|j: int|
        0 <= j < depots.len() ==> #[trigger] is_first(candidates, start, depots[j])
    &&& forall|i: int|
        start <= i < candidates.len() ==> #[trigger] has_depot(depots, candidates[i].depot@)
}

/// Sorts the candidates by depot and keeps the first one of each depot.
pub fn plan_depots(candidates: Vec<DepotTarget>) -> (depots: Vec<DepotTarget>)
    ensures
        sorted_firsts(depots@, candidates@, 0),
{
    let ghost all = candidates@;
    let mut rest = candidates;
    let mut depots: Vec<DepotTarget> = Vec::new();
    assert(all.take(all.len() as int) =~= all);
    while rest.len() > 0
        invariant
            rest.len() <= all.len(),
            rest@ == all.take(rest.len() as int),
            sorted_firsts(depots@, all, rest.len() as int),
        decreases rest.len(),
    {
        let ghost start = rest.len() as int;
        let ghost before = depots@;
        let target = match rest.pop() {
            Some(target) => target,
            None => {
                return depots;
            },
        };
        assert(target == all[start - 1]);
        assert(rest@ =~= all.take(start - 1));
        let mut at: usize = 0;
        while at < depots.len() && text::before(depots[at].depot.as_str(), target.depot.as_str())
            invariant
                at <= depots.len(),
                depots@ == before,
                forall|j: int|
                    0 <= j < at ==> text::sorts_before(
                        (#[trigger] depots@[j]).depot@,
                        target.depot@,
                    ),
            decreases depots.len() - at,
        {
            at += 1;
        }
        let ghost new = target;
        if at < depots.len() && text::same(depots[at].depot.as_str(), target.depot.as_str()) {
            depots[at] = target;
            assert(depots@ == before.update(at as int, new));
            proof {
                lemma_first_replaces(before, depots@, all, start, at as int);
            }
        } else {
            proof {
                if at < before.len() {
                    text::sorts_before_total(before[at as int].depot@, new.depot@);
                }
            }
            depots.insert(at, target);
            assert(depots@ == before.insert(at as int, new));
            proof {
                lemma_first_is_inserted(before, depots@, all, start, at as int);
            }
        }
    }
    depots
}

proof fn lemma_older_firsts(
    before: Seq<DepotTarget>,
    all: Seq<DepotTarget>,
    start: int,
    j: int,
)
    requires
        sorted_firsts(before, all, start),
        0 < start <= all.len(),
        0 <= j < before.len(),
        before[j].depot@ != all[start - 1].depot@,
    ensures
        is_first(all, start - 1, before[j]),
{
    assert(is_first(all, start, before[j]));
    let i = choose|i: int| #[trigger] first_of_depot(all, start, i) && all[i] == before[j];
    assert(first_of_depot(all, start - 1, i));
}

proof fn lemma_first_replaces(
    before: Seq<DepotTarget>,
    after: Seq<DepotTarget>,
    all: Seq<DepotTarget>,
    start: int,
    at: int,
)
    requires
        0 < start <= all.len(),
        sorted_firsts(before, all, start),
        0 <= at < before.len(),
        before[at].depot@ == all[start - 1].depot@,
        after == before.update(at, all[start - 1]),
    ensures
        sorted_firsts(after, all, start - 1),
{
    let new = all[start - 1];
    assert forall|a: int, b: int| 0 <= a < b < after.len() implies text::sorts_before(
        (#[trigger] after[a]).depot@,
        (#[trigger] after[b]).depot@,
    ) by {
        assert(after[a].depot@ == before[a].depot@);
        assert(after[b].depot@ == before[b].depot@);
    }
    assert forall|j: int| 0 <= j < after.len() implies #[trigger] is_first(
        all,
        start - 1,
        after[j],
    ) by {
        if j == at {
            assert(first_of_depot(all, start - 1, start - 1));
        } else {
            if j < at {
                text::sorts_before_irreflexive(new.depot@);
                assert(text::sorts_before(before[j].depot@, before[at].depot@));
            } else {
                text::sorts_before_irreflexive(new.depot@);
                assert(text::sorts_before(before[at].depot@, before[j].depot@));
            }
            lemma_older_firsts(before, all, start, j);
        }
    }
    assert forall|i: int| start - 1 <= i < all.len() implies #[trigger] has_depot(
        after,
        all[i].depot@,
    ) by {
        if i == start - 1 {
            assert(after[at] == new);
        } else {
            assert(has_depot(before, all[i].depot@));
            let j = choose|j: int|
                0 <= j < before.len() && (#[trigger] before[j]).depot@ == all[i].depot@;
            assert(after[j].depot@ == before[j].depot@);
        }
    }
}

proof fn lemma_first_is_inserted(
    before: Seq<DepotTarget>,
    after: Seq<DepotTarget>,
    all: Seq<DepotTarget>,
    start: int,
    at: int,
)
    requires
        0 < start <= all.len(),
        sorted_firsts(before, all, start),
        0 <= at <= before.len(),
        forall|j: int|
            0 <= j < at ==> text::sorts_before(
                (#[trigger] before[j]).depot@,
                all[start - 1].depot@,
            ),
        at < before.len() ==> text::sorts_before(all[start - 1].depot@, before[at].depot@),
        after == before.insert(at, all[start - 1]),
    ensures
        sorted_firsts(after, all, start - 1),
{
    let new = all[start - 1];
    assert forall|j: int| at <= j < before.len() implies text::sorts_before(
        new.depot@,
        (#[trigger] before[j]).depot@,
    ) by {
        if at < j {
            assert(text::sorts_before(before[at].depot@, before[j].depot@));
            text::sorts_before_transitive(new.depot@, before[at].depot@, before[j].depot@);
        }
    }
    assert forall|j: int| 0 <= j < before.len() implies (#[trigger] before[j]).depot@
        != new.depot@ by {
        text::sorts_before_irreflexive(new.depot@);
    }
    assert forall|a: int, b: int| 0 <= a < b < after.len() implies text::sorts_before(
        (#[trigger] after[a]).depot@,
        (#[trigger] after[b]).depot@,
    ) by {
        if a < at {
            assert(after[a] == before[a]);
        } else if a > at {
            assert(after[a] == before[a - 1]);
        }
        if b < at {
            assert(after[b] == before[b]);
        } else if b > at {
            assert(after[b] == before[b - 1]);
        }
    }
    assert forall|j: int| 0 <= j < after.len() implies #[trigger] is_first(
        all,
        start - 1,
        after[j],
    ) by {
        if j == at {
            assert(first_of_depot(all, start - 1, start - 1));
        } else if j < at {
            assert(after[j] == before[j]);
            lemma_older_firsts(before, all, start, j);
        } else {
            assert(after[j] == before[j - 1]);
            lemma_older_firsts(before, all, start, j - 1);
        }
    }
    assert forall|i: int| start - 1 <= i < all.len() implies #[trigger] has_depot(
        after,
        all[i].depot@,
    ) by {
        if i == start - 1 {
            assert(after[at] == new);
        } else {
            assert(has_depot(before, all[i].depot@));
            let j = choose|j: int|
                0 <= j < before.len() && (#[trigger] before[j]).depot@ == all[i].depot@;
            if j < at {
                assert(after[j] == before[j]);
            } else {
                assert(after[j + 1] == before[j]);
            }
        }
    }
}

/// What the index of a source lists for the devices that are known.
pub struct IndexLookup {
    /// The depot that was forced for this launch, if the index lists it.
    pub forced: Option<(String, DeviceEntry)>,
    /// What is listed for each target; a target that is not registered has none.
    pub found: Vec<Option<(String, DeviceEntry)>>,
}

/// What a sync needs next.
#[derive(Debug, PartialEq, Eq)]
pub enum AssetStep {
    /// Sync a depot.
    SyncDepot(DepotTarget),
    /// Nothing; this is the result.
    Done(Result<(), String>),
}

/// Mathematical contents of an [`AssetSync`].
#[verifier::ext_equal]
pub struct AssetSyncView {
    /// Depots that are still to be synced, the next one first.
    pub waiting: Seq<DepotTarget>,
    /// Why the sync failed, if it did.
    pub failure: Option<Seq<char>>,
}

impl AssetSyncView {
    /// The next depot, if there is one, was handed out.
    pub open spec fn advanced(self) -> Self {
        AssetSyncView {
            waiting: if self.waiting.len() > 0 {
                self.waiting.drop_first()
            } else {
                self.waiting
            },
            ..self
        }
    }

    /// Whether `step` is what the sync needs next: the next depot, else the result,
    /// which is a success unless the whole sync failed.
    pub open spec fn needs(self, step: AssetStep) -> bool {
        match step {
            AssetStep::SyncDepot(target) => self.waiting.len() > 0 && target == self.waiting[0],
            AssetStep::Done(result) => self.waiting.len() == 0 && match (result, self.failure) {
                (Ok(_), None) => true,
                (Err(shown), Some(failure)) => shown@ == failure,
                _ => false,
            },
        }
    }

    /// What is left of the sync once it was started and the depots it handed out
    /// fared as `outcomes` say.
    pub open spec fn after(self, outcomes: Seq<Result<(), String>>) -> Self
        decreases outcomes.len(),
    {
        if outcomes.len() == 0 {
            self.advanced()
        } else {
            self.after(outcomes.drop_last()).advanced()
        }
    }

    /// Whether `step` is what the sync asks for at that point.
    pub open spec fn asks_after(self, outcomes: Seq<Result<(), String>>, step: AssetStep) -> bool {
        if outcomes.len() == 0 {
            self.needs(step)
        } else {
            self.after(outcomes.drop_last()).needs(step)
        }
    }
}

/// A sync of assets. Whoever runs it calls [`Self::start`], syncs the depot that is
/// asked for, and reports how it fared with [`Self::synced`].
pub struct AssetSync {
    waiting: Vec<DepotTarget>,
    failure: Option<String>,
}

impl View for AssetSync {
    type V = AssetSyncView;

    closed spec fn view(&self) -> AssetSyncView {
        AssetSyncView { waiting: self.waiting@, failure: text::text_view(self.failure) }
    }
}

impl AssetSync {
    fn advance(&mut self) -> (step: AssetStep)
        ensures
            old(self)@.needs(step),
            final(self)@ == old(self)@.advanced(),
    {
        if self.waiting.len() > 0 {
            let target = self.waiting.remove(0);
            assert(self.waiting@ =~= old(self).waiting@.drop_first());
            AssetStep::SyncDepot(target)
        } else {
            match &self.failure {
                Some(failure) => AssetStep::Done(Err(failure.clone())),
                None => AssetStep::Done(Ok(())),
            }
        }
    }

    /// What is needed first.
    pub fn start(&mut self) -> (step: AssetStep)
        ensures
            old(self)@.needs(step),
            final(self)@ == old(self)@.advanced(),
    {
        self.advance()
    }

    /// Takes the outcome of the depot that was asked for last and says what is needed
    /// next. Depots are best-effort: whatever the outcome, the next one follows, and
    /// the result is not affected.
    pub fn synced(&mut self, _outcome: Result<(), String>) -> (step: AssetStep)
        ensures
            old(self)@.needs(step),
            final(self)@ == old(self)@.advanced(),
    {
        self.advance()
    }
}

/// Plans a sync: the depots for `targets`, in the order in which they are synced.
/// The index is the critical shared resource: if it could not be fetched, the whole
/// sync fails, so that it is retried later. Without any target just the index is
/// fetched. How a single depot fares has no part in the result: an optional colour
/// variant that is missing must not block everything.
pub fn sync(targets: &Vec<AssetTarget>, index: Result<IndexLookup, String>) -> (sync: AssetSync)
    requires
        index matches Ok(lookup) ==> lookup.found.len() == targets.len(),
    ensures
        match index {
            Ok(lookup) => {
                &&& sorted_firsts(
                    sync@.waiting,
                    found_depots(lookup.forced, targets@, lookup.found@, targets.len() as int),
                    0,
                )
                &&& sync@.failure is None
            },
            Err(cause) => {
                &&& sync@.waiting.len() == 0
                &&& sync@.failure == Some("fetch asset index: "@ + cause@)
            },
        },
{
    match index {
        Ok(lookup) => AssetSync {
            waiting: plan_depots(depot_candidates(lookup.forced, targets, lookup.found)),
            failure: None,
        },
        Err(cause) => AssetSync {
            waiting: Vec::new(),
            failure: Some(text::join2("fetch asset index: ", cause.as_str())),
        },
    }
}

/// A depot that fails neither stops a sync nor makes it fail: after `n` depots,
/// however each of them fared, a sync whose index was fetched asks for depot `n` of
/// its plan, and after the last one it succeeds.
pub proof fn failing_depots_do_not_stop_the_sync(
    sync: AssetSyncView,
    outcomes: Seq<Result<(), String>>,
    step: AssetStep,
)
    requires
        sync.failure is None,
        outcomes.len() <= sync.waiting.len(),
        sync.asks_after(outcomes, step),
    ensures
        outcomes.len() < sync.waiting.len() ==> step == AssetStep::SyncDepot(
            sync.waiting[outcomes.len() as int],
        ),
        outcomes.len() == sync.waiting.len() ==> (step matches AssetStep::Done(result) && result
            is Ok),
{
    if outcomes.len() > 0 {
        lemma_waiting_after(sync, outcomes.drop_last());
    }
}

proof fn lemma_waiting_after(sync: AssetSyncView, outcomes: Seq<Result<(), String>>)
    requires
        outcomes.len() < sync.waiting.len(),
    ensures
        sync.after(outcomes).waiting == sync.waiting.skip((outcomes.len() + 1) as int),
        sync.after(outcomes).failure == sync.failure,
    decreases outcomes.len(),
{
    if outcomes.len() == 0 {
        assert(sync.waiting.drop_first() =~= sync.waiting.skip(1));
    } else {
        lemma_waiting_after(sync, outcomes.drop_last());
        assert(sync.waiting.skip(outcomes.len() as int).drop_first() =~= sync.waiting.skip(
            (outcomes.len() + 1) as int,
        ));
    }
}

/// A sync whose index could not be fetched asks for no depot and fails.
pub proof fn missing_index_fails_the_sync(sync: AssetSyncView, failure: Seq<char>, step: AssetStep)
    requires
        sync.waiting.len() == 0,
        sync.failure == Some(failure),
        sync.needs(step),
    ensures
        step matches AssetStep::Done(Err(shown)) && shown@ == failure,
{
}

/// A sync without targets and without a forced depot syncs no depot: it prefetches
/// just the index.
pub proof fn sync_without_targets_is_empty(depots: Seq<DepotTarget>)
    requires
        sorted_firsts(depots, found_depots(None, Seq::empty(), Seq::empty(), 0), 0),
    ensures
        depots.len() == 0,
{
    if depots.len() > 0 {
        assert(is_first(found_depots(None, Seq::empty(), Seq::empty(), 0), 0, depots[0]));
    }
}

/// A forced depot is synced in its base variant, whatever the devices would have
/// fetched of it.
pub proof fn forced_depot_keeps_its_base_variant(
    forced: (String, DeviceEntry),
    targets: Seq<AssetTarget>,
    found: Seq<Option<(String, DeviceEntry)>>,
    depots: Seq<DepotTarget>,
    j: int,
)
    requires
        sorted_firsts(
            depots,
            found_depots(Some(forced), targets, found, targets.len() as int),
            0,
        ),
        0 <= j < depots.len(),
        depots[j].depot@ == forced.0@,
    ensures
        depots[j] == (DepotTarget { depot: forced.0, entry: forced.1, ext: 0 }),
{
    let all = found_depots(Some(forced), targets, found, targets.len() as int);
    lemma_forced_is_first(forced, targets, found, targets.len() as int);
    assert(is_first(all, 0, depots[j]));
    let i = choose|i: int| #[trigger] first_of_depot(all, 0, i) && all[i] == depots[j];
    if i > 0 {
        assert(all[0].depot@ != all[i].depot@);
    }
}

proof fn lemma_forced_is_first(
    forced: (String, DeviceEntry),
    targets: Seq<AssetTarget>,
    found: Seq<Option<(String, DeviceEntry)>>,
    n: int,
)
    ensures
        ({
            let all = found_depots(Some(forced), targets, found, n);
            &&& all.len() > 0
            &&& all[0] == (DepotTarget { depot: forced.0, entry: forced.1, ext: 0 })
        }),
    decreases n,
{
    if n > 0 {
        lemma_forced_is_first(forced, targets, found, n - 1);
    }
}

/// No depot is synced twice.
pub proof fn planned_depots_are_distinct(
    depots: Seq<DepotTarget>,
    candidates: Seq<DepotTarget>,
    a: int,
    b: int,
)
    requires
        sorted_firsts(depots, candidates, 0),
        0 <= a < b < depots.len(),
    ensures
        depots[a].depot@ != depots[b].depot@,
{
    text::sorts_before_irreflexive(depots[a].depot@);
}

/// Three words ask never to sync and three ask always to; any other setting, and
/// none, asks for neither.
pub proof fn settings_are_words(setting: &str)
    ensures
        asks_off(Some(setting)) <==> (setting@ == "off"@ || setting@ == "false"@ || setting@
            == "0"@),
        asks_on(Some(setting)) <==> (setting@ == "on"@ || setting@ == "true"@ || setting@ == "1"@),
        !(asks_off(Some(setting)) && asks_on(Some(setting))),
        !asks_off(None),
        !asks_on(None),
{
    reveal_strlit("off");
    reveal_strlit("false");
    reveal_strlit("0");
    reveal_strlit("on");
    reveal_strlit("true");
    reveal_strlit("1");
    assert("off"@[0] == 'o' && "on"@[1] == 'n' && "off"@[1] == 'f');
    assert("false"@[0] == 'f' && "true"@[0] == 't' && "0"@[0] == '0' && "1"@[0] == '1');
    assert("on"@[0] == 'o');
}

/// The key of a HID++ target holds the colour variant, the three model ids and the
/// codename, each behind a colon; that of a standalone target holds the registry id
/// alone.
pub proof fn model_keys_hold_the_model(target: AssetTarget)
    ensures
        match target {
            AssetTarget::Hidpp { model, codename } => {
                let key = model_key_text(target);
                &&& key.len() >= 24
                &&& key.take(6) == "hidpp:"@
                &&& key.subrange(6, 8) == text::hex2_text(model.extended_model_id)
                &&& key.subrange(9, 13) == text::hex4_text(model.model_ids@[0])
                &&& key.subrange(14, 18) == text::hex4_text(model.model_ids@[1])
                &&& key.subrange(19, 23) == text::hex4_text(model.model_ids@[2])
                &&& key[8] == ':' && key[13] == ':' && key[18] == ':' && key[23] == ':'
                &&& match codename {
                    Some(codename) => key.skip(24) == codename@,
                    None => key.len() == 24,
                }
            },
            AssetTarget::Standalone { registry_model_id } => {
                let key = model_key_text(target);
                &&& "standalone:model:"@.is_prefix_of(key)
                &&& key.skip(17) == registry_model_id@
            },
        },
{
    reveal_strlit("hidpp:");
    reveal_strlit(":");
    reveal_strlit("standalone:model:");
    match target {
        AssetTarget::Hidpp { model, codename } => {
            lemma_hidpp_key_parts(model, codename);
            assert(model_key_text(target).take(6) =~= "hidpp:"@);
        },
        AssetTarget::Standalone { registry_model_id } => {
            assert(model_key_text(target).skip(17) =~= registry_model_id@);
        },
    }
}

/// The delay starts at a second and doubles with every attempt up to the sixth; from
/// the seventh on it is a minute.
pub proof fn backoff_doubles_up_to_a_minute(n: int)
    ensures
        n <= 0 ==> backoff_seconds(n) == 1,
        0 <= n < 5 ==> backoff_seconds(n + 1) == 2 * backoff_seconds(n),
        n >= 6 ==> backoff_seconds(n) == 60,
{
    reveal_with_fuel(backoff_seconds, 8);
    if n >= 6 {
        backoff_stays_at_a_minute(n);
    }
}

/// Candidates are listed in the order of their targets, a forced depot before them in
/// its base variant. A HID++ device has the depot fetched in its own colour variant,
/// a standalone one in the base variant, and a target that the index does not list
/// adds nothing.
pub proof fn candidates_follow_their_targets(
    forced: Option<(String, DeviceEntry)>,
    targets: Seq<AssetTarget>,
    found: Seq<Option<(String, DeviceEntry)>>,
    n: int,
)
    requires
        0 <= n,
    ensures
        match forced {
            Some((depot, entry)) => found_depots(forced, targets, found, 0) == seq![
                DepotTarget { depot, entry, ext: 0 },
            ],
            None => found_depots(forced, targets, found, 0).len() == 0,
        },
        found[n] is None ==> found_depots(forced, targets, found, n + 1) == found_depots(
            forced,
            targets,
            found,
            n,
        ),
        match (found[n], targets[n]) {
            (Some((depot, entry)), AssetTarget::Hidpp { model, .. }) => found_depots(
                forced,
                targets,
                found,
                n + 1,
            ) == found_depots(forced, targets, found, n).push(
                DepotTarget { depot, entry, ext: model.extended_model_id },
            ),
            (Some((depot, entry)), AssetTarget::Standalone { .. }) => found_depots(
                forced,
                targets,
                found,
                n + 1,
            ) == found_depots(forced, targets, found, n).push(
                DepotTarget { depot, entry, ext: 0 },
            ),
            _ => true,
        },
{
}

/// The depots of a sync are in ascending order of their names, each of them is a
/// candidate, and of candidates for the same depot the first one is taken: no
/// candidate is passed over for a later one, and none is left out but for an earlier
/// one.
pub proof fn first_candidate_of_each_depot_is_synced(
    depots: Seq<DepotTarget>,
    candidates: Seq<DepotTarget>,
    i: int,
)
    requires
        sorted_firsts(depots, candidates, 0),
        0 <= i < candidates.len(),
        forall|k: int| 0 <= k < i ==> (#[trigger] candidates[k]).depot@ != candidates[i].depot@,
    ensures
        depots.contains(candidates[i]),
        forall|j: int| 0 <= j < depots.len() ==> candidates.contains(#[trigger] depots[j]),
        forall|a: int, b: int|
            0 <= a < b < depots.len() ==> text::sorts_before(
                (#[trigger] depots[a]).depot@,
                (#[trigger] depots[b]).depot@,
            ),
{
    assert forall|j: int| 0 <= j < depots.len() implies candidates.contains(
        #[trigger] depots[j],
    ) by {
        assert(is_first(candidates, 0, depots[j]));
    }
    assert(has_depot(depots, candidates[i].depot@));
    let j = choose|j: int|
        0 <= j < depots.len() && (#[trigger] depots[j]).depot@ == candidates[i].depot@;
    assert(is_first(candidates, 0, depots[j]));
    let k = choose|k: int| #[trigger] first_of_depot(candidates, 0, k) && candidates[k] == depots[j];
    if k < i {
        assert(candidates[k].depot@ != candidates[i].depot@);
    }
    if i < k {
        assert(candidates[i].depot@ != candidates[k].depot@);
    }
    assert(depots[j] == candidates[i]);
}

} // verus!
