//! Which files of a depot are fetched.
//!
//! The baseline files come first, the manifest among them. The manifest then says
//! which renders belong to the colour variant of the device.

use vstd::prelude::*;

use crate::assets::{DepotTarget, DeviceEntry, FileEntry};
use crate::text;

verus! {

/// One file that a manifest maps a key to.
#[derive(Debug, PartialEq, Eq)]
pub struct ManifestResource {
    /// What the file is for.
    pub key: String,
    /// Name of the file.
    pub src: String,
}

/// What a manifest maps for one variant of a model.
#[derive(Debug, PartialEq, Eq)]
pub struct ManifestDevice {
    /// Id of the variant.
    pub model_id: String,
    /// Its files.
    pub resources: Vec<ManifestResource>,
}

/// Manifest of a depot.
#[derive(Debug, PartialEq, Eq)]
pub struct DepotManifest {
    /// What it maps.
    pub devices: Vec<ManifestDevice>,
}

/// The id of variant `ext` of `base`: the base itself for variant zero.
pub open spec fn variant_id(base: Seq<char>, ext: u8) -> Seq<char> {
    if ext == 0 {
        base
    } else {
        base + "_ext"@ + text::decimal_text(ext as nat)
    }
}

/// The first file that `resources` map `key` to.
pub open spec fn resource_of(resources: Seq<ManifestResource>, key: Seq<char>) -> Option<Seq<char>>
    decreases resources.len(),
{
    if resources.len() == 0 {
        None
    } else if resources[0].key@ == key {
        Some(resources[0].src@)
    } else {
        resource_of(resources.drop_first(), key)
    }
}

/// The file that the first one of `devices` with the id `id` maps `key` to.
pub open spec fn device_resource(
    devices: Seq<ManifestDevice>,
    id: Seq<char>,
    key: Seq<char>,
) -> Option<Seq<char>>
    decreases devices.len(),
{
    if devices.len() == 0 {
        None
    } else if devices[0].model_id@ == id {
        resource_of(devices[0].resources@, key)
    } else {
        device_resource(devices.drop_first(), id, key)
    }
}

impl DepotManifest {
    /// The file that the manifest maps `key` to for variant `ext` of `base`.
    pub fn resource_for_variant(&self, base: &str, ext: u8, key: &str) -> (src: Option<String>)
        ensures
            text::text_view(src) == device_resource(self.devices@, variant_id(base@, ext), key@),
    {
        let mut id = base.to_owned();
        if ext != 0 {
            id.append("_ext");
            id.append(text::decimal(ext as u64).as_str());
        }
        let mut i: usize = 0;
        assert(self.devices@.skip(0) =~= self.devices@);
        while i < self.devices.len()
            invariant
                i <= self.devices.len(),
                id@ == variant_id(base@, ext),
                device_resource(self.devices@, id@, key@) == device_resource(
                    self.devices@.skip(i as int),
                    id@,
                    key@,
                ),
            decreases self.devices.len() - i,
        {
            let device = &self.devices[i];
            if device.model_id == id {
                return find_resource(&device.resources, key);
            }
            assert(self.devices@.skip(i as int).drop_first() =~= self.devices@.skip(i + 1));
            i += 1;
        }
        None
    }
}

fn find_resource(resources: &Vec<ManifestResource>, key: &str) -> (src: Option<String>)
    ensures
        text::text_view(src) == resource_of(resources@, key@),
{
    let mut i: usize = 0;
    assert(resources@.skip(0) =~= resources@);
    while i < resources.len()
        invariant
            i <= resources.len(),
            resource_of(resources@, key@) == resource_of(resources@.skip(i as int), key@),
        decreases resources.len() - i,
    {
        if text::same(resources[i].key.as_str(), key) {
            return Some(resources[i].src.clone());
        }
        assert(resources@.skip(i as int).drop_first() =~= resources@.skip(i + 1));
        i += 1;
    }
    None
}

/// The bases under which a manifest may list the variants of a depot: the model
/// ids of the depot, then its name.
pub open spec fn variant_bases(entry: DeviceEntry, depot: Seq<char>) -> Seq<Seq<char>> {
    text::texts(entry.model_ids@).push(depot)
}

/// The file that the first of `bases` with any gives for variant `ext`.
pub open spec fn first_resource(
    devices: Seq<ManifestDevice>,
    bases: Seq<Seq<char>>,
    ext: u8,
    key: Seq<char>,
) -> Option<Seq<char>>
    decreases bases.len(),
{
    if bases.len() == 0 {
        None
    } else {
        match device_resource(devices, variant_id(bases[0], ext), key) {
            Some(src) => Some(src),
            None => first_resource(devices, bases.drop_first(), ext, key),
        }
    }
}

/// The file that `manifest` gives for variant `ext` of a depot.
pub open spec fn variant_file(
    manifest: Option<&DepotManifest>,
    depot: Seq<char>,
    entry: DeviceEntry,
    ext: u8,
    key: Seq<char>,
) -> Option<Seq<char>> {
    match manifest {
        Some(manifest) => first_resource(
            manifest.devices@,
            variant_bases(entry, depot),
            ext,
            key,
        ),
        None => None,
    }
}

/// Resolve the colour variant filename for `resource_key`. `ext == 0` resolves the
/// base-model entry — needed for depots whose base render isn't a baseline file.
/// Manifests key variants on one of the entry's model ids *or* on the depot name
/// itself, so every listed id and finally the depot name is tried as the base.
/// `None` when the manifest is missing or unreadable, or lacks the variant under
/// every base.
pub fn pick_variant_filename(
    manifest: Option<&DepotManifest>,
    depot: &str,
    entry: &DeviceEntry,
    ext: u8,
    resource_key: &str,
) -> (file: Option<String>)
    ensures
        text::text_view(file) == variant_file(manifest, depot@, *entry, ext, resource_key@),
{
    let readable = match manifest {
        Some(readable) => readable,
        None => {
            return None;
        },
    };
    let ghost bases = variant_bases(*entry, depot@);
    let mut i: usize = 0;
    assert(bases.skip(0) =~= bases);
    while i < entry.model_ids.len()
        invariant
            i <= entry.model_ids.len(),
            manifest == Some(readable),
            bases == variant_bases(*entry, depot@),
            first_resource(readable.devices@, bases, ext, resource_key@) == first_resource(
                readable.devices@,
                bases.skip(i as int),
                ext,
                resource_key@,
            ),
        decreases entry.model_ids.len() - i,
    {
        let found = readable.resource_for_variant(entry.model_ids[i].as_str(), ext, resource_key);
        assert(bases.skip(i as int)[0] == entry.model_ids@[i as int]@);
        if found.is_some() {
            return found;
        }
        assert(bases.skip(i as int).drop_first() =~= bases.skip(i + 1));
        i += 1;
    }
    assert(bases.skip(i as int)[0] == depot@);
    assert(bases.skip(i as int).drop_first() =~= Seq::empty());
    assert(first_resource(
        readable.devices@,
        bases.skip(i as int).drop_first(),
        ext,
        resource_key@,
    ) is None);
    readable.resource_for_variant(depot, ext, resource_key)
}

/// A manifest that keys its variants on the depot name is understood: where none
/// of the model ids gives a file, the depot name decides.
pub proof fn depot_name_is_the_last_base(
    manifest: &DepotManifest,
    depot: Seq<char>,
    entry: DeviceEntry,
    ext: u8,
    key: Seq<char>,
)
    requires
        forall|i: int|
            0 <= i < entry.model_ids.len() ==> device_resource(
                manifest.devices@,
                variant_id(#[trigger] text::texts(entry.model_ids@)[i], ext),
                key,
            ) is None,
    ensures
        variant_file(Some(manifest), depot, entry, ext, key) == device_resource(
            manifest.devices@,
            variant_id(depot, ext),
            key,
        ),
{
    lemma_last_base(manifest.devices@, text::texts(entry.model_ids@), depot, ext, key);
}

proof fn lemma_last_base(
    devices: Seq<ManifestDevice>,
    ids: Seq<Seq<char>>,
    depot: Seq<char>,
    ext: u8,
    key: Seq<char>,
)
    requires
        forall|i: int|
            0 <= i < ids.len() ==> device_resource(
                devices,
                variant_id(#[trigger] ids[i], ext),
                key,
            ) is None,
    ensures
        first_resource(devices, ids.push(depot), ext, key) == device_resource(
            devices,
            variant_id(depot, ext),
            key,
        ),
    decreases ids.len(),
{
    let all = ids.push(depot);
    if ids.len() == 0 {
        assert(all.drop_first() =~= Seq::empty());
        assert(first_resource(devices, all.drop_first(), ext, key) is None);
    } else {
        let rest = ids.drop_first();
        assert(all.drop_first() =~= rest.push(depot));
        assert(all[0] == ids[0]);
        assert forall|i: int| 0 <= i < rest.len() implies device_resource(
            devices,
            variant_id(#[trigger] rest[i], ext),
            key,
        ) is None by {
            assert(rest[i] == ids[i + 1]);
        }
        lemma_last_base(devices, rest, depot, ext, key);
    }
}

/// Whether `name` is a render that the baseline already brought.
pub open spec fn baseline_render(name: Seq<char>) -> bool {
    name == "front_core.png"@ || name == "front.png"@ || name == "side_core.png"@ || name
        == "side.png"@
}

/// The keys of the renders that depend on the colour variant: the front view, the
/// side or buttons view, and the view of a camera.
pub open spec fn variant_keys() -> Seq<Seq<char>> {
    seq!["device_image"@, "device_buttons_image"@, "device_camera_image"@]
}

/// The variant renders for `keys` that the baseline did not bring.
pub open spec fn variant_renders(
    manifest: Option<&DepotManifest>,
    depot: Seq<char>,
    entry: DeviceEntry,
    ext: u8,
    keys: Seq<Seq<char>>,
) -> Seq<Seq<char>>
    decreases keys.len(),
{
    if keys.len() == 0 {
        Seq::empty()
    } else {
        let earlier = variant_renders(manifest, depot, entry, ext, keys.drop_last());
        match variant_file(manifest, depot, entry, ext, keys.last()) {
            Some(name) => if baseline_render(name) {
                earlier
            } else {
                earlier.push(name)
            },
            None => earlier,
        }
    }
}

fn push_render(names: &mut Vec<String>, found: Option<String>)
    ensures
        text::texts(final(names)@) == (match text::text_view(found) {
            Some(name) => if baseline_render(name) {
                text::texts(old(names)@)
            } else {
                text::texts(old(names)@).push(name)
            },
            None => text::texts(old(names)@),
        }),
{
    if let Some(name) = found {
        let fetched = text::same(name.as_str(), "front_core.png") || text::same(
            name.as_str(),
            "front.png",
        ) || text::same(name.as_str(), "side_core.png") || text::same(name.as_str(), "side.png");
        if !fetched {
            let ghost before = text::texts(names@);
            names.push(name);
            assert(text::texts(names@) =~= before.push(name@));
        }
    }
}

/// Names the renders of colour variant `ext` that are fetched once the manifest is
/// there.
pub fn variant_names(
    manifest: Option<&DepotManifest>,
    depot: &str,
    entry: &DeviceEntry,
    ext: u8,
) -> (names: Vec<String>)
    ensures
        text::texts(names@) == variant_renders(manifest, depot@, *entry, ext, variant_keys()),
{
    let mut names: Vec<String> = Vec::new();
    push_render(&mut names, pick_variant_filename(manifest, depot, entry, ext, "device_image"));
    push_render(
        &mut names,
        pick_variant_filename(manifest, depot, entry, ext, "device_buttons_image"),
    );
    push_render(
        &mut names,
        pick_variant_filename(manifest, depot, entry, ext, "device_camera_image"),
    );
    proof {
        let three = variant_keys();
        let two = seq!["device_image"@, "device_buttons_image"@];
        let one = seq!["device_image"@];
        assert(three.drop_last() =~= two);
        assert(two.drop_last() =~= one);
        assert(one.drop_last() =~= Seq::empty());
        assert(text::texts(Seq::<String>::empty()) =~= Seq::empty());
        reveal_with_fuel(variant_renders, 4);
    }
    names
}

/// One file to fetch.
#[derive(Debug, Clone, Copy, PartialEq, Eq, Structural)]
pub struct Fetch {
    /// Position of the file in the registry's list.
    pub file: usize,
    /// Whether the sync of the depot fails with the fetch.
    pub required: bool,
}

/// Whether file `i` is the first one that is listed under `name`.
pub open spec fn listed_at(files: Seq<FileEntry>, name: Seq<char>, i: int) -> bool {
    &&& 0 <= i < files.len()
    &&& files[i].name@ == name
    &&& forall|j: int| 0 <= j < i ==> (#[trigger] files[j]).name@ != name
}

/// Whether a file is listed under `name`.
pub open spec fn listed(files: Seq<FileEntry>, name: Seq<char>) -> bool {
    exists|i: int| 0 <= i < files.len() && (#[trigger] files[i]).name@ == name
}

/// The file that is listed under `name`, the first one if there are several.
pub fn listed_file(entry: &DeviceEntry, name: &str) -> (file: Option<usize>)
    ensures
        match file {
            Some(i) => listed_at(entry.files@, name@, i as int),
            None => !listed(entry.files@, name@),
        },
{
    let mut i: usize = 0;
    while i < entry.files.len()
        invariant
            i <= entry.files.len(),
            forall|j: int| 0 <= j < i ==> (#[trigger] entry.files@[j]).name@ != name@,
        decreases entry.files.len() - i,
    {
        if text::same(entry.files[i].name.as_str(), name) {
            return Some(i);
        }
        i += 1;
    }
    None
}

/// The file that is listed under `name`.
pub open spec fn position_of(files: Seq<FileEntry>, name: Seq<char>) -> int {
    choose|i: int| listed_at(files, name, i)
}

/// The fetches of what is listed of `names`, in their order.
pub open spec fn fetches(
    files: Seq<FileEntry>,
    names: Seq<Seq<char>>,
    required: bool,
) -> Seq<Fetch>
    decreases names.len(),
{
    if names.len() == 0 {
        Seq::empty()
    } else {
        let earlier = fetches(files, names.drop_last(), required);
        if listed(files, names.last()) {
            earlier.push(Fetch { file: position_of(files, names.last()) as usize, required })
        } else {
            earlier
        }
    }
}

/// Plans the fetches of `names`. A name the registry doesn't list is skipped:
/// everything written to the cache must carry a registry hash, so a tampered host
/// can't plant unverified files.
pub fn fetch_plan(entry: &DeviceEntry, names: &Vec<String>, required: bool) -> (plan: Vec<Fetch>)
    ensures
        plan@ == fetches(entry.files@, text::texts(names@), required),
{
    let mut plan: Vec<Fetch> = Vec::new();
    let ghost all = text::texts(names@);
    let mut i: usize = 0;
    while i < names.len()
        invariant
            i <= names.len(),
            all == text::texts(names@),
            plan@ == fetches(entry.files@, all.take(i as int), required),
        decreases names.len() - i,
    {
        assert(all.take(i + 1).drop_last() =~= all.take(i as int));
        assert(all.take(i + 1).last() == names@[i as int]@);
        if let Some(file) = listed_file(entry, names[i].as_str()) {
            proof {
                lemma_position(entry.files@, names@[i as int]@, file as int);
            }
            plan.push(Fetch { file, required });
        }
        i += 1;
    }
    assert(all.take(i as int) =~= all);
    plan
}

proof fn lemma_position(files: Seq<FileEntry>, name: Seq<char>, i: int)
    requires
        listed_at(files, name, i),
    ensures
        listed(files, name),
        position_of(files, name) == i,
{
    let j = position_of(files, name);
    assert(files[i].name@ == name);
    assert(listed_at(files, name, j));
    if j < i {
        assert(files[j].name@ != name);
    }
    if i < j {
        assert(files[i].name@ != name);
    }
}

proof fn lemma_listed_position(files: Seq<FileEntry>, name: Seq<char>)
    requires
        listed(files, name),
    ensures
        listed_at(files, name, position_of(files, name)),
{
    let i = choose|i: int| 0 <= i < files.len() && (#[trigger] files[i]).name@ == name;
    lemma_first_listed(files, name, i);
}

proof fn lemma_first_listed(files: Seq<FileEntry>, name: Seq<char>, i: int)
    requires
        0 <= i < files.len(),
        files[i].name@ == name,
    ensures
        exists|j: int| listed_at(files, name, j),
    decreases i,
{
    if exists|j: int| 0 <= j < i && (#[trigger] files[j]).name@ == name {
        let j = choose|j: int| 0 <= j < i && (#[trigger] files[j]).name@ == name;
        lemma_first_listed(files, name, j);
    } else {
        assert(listed_at(files, name, i));
    }
}

/// Nothing is fetched that the registry does not list, and nothing that was not
/// asked for.
pub proof fn only_listed_files_are_fetched(
    files: Seq<FileEntry>,
    names: Seq<Seq<char>>,
    required: bool,
    i: int,
)
    requires
        files.len() <= usize::MAX,
        0 <= i < fetches(files, names, required).len(),
    ensures
        ({
            let fetch = fetches(files, names, required)[i];
            &&& fetch.file < files.len()
            &&& names.contains(files[fetch.file as int].name@)
            &&& fetch.required == required
        }),
    decreases names.len(),
{
    let fewer = names.drop_last();
    let earlier = fetches(files, fewer, required);
    if i < earlier.len() {
        only_listed_files_are_fetched(files, fewer, required, i);
        let name = files[earlier[i].file as int].name@;
        let k = choose|k: int| 0 <= k < fewer.len() && fewer[k] == name;
        assert(names[k] == name);
    } else {
        lemma_listed_position(files, names.last());
        assert(names[names.len() - 1] == names.last());
    }
}

/// What the sync of a depot needs next.
#[derive(Debug, PartialEq, Eq)]
pub enum DepotStep {
    /// Fetch a file, given by its position in the registry's list.
    Fetch(usize),
    /// Read the manifest from the cache.
    ReadManifest,
    /// Nothing; this is the result.
    Done(Result<(), String>),
}

/// Mathematical contents of a [`DepotSync`].
#[verifier::ext_equal]
pub struct DepotSyncView {
    /// Name of the depot.
    pub depot: Seq<char>,
    /// What the registry lists of it.
    pub entry: DeviceEntry,
    /// Colour variant.
    pub ext: u8,
    /// Fetches that are still to be made, the next one first.
    pub pending: Seq<Fetch>,
    /// Whether the manifest was asked for.
    pub manifest_read: bool,
    /// Why the sync failed, if it did.
    pub failure: Option<Seq<char>>,
}

impl DepotSyncView {
    /// The start: the `baseline` files, which must come, then the `buttons` render,
    /// if there is one, which may fail.
    pub open spec fn start(
        depot: Seq<char>,
        entry: DeviceEntry,
        ext: u8,
        baseline: Seq<Seq<char>>,
        buttons: Seq<Seq<char>>,
    ) -> Self {
        DepotSyncView {
            depot,
            entry,
            ext,
            pending: fetches(entry.files@, baseline, true) + fetches(entry.files@, buttons, false),
            manifest_read: false,
            failure: None,
        }
    }

    /// A fetch ended with `failure`. A required one that failed ends the sync; an
    /// optional one that failed is passed over.
    pub open spec fn fetched(self, failure: Option<Seq<char>>) -> Self {
        if failure is Some && self.pending[0].required {
            DepotSyncView { pending: Seq::empty(), manifest_read: true, failure, ..self }
        } else {
            DepotSyncView { pending: self.pending.drop_first(), ..self }
        }
    }

    /// The manifest was read; the renders of the colour variant come next, and
    /// each of them may fail.
    pub open spec fn manifest(self, manifest: Option<&DepotManifest>) -> Self {
        DepotSyncView {
            pending: fetches(
                self.entry.files@,
                variant_renders(manifest, self.depot, self.entry, self.ext, variant_keys()),
                false,
            ),
            manifest_read: true,
            ..self
        }
    }

    /// Whether `step` is what the sync needs next.
    pub open spec fn needs(self, step: DepotStep) -> bool {
        match step {
            DepotStep::Fetch(file) => self.pending.len() > 0 && file == self.pending[0].file,
            DepotStep::ReadManifest => self.pending.len() == 0 && !self.manifest_read,
            DepotStep::Done(result) => {
                &&& self.pending.len() == 0
                &&& self.manifest_read
                &&& match (result, self.failure) {
                    (Ok(_), None) => true,
                    (Err(shown), Some(failure)) => shown@ == failure,
                    _ => false,
                }
            },
        }
    }
}

/// The sync of one depot. Whoever runs it does what [`Self::next`] asks for and
/// reports back with [`Self::fetched`] or [`Self::manifest`].
pub struct DepotSync {
    target: DepotTarget,
    plan: Vec<Fetch>,
    at: usize,
    manifest_read: bool,
    failure: Option<String>,
}

impl View for DepotSync {
    type V = DepotSyncView;

    closed spec fn view(&self) -> DepotSyncView {
        DepotSyncView {
            depot: self.target.depot@,
            entry: self.target.entry,
            ext: self.target.ext,
            pending: self.plan@.skip(self.at as int),
            manifest_read: self.manifest_read,
            failure: text::text_view(self.failure),
        }
    }
}

impl DepotSync {
    /// What was planned was at most carried out.
    pub closed spec fn wf(&self) -> bool {
        self.at <= self.plan.len()
    }

    /// Starts the sync of `target`. `baseline` names its baseline files: the hotspot
    /// metadata, the manifest and the hero render. `buttons` names its dedicated
    /// buttons render, if it has one.
    pub fn start(target: DepotTarget, baseline: &Vec<String>, buttons: Option<String>) -> (sync:
        DepotSync)
        ensures
            sync.wf(),
            sync@ == DepotSyncView::start(
                target.depot@,
                target.entry,
                target.ext,
                text::texts(baseline@),
                (match buttons {
                    Some(name) => seq![name@],
                    None => Seq::empty(),
                }),
            ),
    {
        let mut plan = fetch_plan(&target.entry, baseline, true);
        let mut optional: Vec<String> = Vec::new();
        if let Some(name) = buttons {
            optional.push(name);
        }
        assert(text::texts(optional@) =~= match buttons {
            Some(name) => seq![name@],
            None => Seq::empty(),
        });
        let mut more = fetch_plan(&target.entry, &optional, false);
        plan.append(&mut more);
        let sync = DepotSync { target, plan, at: 0, manifest_read: false, failure: None };
        assert(sync.plan@.skip(0) =~= sync.plan@);
        sync
    }

    /// What is synced.
    pub fn target(&self) -> (target: &DepotTarget)
        ensures
            target.depot@ == self@.depot,
            target.entry == self@.entry,
            target.ext == self@.ext,
    {
        &self.target
    }

    /// What is needed next.
    pub fn next(&self) -> (step: DepotStep)
        requires
            self.wf(),
        ensures
            self@.needs(step),
    {
        if self.at < self.plan.len() {
            DepotStep::Fetch(self.plan[self.at].file)
        } else if !self.manifest_read {
            DepotStep::ReadManifest
        } else {
            match &self.failure {
                Some(failure) => DepotStep::Done(Err(failure.clone())),
                None => DepotStep::Done(Ok(())),
            }
        }
    }

    /// Takes the result of the fetch that [`Self::next`] asked for.
    pub fn fetched(&mut self, result: Result<(), String>)
        requires
            old(self).wf(),
            old(self)@.pending.len() > 0,
        ensures
            final(self).wf(),
            final(self)@ == old(self)@.fetched(
                match result {
                    Ok(_) => None,
                    Err(failure) => Some(failure@),
                },
            ),
    {
        let ghost pending = self.plan@.skip(self.at as int);
        if let Err(failure) = result {
            if self.plan[self.at].required {
                self.at = self.plan.len();
                self.manifest_read = true;
                self.failure = Some(failure);
                assert(self.plan@.skip(self.at as int) =~= Seq::empty());
                return;
            }
        }
        self.at = self.at + 1;
        assert(self.plan@.skip(self.at as int) =~= pending.drop_first());
    }

    /// Takes the manifest that [`Self::next`] asked for; none if it is missing or
    /// unreadable.
    pub fn manifest(&mut self, manifest: Option<&DepotManifest>)
        requires
            old(self).wf(),
            old(self)@.pending.len() == 0,
            !old(self)@.manifest_read,
        ensures
            final(self).wf(),
            final(self)@ == old(self)@.manifest(manifest),
    {
        let names = variant_names(
            manifest,
            self.target.depot.as_str(),
            &self.target.entry,
            self.target.ext,
        );
        self.plan = fetch_plan(&self.target.entry, &names, false);
        self.at = 0;
        self.manifest_read = true;
        assert(self.plan@.skip(0) =~= self.plan@);
    }
}

/// A sync ends: each fetch leaves fewer to make, and the manifest is read once.
pub proof fn depot_sync_ends(
    sync: DepotSyncView,
    failure: Option<Seq<char>>,
    manifest: Option<&DepotManifest>,
)
    ensures
        sync.pending.len() > 0 ==> sync.fetched(failure).pending.len() < sync.pending.len(),
        sync.manifest_read ==> sync.fetched(failure).manifest_read,
        sync.manifest(manifest).manifest_read,
{
}

/// Failures of optional fetches change nothing: the sync goes on as if they had
/// succeeded.
pub proof fn optional_failure_is_passed_over(sync: DepotSyncView, failure: Seq<char>)
    requires
        sync.pending.len() > 0,
        !sync.pending[0].required,
    ensures
        sync.fetched(Some(failure)) == sync.fetched(None),
{
}

/// A baseline file that cannot be fetched ends the sync with that failure.
pub proof fn baseline_failure_ends_the_sync(
    sync: DepotSyncView,
    failure: Seq<char>,
    step: DepotStep,
)
    requires
        sync.pending.len() > 0,
        sync.pending[0].required,
        sync.fetched(Some(failure)).needs(step),
    ensures
        step matches DepotStep::Done(Err(shown)) && shown@ == failure,
{
}

/// A sync that has read the manifest only waits for fetches that may fail, so that
/// without an earlier failure it succeeds.
pub proof fn variant_fetches_are_optional(
    sync: DepotSyncView,
    manifest: Option<&DepotManifest>,
    i: int,
)
    requires
        sync.entry.files.len() <= usize::MAX,
        0 <= i < sync.manifest(manifest).pending.len(),
    ensures
        !sync.manifest(manifest).pending[i].required,
        sync.manifest(manifest).failure == sync.failure,
{
    let names = variant_renders(manifest, sync.depot, sync.entry, sync.ext, variant_keys());
    only_listed_files_are_fetched(sync.entry.files@, names, false, i);
}

/// The file of a variant render as it is fetched: nothing if there is none, or if it
/// is one of the four renders that the baseline brings.
pub open spec fn fetched_render(file: Option<Seq<char>>) -> Seq<Seq<char>> {
    match file {
        Some(name) => if name == "front_core.png"@ || name == "front.png"@ || name
            == "side_core.png"@ || name == "side.png"@ {
            Seq::empty()
        } else {
            seq![name]
        },
        None => Seq::empty(),
    }
}

/// The renders of a variant are those that the manifest maps for the front view, the
/// buttons view and the camera view, in this order, and each of them that the
/// baseline does not bring is fetched.
pub proof fn each_view_of_a_variant_is_named(
    manifest: Option<&DepotManifest>,
    depot: Seq<char>,
    entry: DeviceEntry,
    ext: u8,
    names: Seq<String>,
)
    requires
        text::texts(names) == variant_renders(manifest, depot, entry, ext, variant_keys()),
    ensures
        text::texts(names) == fetched_render(
            variant_file(manifest, depot, entry, ext, "device_image"@),
        ) + fetched_render(variant_file(manifest, depot, entry, ext, "device_buttons_image"@))
            + fetched_render(variant_file(manifest, depot, entry, ext, "device_camera_image"@)),
{
    let three = variant_keys();
    let two = seq!["device_image"@, "device_buttons_image"@];
    let one = seq!["device_image"@];
    assert(three.drop_last() =~= two);
    assert(two.drop_last() =~= one);
    assert(one.drop_last() =~= Seq::empty());
    reveal_with_fuel(variant_renders, 4);
    assert(text::texts(names) =~= fetched_render(
        variant_file(manifest, depot, entry, ext, "device_image"@),
    ) + fetched_render(variant_file(manifest, depot, entry, ext, "device_buttons_image"@))
        + fetched_render(variant_file(manifest, depot, entry, ext, "device_camera_image"@)));
}

/// A render that the manifest maps for a view of the variant, that the baseline does
/// not bring and that the registry lists, is among the fetches that follow the
/// manifest.
pub proof fn each_listed_view_is_fetched(
    sync: DepotSyncView,
    manifest: Option<&DepotManifest>,
    key: Seq<char>,
    name: Seq<char>,
    file: int,
)
    requires
        key == "device_image"@ || key == "device_buttons_image"@ || key == "device_camera_image"@,
        variant_file(manifest, sync.depot, sync.entry, sync.ext, key) == Some(name),
        name != "front_core.png"@ && name != "front.png"@ && name != "side_core.png"@ && name
            != "side.png"@,
        0 <= file < sync.entry.files.len(),
        sync.entry.files.len() <= usize::MAX,
        sync.entry.files@[file].name@ == name,
        forall|j: int| 0 <= j < file ==> (#[trigger] sync.entry.files@[j]).name@ != name,
    ensures
        sync.manifest(manifest).pending.contains(Fetch { file: file as usize, required: false }),
{
    let renders = variant_renders(manifest, sync.depot, sync.entry, sync.ext, variant_keys());
    let three = variant_keys();
    let two = seq!["device_image"@, "device_buttons_image"@];
    let one = seq!["device_image"@];
    assert(three.drop_last() =~= two);
    assert(two.drop_last() =~= one);
    assert(one.drop_last() =~= Seq::empty());
    reveal_with_fuel(variant_renders, 4);
    let a = fetched_render(
        variant_file(manifest, sync.depot, sync.entry, sync.ext, "device_image"@),
    );
    let b = fetched_render(
        variant_file(manifest, sync.depot, sync.entry, sync.ext, "device_buttons_image"@),
    );
    let c = fetched_render(
        variant_file(manifest, sync.depot, sync.entry, sync.ext, "device_camera_image"@),
    );
    assert(renders =~= a + b + c);
    let k: int = if key == "device_image"@ {
        0
    } else if key == "device_buttons_image"@ {
        a.len() as int
    } else {
        (a.len() + b.len()) as int
    };
    assert(renders[k] == name);
    each_listed_name_is_fetched(sync.entry.files@, renders, false, k, file);
}

/// Every name that the registry lists is fetched, from the first file that is listed
/// under it.
pub proof fn each_listed_name_is_fetched(
    files: Seq<FileEntry>,
    names: Seq<Seq<char>>,
    required: bool,
    k: int,
    file: int,
)
    requires
        0 <= k < names.len(),
        0 <= file < files.len() <= usize::MAX,
        files[file].name@ == names[k],
        forall|j: int| 0 <= j < file ==> (#[trigger] files[j]).name@ != names[k],
    ensures
        fetches(files, names, required).contains(Fetch { file: file as usize, required }),
    decreases names.len(),
{
    let all = fetches(files, names, required);
    let fewer = names.drop_last();
    let earlier = fetches(files, fewer, required);
    let wanted = Fetch { file: file as usize, required };
    if k == names.len() - 1 {
        lemma_position(files, names[k], file);
        assert(all == earlier.push(wanted));
        assert(all[earlier.len() as int] == wanted);
    } else {
        each_listed_name_is_fetched(files, fewer, required, k, file);
        let j = choose|j: int| 0 <= j < earlier.len() && earlier[j] == wanted;
        assert(all[j] == wanted);
    }
}

/// Fetches are planned name by name: those of two lists, one after the other, are
/// those of the first and then those of the second, and a single name is fetched
/// exactly if a file is listed under it.
pub proof fn fetches_are_planned_name_by_name(
    files: Seq<FileEntry>,
    a: Seq<Seq<char>>,
    b: Seq<Seq<char>>,
    required: bool,
)
    ensures
        fetches(files, a + b, required) == fetches(files, a, required) + fetches(
            files,
            b,
            required,
        ),
        a.len() == 0 ==> fetches(files, a, required).len() == 0,
        a.len() == 1 ==> (fetches(files, a, required).len() == 1 <==> exists|i: int|
            0 <= i < files.len() && (#[trigger] files[i]).name@ == a[0]),
        a.len() == 1 ==> fetches(files, a, required).len() <= 1,
    decreases b.len(),
{
    reveal_with_fuel(fetches, 2);
    if b.len() == 0 {
        assert(a + b =~= a);
        assert(fetches(files, a, required) + fetches(files, b, required) =~= fetches(
            files,
            a,
            required,
        ));
    } else {
        assert((a + b).drop_last() =~= a + b.drop_last());
        assert((a + b).last() == b.last());
        fetches_are_planned_name_by_name(files, a, b.drop_last(), required);
        assert(fetches(files, a + b, required) =~= fetches(files, a, required) + fetches(
            files,
            b,
            required,
        ));
    }
    if a.len() == 1 {
        assert(a.drop_last() =~= Seq::empty());
    }
}

/// What is left of a sync after `n` fetches that succeeded.
pub open spec fn after_fetches(sync: DepotSyncView, n: nat) -> DepotSyncView
    decreases n,
{
    if n == 0 {
        sync
    } else {
        after_fetches(sync, (n - 1) as nat).fetched(None)
    }
}

proof fn lemma_after_fetches(sync: DepotSyncView, n: nat)
    requires
        n <= sync.pending.len(),
    ensures
        after_fetches(sync, n) == (DepotSyncView {
            pending: sync.pending.skip(n as int),
            ..sync
        }),
    decreases n,
{
    if n == 0 {
        assert(sync.pending.skip(0) =~= sync.pending);
    } else {
        lemma_after_fetches(sync, (n - 1) as nat);
        assert(sync.pending.skip(n - 1).drop_first() =~= sync.pending.skip(n as int));
    }
}

/// A sync whose fetches succeed fetches the baseline files and then the buttons
/// render, reads the manifest, fetches the renders of the variant, and succeeds.
pub proof fn undisturbed_sync_fetches_everything(
    target: DepotTarget,
    baseline: Seq<Seq<char>>,
    buttons: Seq<Seq<char>>,
    manifest: Option<&DepotManifest>,
    names: Seq<String>,
    n: nat,
    step: DepotStep,
)
    requires
        text::texts(names) == variant_renders(
            manifest,
            target.depot@,
            target.entry,
            target.ext,
            variant_keys(),
        ),
    ensures
        ({
            let files = target.entry.files@;
            let first = fetches(files, baseline, true) + fetches(files, buttons, false);
            let second = fetches(files, text::texts(names), false);
            let start = DepotSyncView::start(
                target.depot@,
                target.entry,
                target.ext,
                baseline,
                buttons,
            );
            let read = after_fetches(start, first.len()).manifest(manifest);
            &&& n < first.len() && after_fetches(start, n).needs(step) ==> step
                == DepotStep::Fetch(first[n as int].file)
            &&& n == first.len() && after_fetches(start, n).needs(step) ==> step is ReadManifest
            &&& n < second.len() && after_fetches(read, n).needs(step) ==> step
                == DepotStep::Fetch(second[n as int].file)
            &&& n == second.len() && after_fetches(read, n).needs(step) ==> (
            step matches DepotStep::Done(result) && result is Ok)
        }),
{
    let files = target.entry.files@;
    let first = fetches(files, baseline, true) + fetches(files, buttons, false);
    let second = fetches(files, text::texts(names), false);
    let start = DepotSyncView::start(target.depot@, target.entry, target.ext, baseline, buttons);
    lemma_after_fetches(start, first.len());
    let read = after_fetches(start, first.len()).manifest(manifest);
    if n <= first.len() {
        lemma_after_fetches(start, n);
    }
    if n <= second.len() {
        lemma_after_fetches(read, n);
    }
}

/// The base variant has the id of its base; every other variant has its number, in
/// decimal, behind it.
pub proof fn variants_are_numbered(base: Seq<char>, ext: u8)
    ensures
        variant_id(base, 0) == base,
        ext > 0 ==> base.is_prefix_of(variant_id(base, ext)),
        ext > 0 ==> variant_id(base, ext).skip(base.len() as int) == "_ext"@ + text::decimal_text(
            ext as nat,
        ),
{
    assert(variant_id(base, ext).skip(base.len() as int) =~= if ext == 0 {
        Seq::empty()
    } else {
        "_ext"@ + text::decimal_text(ext as nat)
    });
}

/// In a manifest the first entry of a variant decides, and in that entry the first
/// file of a key.
pub proof fn first_entry_of_a_variant_decides(
    devices: Seq<ManifestDevice>,
    id: Seq<char>,
    key: Seq<char>,
    d: int,
    r: int,
)
    requires
        0 <= d < devices.len(),
        devices[d].model_id@ == id,
        forall|j: int| 0 <= j < d ==> (#[trigger] devices[j]).model_id@ != id,
        0 <= r <= devices[d].resources.len(),
        r < devices[d].resources.len() ==> devices[d].resources@[r].key@ == key,
        forall|j: int| 0 <= j < r ==> (#[trigger] devices[d].resources@[j]).key@ != key,
    ensures
        device_resource(devices, id, key) == (if r < devices[d].resources.len() {
            Some(devices[d].resources@[r].src@)
        } else {
            None
        }),
    decreases d,
{
    if d > 0 {
        let rest = devices.drop_first();
        assert(devices[0].model_id@ != id);
        assert(rest[d - 1] == devices[d]);
        assert forall|j: int| 0 <= j < d - 1 implies (#[trigger] rest[j]).model_id@ != id by {
            assert(rest[j] == devices[j + 1]);
        }
        first_entry_of_a_variant_decides(rest, id, key, d - 1, r);
    } else {
        lemma_resource(devices[0].resources@, key, r);
    }
}

proof fn lemma_resource(resources: Seq<ManifestResource>, key: Seq<char>, r: int)
    requires
        0 <= r <= resources.len(),
        r < resources.len() ==> resources[r].key@ == key,
        forall|j: int| 0 <= j < r ==> (#[trigger] resources[j]).key@ != key,
    ensures
        resource_of(resources, key) == (if r < resources.len() {
            Some(resources[r].src@)
        } else {
            None
        }),
    decreases r,
{
    if r > 0 {
        let rest = resources.drop_first();
        assert(resources[0].key@ != key);
        assert forall|j: int| 0 <= j < r - 1 implies (#[trigger] rest[j]).key@ != key by {
            assert(rest[j] == resources[j + 1]);
        }
        lemma_resource(rest, key, r - 1);
    }
}

/// A variant that a manifest does not list has no file.
pub proof fn unlisted_variant_has_no_file(
    devices: Seq<ManifestDevice>,
    id: Seq<char>,
    key: Seq<char>,
)
    requires
        forall|j: int| 0 <= j < devices.len() ==> (#[trigger] devices[j]).model_id@ != id,
    ensures
        device_resource(devices, id, key) is None,
    decreases devices.len(),
{
    if devices.len() > 0 {
        assert(devices[0].model_id@ != id);
        let rest = devices.drop_first();
        assert forall|j: int| 0 <= j < rest.len() implies (#[trigger] rest[j]).model_id@ != id by {
            assert(rest[j] == devices[j + 1]);
        }
        unlisted_variant_has_no_file(rest, id, key);
    }
}

/// The bases of a variant are tried in order, the model ids of the depot first: the
/// first one that gives a file decides.
pub proof fn first_model_id_with_a_file_decides(
    manifest: &DepotManifest,
    depot: Seq<char>,
    entry: DeviceEntry,
    ext: u8,
    key: Seq<char>,
    b: int,
    src: Seq<char>,
)
    requires
        0 <= b < entry.model_ids.len(),
        device_resource(manifest.devices@, variant_id(entry.model_ids@[b]@, ext), key) == Some(src),
        forall|j: int|
            0 <= j < b ==> device_resource(
                manifest.devices@,
                variant_id((#[trigger] entry.model_ids@[j])@, ext),
                key,
            ) is None,
    ensures
        variant_file(Some(manifest), depot, entry, ext, key) == Some(src),
{
    let bases = variant_bases(entry, depot);
    assert forall|j: int| 0 <= j < b implies device_resource(
        manifest.devices@,
        variant_id(#[trigger] bases[j], ext),
        key,
    ) is None by {
        assert(bases[j] == entry.model_ids@[j]@);
    }
    assert(bases[b] == entry.model_ids@[b]@);
    lemma_first_base(manifest.devices@, bases, ext, key, b);
}

proof fn lemma_first_base(
    devices: Seq<ManifestDevice>,
    bases: Seq<Seq<char>>,
    ext: u8,
    key: Seq<char>,
    b: int,
)
    requires
        0 <= b < bases.len(),
        device_resource(devices, variant_id(bases[b], ext), key) is Some,
        forall|j: int|
            0 <= j < b ==> device_resource(
                devices,
                variant_id(#[trigger] bases[j], ext),
                key,
            ) is None,
    ensures
        first_resource(devices, bases, ext, key) == device_resource(
            devices,
            variant_id(bases[b], ext),
            key,
        ),
    decreases b,
{
    if b > 0 {
        let rest = bases.drop_first();
        assert(device_resource(devices, variant_id(bases[0], ext), key) is None);
        assert forall|j: int| 0 <= j < b - 1 implies device_resource(
            devices,
            variant_id(#[trigger] rest[j], ext),
            key,
        ) is None by {
            assert(rest[j] == bases[j + 1]);
        }
        lemma_first_base(devices, rest, ext, key, b - 1);
    }
}

} // verus!
