use std::time::Duration;

use openlogi_onboard::assets::{
    depot_candidates, model_key, plan_depots, should_run, source_for_sync, sync, sync_retry_delay,
    AssetSource, AssetSourcePreference, AssetStep, AssetSync, AssetTarget, DepotTarget, DeviceEntry,
    DeviceModelInfo, FileEntry, IndexLookup,
};
use openlogi_onboard::depot::{
    fetch_plan, listed_file, pick_variant_filename, variant_names, DepotManifest, DepotStep,
    DepotSync, Fetch, ManifestDevice, ManifestResource,
};

fn image(model_id: &str, src: &str) -> ManifestDevice {
    ManifestDevice {
        model_id: model_id.to_string(),
        resources: vec![ManifestResource {
            key: "device_image".to_string(),
            src: src.to_string(),
        }],
    }
}

#[test]
fn variant_lookup_falls_back_to_the_depot_name_base() {
    // The G305 depot's manifest keys its variants on the depot name
    // (`g305`, `g305_ext1`, …) while the index lists model id `4074`;
    // without the depot-name fallback the render never downloads.
    let manifest = DepotManifest {
        devices: vec![
            image("g305", "front_black.png"),
            image("g305_ext2", "front_white.png"),
        ],
    };
    let entry = DeviceEntry {
        model_ids: vec!["4074".to_string()],
        asset_path: "v1/devices/g305/".to_string(),
        files: vec![],
    };

    assert_eq!(
        pick_variant_filename(Some(&manifest), "g305", &entry, 0, "device_image").as_deref(),
        Some("front_black.png"),
        "ext 0 must resolve through the depot-name base"
    );
    assert_eq!(
        pick_variant_filename(Some(&manifest), "g305", &entry, 2, "device_image").as_deref(),
        Some("front_white.png"),
        "colour variants must resolve through the depot-name base too"
    );
    assert_eq!(
        pick_variant_filename(Some(&manifest), "g305", &entry, 0, "device_buttons_image"),
        None,
        "a resource the manifest lacks stays absent under every base"
    );
}

fn delay(attempts: u32) -> Duration {
    Duration::from_secs(sync_retry_delay(attempts))
}

#[test]
fn retry_delay_doubles_then_caps() {
    assert_eq!(delay(1), Duration::from_secs(1));
    assert_eq!(delay(2), Duration::from_secs(2));
    assert_eq!(delay(3), Duration::from_secs(4));
    assert_eq!(delay(5), Duration::from_secs(16));
    // Caps at 60s and never overflows the shift for large attempt counts.
    assert_eq!(delay(7), Duration::from_secs(60));
    assert_eq!(delay(u32::MAX), Duration::from_secs(60));
}

#[test]
fn automatic_preference_races_the_built_in_sources() {
    assert_eq!(
        source_for_sync(AssetSourcePreference::Automatic, None),
        None
    );
}

#[test]
fn openlogi_preference_uses_the_official_source() {
    assert_eq!(
        source_for_sync(AssetSourcePreference::OpenLogi, None),
        Some(AssetSource::Production)
    );
}

#[test]
fn fastly_preference_uses_the_shard_aware_jsdelivr_source() {
    assert_eq!(
        source_for_sync(AssetSourcePreference::Fastly, None),
        Some(AssetSource::JsDelivr)
    );
}

#[test]
fn environment_override_takes_precedence_over_the_saved_source() {
    assert_eq!(
        source_for_sync(
            AssetSourcePreference::Cloudflare,
            Some("https://assets.example.test")
        ),
        Some(AssetSource::Override(
            "https://assets.example.test".to_owned()
        ))
    );
}

#[test]
fn standalone_target_key_is_model_scoped_not_physical() {
    assert_eq!(
        model_key(&AssetTarget::Standalone {
            registry_model_id: "8c900".into(),
        }),
        "standalone:model:8c900"
    );
}

#[test]
fn retry_delay_follows_the_whole_series() {
    let delays: Vec<u64> = (0..10).map(sync_retry_delay).collect();
    assert_eq!(delays, [1, 1, 2, 4, 8, 16, 32, 60, 60, 60]);
}

#[test]
fn cloudflare_preference_uses_the_pages_source() {
    assert_eq!(
        source_for_sync(AssetSourcePreference::Cloudflare, None),
        Some(AssetSource::Pages)
    );
}

#[test]
fn setting_decides_whether_to_sync_before_the_build() {
    for off in ["off", "false", "0"] {
        assert!(!should_run(Some(off), true, false));
    }
    for on in ["on", "true", "1"] {
        assert!(should_run(Some(on), false, true));
    }
    for setting in [None, Some("OFF"), Some("")] {
        assert!(should_run(setting, true, true));
        assert!(should_run(setting, false, false));
        assert!(!should_run(setting, false, true));
    }
}

fn hidpp(extended_model_id: u8, codename: Option<&str>) -> AssetTarget {
    AssetTarget::Hidpp {
        model: DeviceModelInfo {
            extended_model_id,
            model_ids: [0x4074, 0, 0xc07d],
        },
        codename: codename.map(|name| name.to_string()),
    }
}

#[test]
fn hidpp_target_key_holds_model_variant_and_codename() {
    assert_eq!(
        model_key(&hidpp(0x0a, Some("G305"))),
        "hidpp:0a:4074:0000:c07d:G305"
    );
    assert_eq!(model_key(&hidpp(2, None)), "hidpp:02:4074:0000:c07d:");
}

fn device(names: &[&str]) -> DeviceEntry {
    DeviceEntry {
        model_ids: vec!["4074".to_string()],
        asset_path: "v1/devices/g305/".to_string(),
        files: names
            .iter()
            .map(|name| FileEntry {
                name: name.to_string(),
                sha256: format!("hash of {name}"),
            })
            .collect(),
    }
}

fn target(depot: &str, ext: u8) -> DepotTarget {
    DepotTarget {
        depot: depot.to_string(),
        entry: device(&[]),
        ext,
    }
}

fn found(depot: &str) -> Option<(String, DeviceEntry)> {
    Some((depot.to_string(), device(&[])))
}

#[test]
fn candidates_carry_the_variant_of_their_device() {
    let targets = vec![
        hidpp(3, None),
        AssetTarget::Standalone {
            registry_model_id: "8c900".to_string(),
        },
        hidpp(4, None),
    ];
    assert_eq!(
        depot_candidates(found("forced"), &targets, vec![found("a"), found("b"), None]),
        [target("forced", 0), target("a", 3), target("b", 0)]
    );
    assert_eq!(depot_candidates(None, &vec![], vec![]), []);
}

#[test]
fn depots_are_sorted_and_the_first_of_each_is_kept() {
    assert_eq!(
        plan_depots(vec![
            target("g502", 1),
            target("g305", 2),
            target("g502", 3),
            target("a", 4),
            target("g305", 5),
        ]),
        [target("a", 4), target("g305", 2), target("g502", 1)]
    );
    assert_eq!(plan_depots(vec![]), []);
}

/// The depots that a sync asks for when each of them fares as `outcome` says, and
/// its result.
fn run(
    mut sync: AssetSync,
    outcome: fn() -> Result<(), String>,
) -> (Vec<DepotTarget>, Result<(), String>) {
    let mut depots = vec![];
    let mut step = sync.start();
    loop {
        match step {
            AssetStep::SyncDepot(depot) => {
                depots.push(depot);
                step = sync.synced(outcome());
            }
            AssetStep::Done(result) => return (depots, result),
        }
    }
}

#[test]
fn sync_needs_the_index_and_nothing_else() {
    assert_eq!(
        run(
            sync(&vec![hidpp(3, None)], Err("offline".to_string())),
            || Ok(())
        ),
        (vec![], Err("fetch asset index: offline".to_string()))
    );
    let nothing = IndexLookup {
        forced: None,
        found: vec![],
    };
    assert_eq!(run(sync(&vec![], Ok(nothing)), || Ok(())), (vec![], Ok(())));
}

#[test]
fn failing_depots_do_not_stop_the_sync() {
    let outcomes: [fn() -> Result<(), String>; 2] = [|| Ok(()), || Err("404".to_string())];
    for outcome in outcomes {
        let lookup = IndexLookup {
            forced: found("g305"),
            found: vec![found("g305"), None, found("a")],
        };
        assert_eq!(
            run(
                sync(
                    &vec![hidpp(3, None), hidpp(4, None), hidpp(5, None)],
                    Ok(lookup)
                ),
                outcome
            ),
            (vec![target("a", 5), target("g305", 0)], Ok(()))
        );
    }
}

#[test]
fn targets_can_be_cloned() {
    let target = hidpp(3, Some("G305"));
    assert_eq!(target.clone(), target);
}

fn manifest() -> DepotManifest {
    let resource = |key: &str, src: &str| ManifestResource {
        key: key.to_string(),
        src: src.to_string(),
    };
    DepotManifest {
        devices: vec![
            ManifestDevice {
                model_id: "4074_ext12".to_string(),
                resources: vec![
                    resource("device_buttons_image", "side.png"),
                    resource("device_camera_image", "camera.png"),
                ],
            },
            ManifestDevice {
                model_id: "g305_ext12".to_string(),
                resources: vec![
                    resource("device_image", "front_red.png"),
                    resource("device_buttons_image", "side_red.png"),
                ],
            },
        ],
    }
}

#[test]
fn model_ids_go_before_the_depot_name() {
    let entry = device(&[]);
    let manifest = manifest();
    let pick = |key| pick_variant_filename(Some(&manifest), "g305", &entry, 12, key);
    assert_eq!(pick("device_image").as_deref(), Some("front_red.png"));
    assert_eq!(pick("device_buttons_image").as_deref(), Some("side.png"));
    assert_eq!(pick("device_camera_image").as_deref(), Some("camera.png"));
    assert_eq!(
        pick_variant_filename(None, "g305", &entry, 12, "device_image"),
        None
    );
    // The side view is a baseline render and is not fetched again.
    assert_eq!(
        variant_names(Some(&manifest), "g305", &entry, 12),
        ["front_red.png", "camera.png"]
    );
    assert!(variant_names(None, "g305", &entry, 12).is_empty());
}

#[test]
fn only_listed_files_are_fetched() {
    let entry = device(&["a", "b", "a"]);
    assert_eq!(listed_file(&entry, "a"), Some(0));
    assert_eq!(listed_file(&entry, "c"), None);
    let names = vec!["b".to_string(), "c".to_string(), "a".to_string()];
    assert_eq!(
        fetch_plan(&entry, &names, true),
        [
            Fetch {
                file: 1,
                required: true
            },
            Fetch {
                file: 0,
                required: true
            }
        ]
    );
}

/// The sync of a depot with two baseline files and all its renders.
fn depot_sync() -> DepotSync {
    let target = DepotTarget {
        depot: "g305".to_string(),
        entry: device(&["metadata.json", "hotspots.json", "side.png", "front_red.png"]),
        ext: 12,
    };
    let baseline = vec![
        "metadata.json".to_string(),
        "hotspots.json".to_string(),
        "front.png".to_string(),
    ];
    DepotSync::start(target, &baseline, Some("side.png".to_string()))
}

#[test]
fn depot_is_synced_baseline_first_and_variants_last() {
    let mut sync = depot_sync();
    for file in [0, 1, 2] {
        assert_eq!(sync.next(), DepotStep::Fetch(file));
        sync.fetched(Ok(()));
    }
    assert_eq!(sync.next(), DepotStep::ReadManifest);
    sync.manifest(Some(&manifest()));
    assert_eq!(sync.next(), DepotStep::Fetch(3));
    sync.fetched(Ok(()));
    assert_eq!(sync.next(), DepotStep::Done(Ok(())));
}

#[test]
fn optional_renders_may_fail() {
    let mut sync = depot_sync();
    sync.fetched(Ok(()));
    sync.fetched(Ok(()));
    assert_eq!(sync.next(), DepotStep::Fetch(2));
    sync.fetched(Err("404".to_string()));
    sync.manifest(Some(&manifest()));
    sync.fetched(Err("404".to_string()));
    assert_eq!(sync.next(), DepotStep::Done(Ok(())));
}

#[test]
fn baseline_failure_ends_the_sync() {
    let mut sync = depot_sync();
    sync.fetched(Ok(()));
    sync.fetched(Err("offline".to_string()));
    assert_eq!(sync.next(), DepotStep::Done(Err("offline".to_string())));
}

#[test]
fn unreadable_manifest_ends_the_sync_well() {
    let mut sync = depot_sync();
    for _ in 0..3 {
        sync.fetched(Ok(()));
    }
    sync.manifest(None);
    assert_eq!(sync.next(), DepotStep::Done(Ok(())));
}
