use openlogi_onboard::diag::{
    finish_with_restore, info_lines, round_trip_target, DiagAction, DiagEvent, DiagStep, Diagnostic,
    ProfilesArgs,
};
use openlogi_onboard::profiles::{OnboardProfilesInfo, ProfileEntry, ProfilesMode};

fn info(mode: ProfilesMode, active_profile: u16) -> OnboardProfilesInfo {
    OnboardProfilesInfo {
        profile_count: 2,
        profile_count_oob: 1,
        button_count: 11,
        sector_count: 4,
        sector_size: 254,
        memory_model_id: 1,
        profile_format_id: 1,
        macro_format_id: 1,
        mode,
        active_profile,
        directory: vec![
            ProfileEntry {
                sector: 1,
                enabled: true,
            },
            ProfileEntry {
                sector: 2,
                enabled: true,
            },
            ProfileEntry {
                sector: 0x0101,
                enabled: true,
            },
        ],
    }
}

#[test]
fn target_prefers_an_alternate_enabled_user_sector() {
    assert_eq!(round_trip_target(&info(ProfilesMode::Onboard, 1)), Some(2));
}

#[test]
fn target_never_selects_or_replaces_an_active_rom_sector() {
    assert_eq!(
        round_trip_target(&info(ProfilesMode::Onboard, 0x0101)),
        None
    );
}

#[test]
fn host_mode_with_no_active_profile_can_exercise_a_user_sector() {
    assert_eq!(round_trip_target(&info(ProfilesMode::Host, 0)), Some(1));
}

#[test]
fn operation_error_is_not_hidden_when_restoration_also_fails() {
    let Err(error) = finish_with_restore(
        Err("write".to_string()),
        Err("restore".to_string()),
    ) else {
        panic!("both failures must be reported");
    };
    assert!(error.contains("write"));
    assert!(error.contains("restore"));
}

fn args(read_only: bool, leave_onboard: bool) -> ProfilesArgs {
    ProfilesArgs {
        read_only,
        leave_onboard,
        device: None,
    }
}

fn step(lines: &[&str], action: DiagAction) -> DiagStep {
    DiagStep {
        lines: lines.iter().map(|line| line.to_string()).collect(),
        action,
    }
}

/// Starts a diagnostic and takes the lines that describe the device off its first
/// step.
fn start(args: &ProfilesArgs, info: &OnboardProfilesInfo) -> (Diagnostic, DiagStep) {
    let (diagnostic, mut first) = Diagnostic::start(args, info);
    let described = info_lines(info);
    assert_eq!(first.lines[..described.len()], described[..]);
    first.lines.drain(..described.len());
    (diagnostic, first)
}

fn failure(message: &str) -> DiagAction {
    DiagAction::Finish(Err(message.to_string()))
}

#[test]
fn state_is_described_line_by_line() {
    let mut info = info(ProfilesMode::Host, 0x0101);
    info.directory[1].enabled = false;
    assert_eq!(
        info_lines(&info),
        [
            "  memory: 2 user + 1 ROM profiles, 11 buttons, 4 sectors x 254 bytes",
            "  formats: memory_model=1 profile=1 macro=1",
            "  mode: Host",
            "  active profile: 0x0101 (ROM)",
            "  directory:",
            "    sector 0x0001  enabled",
            "    sector 0x0002  disabled",
            "    sector 0x0101  enabled (ROM)",
        ]
    );
    info.mode = ProfilesMode::Onboard;
    info.active_profile = 0;
    info.sector_size = u16::MAX;
    info.directory.clear();
    assert_eq!(
        info_lines(&info),
        [
            "  memory: 2 user + 1 ROM profiles, 11 buttons, 4 sectors x 65535 bytes",
            "  formats: memory_model=1 profile=1 macro=1",
            "  mode: Onboard",
            "  active profile: none reported (0x0000)",
            "  directory: empty (erased flash or no profiles written)",
        ]
    );
    info.active_profile = 0xabcd - 0x0100;
    assert_eq!(info_lines(&info)[3], "  active profile: 0xaacd");
}

#[test]
fn target_falls_back_to_the_active_profile_itself() {
    let mut info = info(ProfilesMode::Onboard, 2);
    info.directory[0].enabled = false;
    assert_eq!(round_trip_target(&info), Some(2));
    info.directory[1].enabled = false;
    assert_eq!(round_trip_target(&info), None);
    info.mode = ProfilesMode::Host;
    info.active_profile = 0x0101;
    info.directory[1].enabled = true;
    assert_eq!(round_trip_target(&info), Some(2));
}

#[test]
fn a_single_failure_is_passed_on_unchanged() {
    assert_eq!(finish_with_restore(Ok(()), Ok(())), Ok(()));
    assert_eq!(
        finish_with_restore(Err("a".to_string()), Ok(())),
        Err("a".to_string())
    );
    assert_eq!(
        finish_with_restore(Ok(()), Err("b".to_string())),
        Err("b".to_string())
    );
    assert_eq!(
        finish_with_restore(Err("a".to_string()), Err("b".to_string())),
        Err("a; additionally failed to restore device state: b".to_string())
    );
}

#[test]
fn read_only_diagnostic_writes_nothing() {
    let (_, first) = start(&args(true, false), &info(ProfilesMode::Host, 1));
    assert_eq!(first, step(&[], DiagAction::Finish(Ok(()))));
}

#[test]
fn host_device_is_exercised_and_restored() {
    let (mut diagnostic, first) = start(&args(false, false), &info(ProfilesMode::Host, 1));
    assert_eq!(
        first,
        step(
            &["  entering mode: Host -> Onboard"],
            DiagAction::SetMode(ProfilesMode::Onboard)
        )
    );
    assert_eq!(
        diagnostic.step(DiagEvent::Mode(Ok(ProfilesMode::Onboard))),
        step(
            &["  activating profile sector 0x0002"],
            DiagAction::SetProfile(2)
        )
    );
    assert_eq!(
        diagnostic.step(DiagEvent::Profile(Ok(2))),
        step(
            &["  restoring profile sector 0x0001"],
            DiagAction::SetProfile(1)
        )
    );
    assert_eq!(
        diagnostic.step(DiagEvent::Profile(Ok(1))),
        step(
            &["  ✓ profile round-trip OK", "  restoring mode: Host"],
            DiagAction::SetMode(ProfilesMode::Host)
        )
    );
    assert_eq!(
        diagnostic.step(DiagEvent::Mode(Ok(ProfilesMode::Host))),
        step(
            &["  ✓ mode round-trip OK", "✓ onboard-profile diagnostic OK"],
            DiagAction::Finish(Ok(()))
        )
    );
}

#[test]
fn every_failure_reaches_the_result() {
    let (mut diagnostic, _) = start(&args(false, false), &info(ProfilesMode::Host, 1));
    diagnostic.step(DiagEvent::Mode(Ok(ProfilesMode::Onboard)));
    diagnostic.step(DiagEvent::Profile(Ok(3)));
    assert_eq!(
        diagnostic.step(DiagEvent::Profile(Err("timed out".to_string()))),
        step(
            &["  restoring mode: Host"],
            DiagAction::SetMode(ProfilesMode::Host)
        )
    );
    assert_eq!(
        diagnostic.step(DiagEvent::Mode(Ok(ProfilesMode::Onboard))),
        step(
            &[],
            failure(
                "active-profile write not applied: requested 0x0002, device reports 0x0003; \
                 additionally failed to restore device state: restore active profile: timed out; \
                 additionally failed to restore device state: onboard mode restore not applied: \
                 requested Host, device reports Onboard"
            )
        )
    );
}

#[test]
fn refused_onboard_mode_skips_the_profiles_and_restores_the_mode() {
    let (mut diagnostic, _) = start(&args(false, false), &info(ProfilesMode::Host, 1));
    assert_eq!(
        diagnostic.step(DiagEvent::Mode(Ok(ProfilesMode::Host))),
        step(
            &["  restoring mode: Host"],
            DiagAction::SetMode(ProfilesMode::Host)
        )
    );
    assert_eq!(
        diagnostic.step(DiagEvent::Mode(Err("gone".to_string()))),
        step(
            &[],
            failure(
                "onboard mode write not applied: requested Onboard, device reports Host; \
                 additionally failed to restore device state: restore onboard mode: gone"
            )
        )
    );
}

#[test]
fn device_can_be_left_in_onboard_mode() {
    let (mut diagnostic, _) = start(&args(false, true), &info(ProfilesMode::Host, 0));
    diagnostic.step(DiagEvent::Mode(Ok(ProfilesMode::Onboard)));
    assert_eq!(
        diagnostic.step(DiagEvent::Profile(Ok(1))),
        step(
            &[
                "  ✓ profile round-trip OK",
                "✓ onboard-profile diagnostic OK (device left in onboard mode)"
            ],
            DiagAction::Finish(Ok(()))
        )
    );
    let (mut diagnostic, _) = start(&args(false, true), &info(ProfilesMode::Host, 0));
    assert_eq!(
        diagnostic.step(DiagEvent::Mode(Err("gone".to_string()))),
        step(&[], failure("write onboard mode: gone"))
    );
}

#[test]
fn onboard_device_keeps_its_mode() {
    let mut single = info(ProfilesMode::Onboard, 2);
    single.directory.remove(0);
    let (mut diagnostic, first) = start(&args(false, false), &single);
    assert_eq!(
        first,
        step(
            &[
                "  only one enabled user profile — exercising sector 0x0002 in place",
                "  activating profile sector 0x0002"
            ],
            DiagAction::SetProfile(2)
        )
    );
    assert_eq!(
        diagnostic.step(DiagEvent::Profile(Err("busy".to_string()))),
        step(&[], failure("write active profile: busy"))
    );

    let (mut diagnostic, _) = start(&args(false, false), &info(ProfilesMode::Onboard, 1));
    diagnostic.step(DiagEvent::Profile(Ok(2)));
    assert_eq!(
        diagnostic.step(DiagEvent::Profile(Ok(2))),
        step(
            &[],
            failure("active-profile restore not applied: requested 0x0001, device reports 0x0002")
        )
    );
}

#[test]
fn unrestorable_or_absent_profiles_are_skipped() {
    let (_, first) = start(&args(false, false), &info(ProfilesMode::Onboard, 0x0101));
    assert_eq!(
        first,
        step(
            &[
                "  active onboard profile is not a restorable user sector — profile round-trip skipped",
                "✓ onboard-profile diagnostic OK"
            ],
            DiagAction::Finish(Ok(()))
        )
    );
    let mut empty = info(ProfilesMode::Onboard, 1);
    empty.directory.clear();
    let (_, first) = start(&args(false, false), &empty);
    assert_eq!(
        first,
        step(
            &[
                "  no enabled user profiles in the directory — profile round-trip skipped",
                "✓ onboard-profile diagnostic OK"
            ],
            DiagAction::Finish(Ok(()))
        )
    );
}
