//! The onboard-profiles (HID++ `0x8100`) diagnostic: shows the state of a device,
//! then activates a profile and restores what was active.
//!
//! [`Diagnostic`] decides; whoever runs it prints the lines of each
//! [`DiagStep`], performs its action on the device, and hands the reply back.

use vstd::prelude::*;

use crate::profiles;
use crate::profiles::{is_rom_sector, OnboardProfilesInfo, ProfileEntry, ProfilesMode};
use crate::text;

verus! {

/// How the diagnostic is run.
#[derive(Debug, PartialEq, Eq)]
pub struct ProfilesArgs {
    /// Only read and print the onboard-profile state; skip all writes.
    pub read_only: bool,
    /// Leave the device in onboard mode after the diagnostic. Useful for
    /// visually checking an onboard profile.
    pub leave_onboard: bool,
    /// Run against the device whose name contains this string
    /// (case-insensitive) instead of auto-selecting.
    pub device: Option<String>,
}

/// The name of a mode.
pub open spec fn mode_text(mode: ProfilesMode) -> Seq<char> {
    match mode {
        ProfilesMode::Host => "Host"@,
        ProfilesMode::Onboard => "Onboard"@,
    }
}

fn mode_name(mode: ProfilesMode) -> (name: &'static str)
    ensures
        name@ == mode_text(mode),
{
    match mode {
        ProfilesMode::Host => "Host",
        ProfilesMode::Onboard => "Onboard",
    }
}

/// The line that describes the active profile.
pub open spec fn active_line(sector: u16) -> Seq<char> {
    if sector == 0 {
        "  active profile: none reported (0x0000)"@
    } else if profiles::rom_sector(sector) {
        "  active profile: "@ + text::sector_text(sector) + " (ROM)"@
    } else {
        "  active profile: "@ + text::sector_text(sector)
    }
}

/// The line that describes a directory entry.
pub open spec fn entry_line(entry: ProfileEntry) -> Seq<char> {
    "    sector "@ + text::sector_text(entry.sector) + (if entry.enabled {
        "  enabled"@
    } else {
        "  disabled"@
    }) + (if profiles::rom_sector(entry.sector) {
        " (ROM)"@
    } else {
        ""@
    })
}

/// The line that describes the profile memory.
pub open spec fn memory_line(info: profiles::ProfilesInfoView) -> Seq<char> {
    "  memory: "@ + text::decimal_text(info.profile_count as nat) + " user + "@
        + text::decimal_text(info.profile_count_oob as nat) + " ROM profiles, "@
        + text::decimal_text(info.button_count as nat) + " buttons, "@ + text::decimal_text(
        info.sector_count as nat,
    ) + " sectors x "@ + text::decimal_text(info.sector_size as nat) + " bytes"@
}

/// The line that names the formats of the profile memory.
pub open spec fn formats_line(info: profiles::ProfilesInfoView) -> Seq<char> {
    "  formats: memory_model="@ + text::decimal_text(info.memory_model_id as nat) + " profile="@
        + text::decimal_text(info.profile_format_id as nat) + " macro="@ + text::decimal_text(
        info.macro_format_id as nat,
    )
}

/// The lines that describe the directory.
pub open spec fn directory_lines(directory: Seq<ProfileEntry>) -> Seq<Seq<char>> {
    if directory.len() == 0 {
        seq!["  directory: empty (erased flash or no profiles written)"@]
    } else {
        seq!["  directory:"@] + Seq::new(directory.len(), |i: int| entry_line(directory[i]))
    }
}

/// The lines that describe the state of a device.
pub open spec fn info_text(info: profiles::ProfilesInfoView) -> Seq<Seq<char>> {
    seq![
        memory_line(info),
        formats_line(info),
        "  mode: "@ + mode_text(info.mode),
        active_line(info.active_profile),
    ] + directory_lines(info.directory)
}

/// Describes the state of a device, line by line.
pub fn info_lines(info: &OnboardProfilesInfo) -> (lines: Vec<String>)
    ensures
        text::texts(lines@) == info_text(info@),
        lines.len() == 5 + info.directory.len(),
        ("  formats: memory_model="@ + text::decimal_text(info.memory_model_id as nat)
            + " profile="@ + text::decimal_text(info.profile_format_id as nat)).is_prefix_of(
            lines@[1]@,
        ),
        (" macro="@ + text::decimal_text(info.macro_format_id as nat)).is_suffix_of(lines@[1]@),
{
    let mut lines: Vec<String> = Vec::new();
    assert(text::texts(lines@) =~= Seq::empty());
    let mut memory = "  memory: ".to_owned();
    memory.append(text::decimal(info.profile_count as u64).as_str());
    memory.append(" user + ");
    memory.append(text::decimal(info.profile_count_oob as u64).as_str());
    memory.append(" ROM profiles, ");
    memory.append(text::decimal(info.button_count as u64).as_str());
    memory.append(" buttons, ");
    memory.append(text::decimal(info.sector_count as u64).as_str());
    memory.append(" sectors x ");
    memory.append(text::decimal(info.sector_size as u64).as_str());
    memory.append(" bytes");
    text::push_line(&mut lines, memory);
    let mut formats = "  formats: memory_model=".to_owned();
    formats.append(text::decimal(info.memory_model_id as u64).as_str());
    formats.append(" profile=");
    formats.append(text::decimal(info.profile_format_id as u64).as_str());
    formats.append(" macro=");
    formats.append(text::decimal(info.macro_format_id as u64).as_str());
    text::push_line(&mut lines, formats);
    text::push_line(&mut lines, text::join2("  mode: ", mode_name(info.mode)));
    let active = if info.active_profile == 0 {
        "  active profile: none reported (0x0000)".to_owned()
    } else {
        let mut line = text::join2(
            "  active profile: ",
            text::sector(info.active_profile).as_str(),
        );
        if is_rom_sector(info.active_profile) {
            line.append(" (ROM)");
        }
        line
    };
    text::push_line(&mut lines, active);
    if info.directory.len() == 0 {
        text::push_line(
            &mut lines,
            "  directory: empty (erased flash or no profiles written)".to_owned(),
        );
        assert(text::texts(lines@) =~= info_text(info@));
        proof {
            printed_state_shows_the_report(*info, lines@);
        }
        return lines;
    }
    text::push_line(&mut lines, "  directory:".to_owned());
    let ghost all = info_text(info@);
    let mut i: usize = 0;
    assert(text::texts(lines@) =~= all.take(5));
    while i < info.directory.len()
        invariant
            i <= info.directory.len(),
            info.directory.len() > 0,
            all == info_text(info@),
            text::texts(lines@) == all.take(5 + i),
        decreases info.directory.len() - i,
    {
        let entry = info.directory[i];
        let mut line = text::join2("    sector ", text::sector(entry.sector).as_str());
        if entry.enabled {
            line.append("  enabled");
        } else {
            line.append("  disabled");
        }
        if entry.is_rom() {
            line.append(" (ROM)");
        } else {
            line.append("");
        }
        text::push_line(&mut lines, line);
        assert(all[5 + i] == entry_line(entry));
        assert(text::texts(lines@) =~= all.take(5 + (i + 1)));
        i += 1;
    }
    assert(all.take(5 + i) =~= all);
    proof {
        printed_state_shows_the_report(*info, lines@);
    }
    lines
}

/// The first enabled user sector of a directory other than `avoid`.
pub open spec fn first_user_sector(directory: Seq<ProfileEntry>, avoid: Option<u16>) -> Option<u16>
    decreases directory.len(),
{
    if directory.len() == 0 {
        None
    } else if directory[0].selectable() && avoid != Some(directory[0].sector) {
        Some(directory[0].sector)
    } else {
        first_user_sector(directory.drop_first(), avoid)
    }
}

/// Whether the device runs an onboard profile that could not be restored.
pub open spec fn unrestorable(info: profiles::ProfilesInfoView) -> bool {
    info.mode == ProfilesMode::Onboard && (info.active_profile == 0 || profiles::rom_sector(
        info.active_profile,
    ))
}

/// The sector that the diagnostic activates: none if the active profile could not
/// be restored, else an enabled user sector, preferably another than the active one.
pub open spec fn target_of(info: profiles::ProfilesInfoView) -> Option<u16> {
    if unrestorable(info) {
        None
    } else {
        match first_user_sector(info.directory, Some(info.active_profile)) {
            Some(sector) => Some(sector),
            None => first_user_sector(info.directory, None),
        }
    }
}

fn find_user_sector(directory: &Vec<ProfileEntry>, avoid: Option<u16>) -> (found: Option<u16>)
    ensures
        found == first_user_sector(directory@, avoid),
{
    let mut i: usize = 0;
    assert(directory@.skip(0) =~= directory@);
    while i < directory.len()
        invariant
            i <= directory.len(),
            first_user_sector(directory@, avoid) == first_user_sector(
                directory@.skip(i as int),
                avoid,
            ),
        decreases directory.len() - i,
    {
        let entry = directory[i];
        let avoided = match avoid {
            Some(sector) => sector == entry.sector,
            None => false,
        };
        if entry.enabled && !entry.is_rom() && !avoided {
            return Some(entry.sector);
        }
        assert(directory@.skip(i as int).drop_first() =~= directory@.skip(i + 1));
        i += 1;
    }
    None
}

/// The sector that the diagnostic activates, if there is one.
pub fn round_trip_target(info: &OnboardProfilesInfo) -> (target: Option<u16>)
    ensures
        target == target_of(info@),
{
    if info.mode == ProfilesMode::Onboard && (info.active_profile == 0 || is_rom_sector(
        info.active_profile,
    )) {
        return None;
    }
    match find_user_sector(&info.directory, Some(info.active_profile)) {
        Some(sector) => Some(sector),
        None => find_user_sector(&info.directory, None),
    }
}

/// The diagnostic never activates a ROM profile, nor one that is disabled or not
/// in the directory, and never takes a device away from a profile that it could
/// not restore.
pub proof fn target_is_an_enabled_user_sector(info: profiles::ProfilesInfoView, target: u16)
    requires
        target_of(info) == Some(target),
    ensures
        !profiles::rom_sector(target),
        exists|i: int|
            0 <= i < info.directory.len() && (#[trigger] info.directory[i]).selectable()
                && info.directory[i].sector == target,
        info.mode == ProfilesMode::Onboard ==> info.active_profile != 0 && !profiles::rom_sector(
            info.active_profile,
        ),
{
    if first_user_sector(info.directory, Some(info.active_profile)) is Some {
        lemma_found_sector(info.directory, Some(info.active_profile));
    } else {
        lemma_found_sector(info.directory, None);
    }
}

proof fn lemma_found_sector(directory: Seq<ProfileEntry>, avoid: Option<u16>)
    requires
        first_user_sector(directory, avoid) is Some,
    ensures
        exists|i: int|
            0 <= i < directory.len() && (#[trigger] directory[i]).selectable()
                && directory[i].sector == first_user_sector(directory, avoid)->0,
    decreases directory.len(),
{
    if directory[0].selectable() && avoid != Some(directory[0].sector) {
    } else {
        let rest = directory.drop_first();
        lemma_found_sector(rest, avoid);
        let i = choose|i: int|
            0 <= i < rest.len() && (#[trigger] rest[i]).selectable() && rest[i].sector
                == first_user_sector(rest, avoid)->0;
        assert(directory[i + 1] == rest[i]);
    }
}

/// An outcome, its error as text.
pub open spec fn outcome(result: Result<(), String>) -> Result<(), Seq<char>> {
    match result {
        Ok(_) => Ok(()),
        Err(e) => Err(e@),
    }
}

/// The outcome of an operation and of the restoration that followed it.
pub open spec fn combined(
    operation: Result<(), Seq<char>>,
    restore: Result<(), Seq<char>>,
) -> Result<(), Seq<char>> {
    match (operation, restore) {
        (Ok(_), Ok(_)) => Ok(()),
        (Err(e), Ok(_)) => Err(e),
        (Ok(_), Err(e)) => Err(e),
        (Err(operation), Err(restore)) => Err(
            operation + "; additionally failed to restore device state: "@ + restore,
        ),
    }
}

/// Combines the outcome of an operation with that of the restoration that followed
/// it. Neither failure hides the other.
pub fn finish_with_restore(operation: Result<(), String>, restore: Result<(), String>) -> (result:
    Result<(), String>)
    ensures
        outcome(result) == combined(outcome(operation), outcome(restore)),
{
    match (operation, restore) {
        (Ok(()), Ok(())) => Ok(()),
        (Err(e), Ok(())) => Err(e),
        (Ok(()), Err(e)) => Err(e),
        (Err(operation), Err(restore)) => Err(
            text::join3(
                operation.as_str(),
                "; additionally failed to restore device state: ",
                restore.as_str(),
            ),
        ),
    }
}

/// A run succeeds only if the operation and the restoration did, and the text of
/// a failure holds the text of each that failed.
pub proof fn no_failure_is_hidden(
    operation: Result<(), Seq<char>>,
    restore: Result<(), Seq<char>>,
)
    ensures
        combined(operation, restore) is Ok <==> operation is Ok && restore is Ok,
        operation matches Err(e) ==> combined(operation, restore) is Err && e.is_prefix_of(
            combined(operation, restore)->Err_0,
        ),
        restore matches Err(e) ==> combined(operation, restore) is Err && e.is_suffix_of(
            combined(operation, restore)->Err_0,
        ),
{
}

/// What the diagnostic asks of the device, or its result.
#[derive(Debug, PartialEq, Eq)]
pub enum DiagAction {
    /// Set the mode and read it back.
    SetMode(ProfilesMode),
    /// Set the active profile and read it back.
    SetProfile(u16),
    /// Nothing more; this is the result.
    Finish(Result<(), String>),
}

/// What came back.
#[derive(Debug, PartialEq, Eq)]
pub enum DiagEvent {
    /// The mode that was read back, or what went wrong.
    Mode(Result<ProfilesMode, String>),
    /// The active profile that was read back, or what went wrong.
    Profile(Result<u16, String>),
}

/// Lines to print, then what to do.
#[derive(Debug, PartialEq, Eq)]
pub struct DiagStep {
    /// The lines.
    pub lines: Vec<String>,
    /// What to do.
    pub action: DiagAction,
}

/// Where a diagnostic is.
enum Phase {
    /// The device was asked to enter onboard mode.
    Entering,
    /// The device was asked to activate the target.
    Activating,
    /// The device was asked to activate the original profile again; this is how
    /// activating the target went.
    RestoringProfile(Result<(), String>),
    /// The device was asked to enter its original mode again; this is how the
    /// operation went.
    RestoringMode(Result<(), String>),
    /// The diagnostic is over.
    Finished,
}

/// Mathematical contents of the position of a diagnostic.
#[verifier::ext_equal]
pub enum PhaseView {
    Entering,
    Activating,
    RestoringProfile(Result<(), Seq<char>>),
    RestoringMode(Result<(), Seq<char>>),
    Finished,
}

/// Mathematical contents of a [`DiagAction`].
#[verifier::ext_equal]
pub enum ActionView {
    SetMode(ProfilesMode),
    SetProfile(u16),
    Finish(Result<(), Seq<char>>),
}

/// Mathematical contents of a [`DiagEvent`].
#[verifier::ext_equal]
pub enum EventView {
    Mode(Result<ProfilesMode, Seq<char>>),
    Profile(Result<u16, Seq<char>>),
}

impl View for Phase {
    type V = PhaseView;

    closed spec fn view(&self) -> PhaseView {
        match *self {
            Phase::Entering => PhaseView::Entering,
            Phase::Activating => PhaseView::Activating,
            Phase::RestoringProfile(write) => PhaseView::RestoringProfile(outcome(write)),
            Phase::RestoringMode(operation) => PhaseView::RestoringMode(outcome(operation)),
            Phase::Finished => PhaseView::Finished,
        }
    }
}

impl View for DiagAction {
    type V = ActionView;

    open spec fn view(&self) -> ActionView {
        match *self {
            DiagAction::SetMode(mode) => ActionView::SetMode(mode),
            DiagAction::SetProfile(sector) => ActionView::SetProfile(sector),
            DiagAction::Finish(result) => ActionView::Finish(outcome(result)),
        }
    }
}

impl View for DiagEvent {
    type V = EventView;

    open spec fn view(&self) -> EventView {
        match *self {
            DiagEvent::Mode(Ok(mode)) => EventView::Mode(Ok(mode)),
            DiagEvent::Mode(Err(e)) => EventView::Mode(Err(e@)),
            DiagEvent::Profile(Ok(sector)) => EventView::Profile(Ok(sector)),
            DiagEvent::Profile(Err(e)) => EventView::Profile(Err(e@)),
        }
    }
}

/// What a diagnostic goes by: the state of the device when it started, the sector
/// it activates, and whether it leaves the device in onboard mode.
#[derive(Debug, Clone, Copy, PartialEq, Eq, Structural)]
pub struct DiagPlan {
    /// Mode of the device.
    pub mode: ProfilesMode,
    /// Active profile of the device.
    pub active: u16,
    /// Sector to activate.
    pub target: Option<u16>,
    /// Whether the device is left in onboard mode.
    pub leave_onboard: bool,
}

/// Where a diagnostic goes, what it prints on the way and what it then does.
#[verifier::ext_equal]
pub struct Move {
    pub lines: Seq<Seq<char>>,
    pub phase: PhaseView,
    pub action: ActionView,
}

impl Move {
    /// The same move, `line` printed before.
    pub open spec fn after_line(self, line: Seq<char>) -> Self {
        Move { lines: seq![line] + self.lines, ..self }
    }

    /// A move to `phase` that prints nothing and does `action`.
    pub open spec fn silent(phase: PhaseView, action: ActionView) -> Self {
        Move { lines: Seq::empty(), phase, action }
    }
}

impl DiagPlan {
    /// The plan for a device in the state `info`.
    pub open spec fn of(info: profiles::ProfilesInfoView, leave_onboard: bool) -> Self {
        DiagPlan {
            mode: info.mode,
            active: info.active_profile,
            target: target_of(info),
            leave_onboard,
        }
    }

    /// Whether the active profile is a user profile other than the target, so that
    /// it has to be activated again afterwards.
    pub open spec fn restores_profile(self) -> bool {
        self.active != 0 && self.target != Some(self.active) && !profiles::rom_sector(self.active)
    }

    /// The start, for a diagnostic that writes: a device in host mode first enters
    /// onboard mode, because firmware rejects a profile change in host mode.
    pub open spec fn begins(self) -> Move {
        if self.mode == ProfilesMode::Onboard {
            self.activates()
        } else {
            Move::silent(
                PhaseView::Entering,
                ActionView::SetMode(ProfilesMode::Onboard),
            ).after_line("  entering mode: "@ + mode_text(self.mode) + " -> Onboard"@)
        }
    }

    /// Onboard mode is entered: the target is activated, if there is one.
    pub open spec fn activates(self) -> Move {
        match self.target {
            Some(target) => {
                let activating = Move::silent(
                    PhaseView::Activating,
                    ActionView::SetProfile(target),
                ).after_line("  activating profile sector "@ + text::sector_text(target));
                if target == self.active {
                    activating.after_line(
                        "  only one enabled user profile — exercising sector "@ + text::sector_text(
                            target,
                        ) + " in place"@,
                    )
                } else {
                    activating
                }
            },
            None => self.ends_operation(Ok(())).after_line(
                if self.mode == ProfilesMode::Onboard && (self.active == 0 || profiles::rom_sector(
                    self.active,
                )) {
                    "  active onboard profile is not a restorable user sector — profile round-trip skipped"@
                } else {
                    "  no enabled user profiles in the directory — profile round-trip skipped"@
                },
            ),
        }
    }

    /// Activating the target ended with `write`. A failed write may still have
    /// reached the device, so the original profile is restored either way.
    pub open spec fn restores(self, write: Result<(), Seq<char>>) -> Move {
        if self.restores_profile() {
            Move::silent(
                PhaseView::RestoringProfile(write),
                ActionView::SetProfile(self.active),
            ).after_line("  restoring profile sector "@ + text::sector_text(self.active))
        } else {
            self.ends_round_trip(write, Ok(()))
        }
    }

    /// The target was activated and the original profile restored.
    pub open spec fn ends_round_trip(
        self,
        write: Result<(), Seq<char>>,
        restore: Result<(), Seq<char>>,
    ) -> Move {
        let result = combined(write, restore);
        if result is Ok {
            self.ends_operation(result).after_line("  ✓ profile round-trip OK"@)
        } else {
            self.ends_operation(result)
        }
    }

    /// The operation ended. Unless the device is left in onboard mode, its mode is
    /// restored, whatever the operation ended with.
    pub open spec fn ends_operation(self, operation: Result<(), Seq<char>>) -> Move {
        if self.leave_onboard {
            let last = Move::silent(PhaseView::Finished, ActionView::Finish(operation));
            if operation is Ok {
                last.after_line(
                    "✓ onboard-profile diagnostic OK (device left in onboard mode)"@,
                )
            } else {
                last
            }
        } else if self.mode == ProfilesMode::Onboard {
            self.ends(operation, Ok(()))
        } else {
            Move::silent(
                PhaseView::RestoringMode(operation),
                ActionView::SetMode(self.mode),
            ).after_line("  restoring mode: "@ + mode_text(self.mode))
        }
    }

    /// The operation ended and the mode was restored.
    pub open spec fn ends(
        self,
        operation: Result<(), Seq<char>>,
        restore: Result<(), Seq<char>>,
    ) -> Move {
        let result = combined(operation, restore);
        let last = Move::silent(PhaseView::Finished, ActionView::Finish(result));
        if result is Ok {
            last.after_line("✓ onboard-profile diagnostic OK"@)
        } else {
            last
        }
    }

    /// Whether `event` answers what was asked in `phase`.
    pub open spec fn answers(phase: PhaseView, event: EventView) -> bool {
        match phase {
            PhaseView::Entering | PhaseView::RestoringMode(_) => event is Mode,
            PhaseView::Activating | PhaseView::RestoringProfile(_) => event is Profile,
            PhaseView::Finished => false,
        }
    }

    /// The move that follows when `event` comes in `phase`.
    pub open spec fn moves(self, phase: PhaseView, event: EventView) -> Move {
        match (phase, event) {
            (PhaseView::Entering, EventView::Mode(reply)) => match entered(reply) {
                Ok(_) => self.activates(),
                Err(e) => self.ends_operation(Err(e)),
            },
            (PhaseView::Activating, EventView::Profile(reply)) => self.restores(
                activated(self.target->0, reply),
            ),
            (PhaseView::RestoringProfile(write), EventView::Profile(reply)) => self.ends_round_trip(
                write,
                profile_restored(self.active, reply),
            ),
            (PhaseView::RestoringMode(operation), EventView::Mode(reply)) => {
                let restore = mode_restored(self.mode, reply);
                let last = self.ends(operation, restore);
                if restore is Ok {
                    last.after_line("  ✓ mode round-trip OK"@)
                } else {
                    last
                }
            },
            _ => Move::silent(phase, ActionView::Finish(Ok(()))),
        }
    }
}

/// How entering onboard mode went, by what came back.
pub open spec fn entered(reply: Result<ProfilesMode, Seq<char>>) -> Result<(), Seq<char>> {
    match reply {
        Err(cause) => Err("write onboard mode: "@ + cause),
        Ok(mode) => if mode == ProfilesMode::Onboard {
            Ok(())
        } else {
            Err(
                "onboard mode write not applied: requested Onboard, device reports "@ + mode_text(
                    mode,
                ),
            )
        },
    }
}

/// How activating `target` went, by what came back.
pub open spec fn activated(target: u16, reply: Result<u16, Seq<char>>) -> Result<(), Seq<char>> {
    match reply {
        Err(cause) => Err("write active profile: "@ + cause),
        Ok(sector) => if sector == target {
            Ok(())
        } else {
            Err(
                "active-profile write not applied: requested "@ + text::sector_text(target)
                    + ", device reports "@ + text::sector_text(sector),
            )
        },
    }
}

/// How restoring the profile `original` went, by what came back.
pub open spec fn profile_restored(original: u16, reply: Result<u16, Seq<char>>) -> Result<
    (),
    Seq<char>,
> {
    match reply {
        Err(cause) => Err("restore active profile: "@ + cause),
        Ok(sector) => if sector == original {
            Ok(())
        } else {
            Err(
                "active-profile restore not applied: requested "@ + text::sector_text(original)
                    + ", device reports "@ + text::sector_text(sector),
            )
        },
    }
}

/// How restoring the mode `original` went, by what came back.
pub open spec fn mode_restored(
    original: ProfilesMode,
    reply: Result<ProfilesMode, Seq<char>>,
) -> Result<(), Seq<char>> {
    match reply {
        Err(cause) => Err("restore onboard mode: "@ + cause),
        Ok(mode) => if mode == original {
            Ok(())
        } else {
            Err(
                "onboard mode restore not applied: requested "@ + mode_text(original)
                    + ", device reports "@ + mode_text(mode),
            )
        },
    }
}

/// A diagnostic that is being run.
pub struct Diagnostic {
    plan: DiagPlan,
    phase: Phase,
}

impl Diagnostic {
    /// What the diagnostic goes by.
    pub closed spec fn plan(&self) -> DiagPlan {
        self.plan
    }

    /// Where the diagnostic is.
    pub closed spec fn phase(&self) -> PhaseView {
        self.phase@
    }

    /// Where a target is being activated there is one.
    pub open spec fn wf(&self) -> bool {
        self.phase() is Activating ==> self.plan().target is Some
    }

    /// Starts a diagnostic of a device in the state `info`: describes the state
    /// and, unless it is to be left alone, goes on.
    pub fn start(args: &ProfilesArgs, info: &OnboardProfilesInfo) -> (started: (
        Diagnostic,
        DiagStep,
    ))
        ensures
            started.0.wf(),
            started.0.plan() == DiagPlan::of(info@, args.leave_onboard),
            ({
                let first = if args.read_only {
                    Move::silent(PhaseView::Finished, ActionView::Finish(Ok(())))
                } else {
                    DiagPlan::of(info@, args.leave_onboard).begins()
                };
                &&& started.0.phase() == first.phase
                &&& text::texts(started.1.lines@) == info_text(info@) + first.lines
                &&& started.1.action@ == first.action
            }),
    {
        let plan = DiagPlan {
            mode: info.mode,
            active: info.active_profile,
            target: round_trip_target(info),
            leave_onboard: args.leave_onboard,
        };
        let mut lines = info_lines(info);
        let mut diagnostic = Diagnostic { plan, phase: Phase::Finished };
        if args.read_only {
            assert(text::texts(lines@) + Seq::<Seq<char>>::empty() =~= text::texts(lines@));
            let step = DiagStep { lines, action: DiagAction::Finish(Ok(())) };
            return (diagnostic, step);
        }
        let action = diagnostic.begin(&mut lines);
        (diagnostic, DiagStep { lines, action })
    }

    fn begin(&mut self, lines: &mut Vec<String>) -> (action: DiagAction)
        ensures
            final(self).wf(),
            final(self).follows(*old(self), old(lines)@, final(lines)@, action, old(
                self,
            ).plan().begins()),
    {
        let ghost expected = self.plan.begins();
        if self.plan.mode == ProfilesMode::Onboard {
            return self.activate(lines);
        }
        text::push_line(
            lines,
            text::join3("  entering mode: ", mode_name(self.plan.mode), " -> Onboard"),
        );
        self.phase = Phase::Entering;
        assert(text::texts(lines@) =~= text::texts(old(lines)@) + expected.lines);
        DiagAction::SetMode(ProfilesMode::Onboard)
    }

    /// Whether this is `before` after the move `expected`, which printed what is
    /// in `lines` and not in `lines_before` and asks for `action`.
    closed spec fn follows(
        self,
        before: Self,
        lines_before: Seq<String>,
        lines: Seq<String>,
        action: DiagAction,
        expected: Move,
    ) -> bool {
        &&& self.plan == before.plan
        &&& self.phase@ == expected.phase
        &&& action@ == expected.action
        &&& text::texts(lines) == text::texts(lines_before) + expected.lines
    }

    fn activate(&mut self, lines: &mut Vec<String>) -> (action: DiagAction)
        ensures
            final(self).wf(),
            final(self).follows(*old(self), old(lines)@, final(lines)@, action, old(
                self,
            ).plan().activates()),
    {
        let ghost expected = self.plan.activates();
        match self.plan.target {
            Some(target) => {
                if target == self.plan.active {
                    text::push_line(
                        lines,
                        text::join3(
                            "  only one enabled user profile — exercising sector ",
                            text::sector(target).as_str(),
                            " in place",
                        ),
                    );
                }
                text::push_line(
                    lines,
                    text::join2(
                        "  activating profile sector ",
                        text::sector(target).as_str(),
                    ),
                );
                self.phase = Phase::Activating;
                assert(text::texts(lines@) =~= text::texts(old(lines)@) + expected.lines);
                DiagAction::SetProfile(target)
            },
            None => {
                if self.plan.mode == ProfilesMode::Onboard && (self.plan.active == 0
                    || is_rom_sector(self.plan.active)) {
                    text::push_line(
                        lines,
                        "  active onboard profile is not a restorable user sector — profile round-trip skipped".to_owned(),
                    );
                } else {
                    text::push_line(
                        lines,
                        "  no enabled user profiles in the directory — profile round-trip skipped".to_owned(),
                    );
                }
                let action = self.end_operation(Ok(()), lines);
                assert(text::texts(lines@) =~= text::texts(old(lines)@) + expected.lines);
                action
            },
        }
    }

    fn restore(&mut self, write: Result<(), String>, lines: &mut Vec<String>) -> (action: DiagAction)
        ensures
            final(self).wf(),
            final(self).follows(*old(self), old(lines)@, final(lines)@, action, old(
                self,
            ).plan().restores(outcome(write))),
    {
        let ghost expected = self.plan.restores(outcome(write));
        let original: u16 = self.plan.active;
        let in_place = match self.plan.target {
            Some(target) => target == original,
            None => false,
        };
        if original == 0 || in_place || is_rom_sector(original) {
            return self.end_round_trip(write, Ok(()), lines);
        }
        text::push_line(
            lines,
            text::join2("  restoring profile sector ", text::sector(original).as_str()),
        );
        self.phase = Phase::RestoringProfile(write);
        assert(text::texts(lines@) =~= text::texts(old(lines)@) + expected.lines);
        DiagAction::SetProfile(original)
    }

    fn end_round_trip(
        &mut self,
        write: Result<(), String>,
        restore: Result<(), String>,
        lines: &mut Vec<String>,
    ) -> (action: DiagAction)
        ensures
            final(self).wf(),
            final(self).follows(*old(self), old(lines)@, final(lines)@, action, old(
                self,
            ).plan().ends_round_trip(outcome(write), outcome(restore))),
    {
        let ghost expected = self.plan.ends_round_trip(outcome(write), outcome(restore));
        let result = finish_with_restore(write, restore);
        if result.is_ok() {
            text::push_line(lines, "  ✓ profile round-trip OK".to_owned());
        }
        let action = self.end_operation(result, lines);
        assert(text::texts(lines@) =~= text::texts(old(lines)@) + expected.lines);
        action
    }

    fn end_operation(&mut self, operation: Result<(), String>, lines: &mut Vec<String>) -> (action:
        DiagAction)
        ensures
            final(self).wf(),
            final(self).follows(*old(self), old(lines)@, final(lines)@, action, old(
                self,
            ).plan().ends_operation(outcome(operation))),
    {
        let ghost expected = self.plan.ends_operation(outcome(operation));
        if self.plan.leave_onboard {
            if operation.is_ok() {
                text::push_line(
                    lines,
                    "✓ onboard-profile diagnostic OK (device left in onboard mode)".to_owned(),
                );
            }
            self.phase = Phase::Finished;
            assert(text::texts(lines@) =~= text::texts(old(lines)@) + expected.lines);
            return DiagAction::Finish(operation);
        }
        if self.plan.mode == ProfilesMode::Onboard {
            return self.end(operation, Ok(()), lines);
        }
        text::push_line(lines, text::join2("  restoring mode: ", mode_name(self.plan.mode)));
        self.phase = Phase::RestoringMode(operation);
        assert(text::texts(lines@) =~= text::texts(old(lines)@) + expected.lines);
        DiagAction::SetMode(self.plan.mode)
    }

    fn end(
        &mut self,
        operation: Result<(), String>,
        restore: Result<(), String>,
        lines: &mut Vec<String>,
    ) -> (action: DiagAction)
        ensures
            final(self).wf(),
            final(self).follows(*old(self), old(lines)@, final(lines)@, action, old(
                self,
            ).plan().ends(outcome(operation), outcome(restore))),
    {
        let ghost expected = self.plan.ends(outcome(operation), outcome(restore));
        let result = finish_with_restore(operation, restore);
        if result.is_ok() {
            text::push_line(lines, "✓ onboard-profile diagnostic OK".to_owned());
        }
        self.phase = Phase::Finished;
        assert(text::texts(lines@) =~= text::texts(old(lines)@) + expected.lines);
        DiagAction::Finish(result)
    }

    /// Takes the answer to the last action and goes on.
    pub fn step(&mut self, event: DiagEvent) -> (step: DiagStep)
        requires
            old(self).wf(),
            DiagPlan::answers(old(self).phase(), event@),
        ensures
            final(self).wf(),
            final(self).plan() == old(self).plan(),
            ({
                let next = old(self).plan().moves(old(self).phase(), event@);
                &&& final(self).phase() == next.phase
                &&& text::texts(step.lines@) == next.lines
                &&& step.action@ == next.action
            }),
    {
        let ghost next = self.plan.moves(self.phase@, event@);
        let mut lines: Vec<String> = Vec::new();
        assert(text::texts(lines@) =~= Seq::empty());
        let mut phase = Phase::Finished;
        std::mem::swap(&mut phase, &mut self.phase);
        let action = match (phase, event) {
            (Phase::Entering, DiagEvent::Mode(reply)) => match judge_entered(reply) {
                Ok(()) => self.activate(&mut lines),
                Err(e) => self.end_operation(Err(e), &mut lines),
            },
            (Phase::Activating, DiagEvent::Profile(reply)) => {
                let target: u16 = match self.plan.target {
                    Some(target) => target,
                    None => 0,
                };
                let write = judge_activated(target, reply);
                self.restore(write, &mut lines)
            },
            (Phase::RestoringProfile(write), DiagEvent::Profile(reply)) => {
                let restore = judge_profile_restored(self.plan.active, reply);
                self.end_round_trip(write, restore, &mut lines)
            },
            (Phase::RestoringMode(operation), DiagEvent::Mode(reply)) => {
                let restore = judge_mode_restored(self.plan.mode, reply);
                if restore.is_ok() {
                    text::push_line(&mut lines, "  ✓ mode round-trip OK".to_owned());
                }
                self.end(operation, restore, &mut lines)
            },
            _ => DiagAction::Finish(Ok(())),
        };
        assert(text::texts(lines@) =~= next.lines);
        DiagStep { lines, action }
    }
}

fn judge_entered(reply: Result<ProfilesMode, String>) -> (result: Result<(), String>)
    ensures
        outcome(result) == entered(
            match reply {
                Ok(mode) => Ok(mode),
                Err(e) => Err(e@),
            },
        ),
{
    match reply {
        Err(cause) => Err(text::join2("write onboard mode: ", cause.as_str())),
        Ok(mode) => if mode == ProfilesMode::Onboard {
            Ok(())
        } else {
            Err(
                text::join2(
                    "onboard mode write not applied: requested Onboard, device reports ",
                    mode_name(mode),
                ),
            )
        },
    }
}

fn judge_activated(target: u16, reply: Result<u16, String>) -> (result: Result<(), String>)
    ensures
        outcome(result) == activated(
            target,
            match reply {
                Ok(sector) => Ok(sector),
                Err(e) => Err(e@),
            },
        ),
{
    match reply {
        Err(cause) => Err(text::join2("write active profile: ", cause.as_str())),
        Ok(sector) => if sector == target {
            Ok(())
        } else {
            let mut message = text::join3(
                "active-profile write not applied: requested ",
                text::sector(target).as_str(),
                ", device reports ",
            );
            message.append(text::sector(sector).as_str());
            Err(message)
        },
    }
}

fn judge_profile_restored(original: u16, reply: Result<u16, String>) -> (result: Result<(), String>)
    ensures
        outcome(result) == profile_restored(
            original,
            match reply {
                Ok(sector) => Ok(sector),
                Err(e) => Err(e@),
            },
        ),
{
    match reply {
        Err(cause) => Err(text::join2("restore active profile: ", cause.as_str())),
        Ok(sector) => if sector == original {
            Ok(())
        } else {
            let mut message = text::join3(
                "active-profile restore not applied: requested ",
                text::sector(original).as_str(),
                ", device reports ",
            );
            message.append(text::sector(sector).as_str());
            Err(message)
        },
    }
}

fn judge_mode_restored(original: ProfilesMode, reply: Result<ProfilesMode, String>) -> (result:
    Result<(), String>)
    ensures
        outcome(result) == mode_restored(
            original,
            match reply {
                Ok(mode) => Ok(mode),
                Err(e) => Err(e@),
            },
        ),
{
    match reply {
        Err(cause) => Err(text::join2("restore onboard mode: ", cause.as_str())),
        Ok(mode) => if mode == original {
            Ok(())
        } else {
            let mut message = text::join3(
                "onboard mode restore not applied: requested ",
                mode_name(original),
                ", device reports ",
            );
            message.append(mode_name(mode));
            Err(message)
        },
    }
}

impl PhaseView {
    /// How many answers can still come.
    pub open spec fn answers_left(self) -> int {
        match self {
            PhaseView::Entering => 4,
            PhaseView::Activating => 3,
            PhaseView::RestoringProfile(_) => 2,
            PhaseView::RestoringMode(_) => 1,
            PhaseView::Finished => 0,
        }
    }

    /// Whether something went wrong on the way here.
    pub open spec fn failed(self) -> bool {
        match self {
            PhaseView::RestoringProfile(write) => write is Err,
            PhaseView::RestoringMode(operation) => operation is Err,
            _ => false,
        }
    }
}

impl Move {
    /// Whether something went wrong on the way to this move or with it.
    pub open spec fn failed(self) -> bool {
        match self.action {
            ActionView::Finish(result) => result is Err,
            _ => self.phase.failed(),
        }
    }
}

impl DiagPlan {
    /// Whether `event` says that what was asked in `phase` did not happen.
    pub open spec fn refuses(self, phase: PhaseView, event: EventView) -> bool {
        match (phase, event) {
            (PhaseView::Entering, EventView::Mode(reply)) => entered(reply) is Err,
            (PhaseView::Activating, EventView::Profile(reply)) => activated(
                self.target->0,
                reply,
            ) is Err,
            (PhaseView::RestoringProfile(_), EventView::Profile(reply)) => profile_restored(
                self.active,
                reply,
            ) is Err,
            (PhaseView::RestoringMode(_), EventView::Mode(reply)) => mode_restored(
                self.mode,
                reply,
            ) is Err,
            _ => false,
        }
    }
}

/// A diagnostic ends: each answer leaves fewer to come, and a result is given when
/// and only when none is left.
pub proof fn diagnostic_ends(plan: DiagPlan, phase: PhaseView, event: EventView)
    requires
        DiagPlan::answers(phase, event),
    ensures
        plan.begins().phase.answers_left() <= 4,
        plan.begins().action is Finish <==> plan.begins().phase is Finished,
        0 <= plan.moves(phase, event).phase.answers_left() < phase.answers_left(),
        plan.moves(phase, event).action is Finish <==> plan.moves(phase, event).phase is Finished,
{
}

/// A device that was in host mode is put back into it, whatever happened in
/// between, unless it is to be left in onboard mode: no result is given before the
/// mode was asked for again.
pub proof fn host_mode_is_restored(plan: DiagPlan, phase: PhaseView, event: EventView)
    requires
        plan.mode == ProfilesMode::Host,
        !plan.leave_onboard,
        DiagPlan::answers(phase, event),
    ensures
        !(plan.begins().action is Finish),
        plan.moves(phase, event).action is Finish ==> phase is RestoringMode,
        plan.moves(phase, event).phase is RestoringMode ==> plan.moves(phase, event).action
            == ActionView::SetMode(ProfilesMode::Host),
{
}

/// A user profile that was active is activated again, whatever activating the
/// target ended with.
pub proof fn active_profile_is_restored(plan: DiagPlan, event: EventView)
    requires
        plan.restores_profile(),
        event is Profile,
    ensures
        plan.moves(PhaseView::Activating, event).phase is RestoringProfile,
        plan.moves(PhaseView::Activating, event).action == ActionView::SetProfile(plan.active),
{
}

/// A diagnostic only ever activates its target and the profile that was active,
/// and never a ROM profile.
pub proof fn rom_profile_is_never_activated(
    info: profiles::ProfilesInfoView,
    leave_onboard: bool,
    phase: PhaseView,
    event: EventView,
    sector: u16,
)
    requires
        DiagPlan::answers(phase, event),
        ({
            let plan = DiagPlan::of(info, leave_onboard);
            ||| plan.begins().action == ActionView::SetProfile(sector)
            ||| plan.moves(phase, event).action == ActionView::SetProfile(sector)
        }),
    ensures
        target_of(info) == Some(sector) || sector == info.active_profile,
        !profiles::rom_sector(sector),
{
    if target_of(info) == Some(sector) {
        target_is_an_enabled_user_sector(info, sector);
    }
}

/// A diagnostic writes the mode only to enter onboard mode or to restore the mode
/// the device was in, and only to a device that was in host mode.
pub proof fn onboard_device_keeps_its_mode(plan: DiagPlan, phase: PhaseView, event: EventView)
    requires
        plan.mode == ProfilesMode::Onboard,
        DiagPlan::answers(phase, event),
        phase is Activating || phase is RestoringProfile,
    ensures
        !(plan.begins().action is SetMode),
        !(plan.moves(phase, event).action is SetMode),
        !(plan.moves(phase, event).phase is Entering),
        !(plan.moves(phase, event).phase is RestoringMode),
{
}

/// No failure is lost: a move has failed if and only if something had failed
/// before, or the answer says that what was asked did not happen.
pub proof fn failures_reach_the_result(plan: DiagPlan, phase: PhaseView, event: EventView)
    requires
        DiagPlan::answers(phase, event),
    ensures
        !plan.begins().failed(),
        plan.moves(phase, event).failed() <==> phase.failed() || plan.refuses(phase, event),
{
}

/// The printed state shows every number under its own label, in decimal, then the
/// mode, the active profile and one line for each directory entry.
pub proof fn printed_state_shows_the_report(info: OnboardProfilesInfo, lines: Seq<String>)
    requires
        text::texts(lines) == info_text(info@),
    ensures
        lines.len() == 5 + info.directory.len(),
        // The profile memory.
        ({
            let head = "  memory: "@ + text::decimal_text(info.profile_count as nat) + " user + "@
                + text::decimal_text(info.profile_count_oob as nat) + " ROM profiles, "@;
            let tail = " buttons, "@ + text::decimal_text(info.sector_count as nat)
                + " sectors x "@ + text::decimal_text(info.sector_size as nat) + " bytes"@;
            &&& head.is_prefix_of(lines[0]@)
            &&& tail.is_suffix_of(lines[0]@)
            &&& lines[0]@.subrange(head.len() as int, lines[0]@.len() - tail.len())
                == text::decimal_text(info.button_count as nat)
        }),
        // Its formats.
        ({
            let head = "  formats: memory_model="@ + text::decimal_text(
                info.memory_model_id as nat,
            ) + " profile="@ + text::decimal_text(info.profile_format_id as nat);
            let tail = " macro="@ + text::decimal_text(info.macro_format_id as nat);
            &&& head.is_prefix_of(lines[1]@)
            &&& tail.is_suffix_of(lines[1]@)
            &&& lines[1]@.len() == head.len() + tail.len()
        }),
        // The mode.
        info.mode == ProfilesMode::Host ==> lines[2]@ == "  mode: Host"@,
        info.mode == ProfilesMode::Onboard ==> lines[2]@ == "  mode: Onboard"@,
        // The active profile.
        info.active_profile == 0 ==> lines[3]@ == "  active profile: none reported (0x0000)"@,
        info.active_profile != 0 ==> ("  active profile: 0x"@ + text::hex4_text(
            info.active_profile,
        )).is_prefix_of(lines[3]@),
        info.active_profile != 0 && info.active_profile & 0x0100 == 0 ==> lines[3]@.len() == 24,
        info.active_profile & 0x0100 != 0 ==> lines[3]@.len() == 30 && " (ROM)"@.is_suffix_of(
            lines[3]@,
        ),
        // The directory.
        info.directory.len() == 0 ==> lines[4]@
            == "  directory: empty (erased flash or no profiles written)"@,
        info.directory.len() > 0 ==> lines[4]@ == "  directory:"@,
{
    reveal_strlit("  mode: ");
    reveal_strlit("  mode: Host");
    reveal_strlit("  mode: Onboard");
    reveal_strlit("Host");
    reveal_strlit("Onboard");
    reveal_strlit("  active profile: ");
    reveal_strlit("  active profile: 0x");
    reveal_strlit("0x");
    reveal_strlit(" (ROM)");
    let shown = info_text(info@);
    assert(shown.len() == 5 + info.directory.len());
    assert forall|i: int| 0 <= i < lines.len() implies (#[trigger] lines[i])@ == shown[i] by {
        assert(text::texts(lines)[i] == lines[i]@);
    }
    let head = "  memory: "@ + text::decimal_text(info.profile_count as nat) + " user + "@
        + text::decimal_text(info.profile_count_oob as nat) + " ROM profiles, "@;
    let tail = " buttons, "@ + text::decimal_text(info.sector_count as nat) + " sectors x "@
        + text::decimal_text(info.sector_size as nat) + " bytes"@;
    assert(lines[0]@ =~= head + text::decimal_text(info.button_count as nat) + tail);
    assert(lines[0]@.subrange(head.len() as int, lines[0]@.len() - tail.len())
        =~= text::decimal_text(info.button_count as nat));
    let head = "  formats: memory_model="@ + text::decimal_text(info.memory_model_id as nat)
        + " profile="@ + text::decimal_text(info.profile_format_id as nat);
    let tail = " macro="@ + text::decimal_text(info.macro_format_id as nat);
    assert(lines[1]@ =~= head + tail);
    assert(info.mode == ProfilesMode::Host ==> lines[2]@ =~= "  mode: Host"@);
    assert(info.mode == ProfilesMode::Onboard ==> lines[2]@ =~= "  mode: Onboard"@);
    profiles::rom_flag_is_bit_eight(ProfileEntry { sector: info.active_profile, enabled: true });
    let zero: u16 = 0;
    assert(zero & 0x0100 == 0) by (bit_vector)
        requires
            zero == 0,
    ;
    text::hexadecimal_reads_back(0, info.active_profile);
    let active = "  active profile: 0x"@ + text::hex4_text(info.active_profile);
    assert(active =~= "  active profile: "@ + text::sector_text(info.active_profile));
}

/// Each directory entry is printed with its sector, whether it is enabled, and
/// whether it is a ROM profile.
pub proof fn printed_entry_shows_the_entry(info: OnboardProfilesInfo, lines: Seq<String>, i: int)
    requires
        text::texts(lines) == info_text(info@),
        0 <= i < info.directory.len(),
    ensures
        ({
            let entry = info.directory@[i];
            let line = lines[5 + i]@;
            &&& ("    sector 0x"@ + text::hex4_text(entry.sector)).is_prefix_of(line)
            &&& entry.sector & 0x0100 == 0 ==> line.skip(17) == (if entry.enabled {
                "  enabled"@
            } else {
                "  disabled"@
            })
            &&& entry.sector & 0x0100 != 0 ==> line.skip(17) == (if entry.enabled {
                "  enabled (ROM)"@
            } else {
                "  disabled (ROM)"@
            })
        }),
{
    reveal_strlit("    sector ");
    reveal_strlit("    sector 0x");
    reveal_strlit("0x");
    reveal_strlit("  enabled");
    reveal_strlit("  disabled");
    reveal_strlit("  enabled (ROM)");
    reveal_strlit("  disabled (ROM)");
    reveal_strlit(" (ROM)");
    reveal_strlit("");
    let entry = info.directory@[i];
    let line = lines[5 + i]@;
    assert(info_text(info@).len() == 5 + info.directory.len());
    assert(text::texts(lines).len() == lines.len());
    assert(text::texts(lines)[5 + i] == line);
    assert(info_text(info@)[5 + i] == entry_line(entry));
    profiles::rom_flag_is_bit_eight(entry);
    text::hexadecimal_reads_back(0, entry.sector);
    let head = "    sector 0x"@ + text::hex4_text(entry.sector);
    assert(head =~= "    sector "@ + text::sector_text(entry.sector));
    assert(head.len() == 17);
    assert(line =~= head + line.skip(17));
    if entry.sector & 0x0100 == 0 {
        assert(line.skip(17) =~= if entry.enabled {
            "  enabled"@
        } else {
            "  disabled"@
        });
    } else {
        assert(line.skip(17) =~= if entry.enabled {
            "  enabled (ROM)"@
        } else {
            "  disabled (ROM)"@
        });
    }
}

proof fn lemma_first_user_sector(directory: Seq<ProfileEntry>, avoid: Option<u16>, i: int)
    requires
        0 <= i <= directory.len(),
        i < directory.len() ==> directory[i].selectable() && avoid != Some(directory[i].sector),
        forall|j: int|
            0 <= j < i ==> !((#[trigger] directory[j]).selectable() && avoid != Some(
                directory[j].sector,
            )),
    ensures
        first_user_sector(directory, avoid) == (if i < directory.len() {
            Some(directory[i].sector)
        } else {
            None
        }),
    decreases i,
{
    if i > 0 {
        assert(!(directory[0].selectable() && avoid != Some(directory[0].sector)));
        let rest = directory.drop_first();
        assert forall|j: int| 0 <= j < i - 1 implies !((#[trigger] rest[j]).selectable() && avoid
            != Some(rest[j].sector)) by {
            assert(rest[j] == directory[j + 1]);
        }
        lemma_first_user_sector(rest, avoid, i - 1);
    }
}

/// The diagnostic prefers another profile than the active one: it takes the first
/// enabled user profile of the directory that is not active, unless the device runs
/// an onboard profile that could not be restored.
pub proof fn first_other_user_profile_is_the_target(info: OnboardProfilesInfo, i: int)
    requires
        0 <= i < info.directory.len(),
        info.directory@[i].enabled,
        info.directory@[i].sector & 0x0100 == 0,
        info.directory@[i].sector != info.active_profile,
        forall|j: int|
            0 <= j < i ==> !(#[trigger] info.directory@[j]).enabled || info.directory@[j].sector
                & 0x0100 != 0 || info.directory@[j].sector == info.active_profile,
    ensures
        target_of(info@) == (if info.mode == ProfilesMode::Onboard && (info.active_profile == 0
            || info.active_profile & 0x0100 != 0) {
            None
        } else {
            Some(info.directory@[i].sector)
        }),
{
    profiles::rom_flag_is_bit_eight(ProfileEntry { sector: info.active_profile, enabled: true });
    assert forall|j: int| 0 <= j <= i implies ((#[trigger] info.directory@[j]).selectable()
        <==> info.directory@[j].enabled && info.directory@[j].sector & 0x0100 == 0) by {
        profiles::rom_flag_is_bit_eight(info.directory@[j]);
    }
    lemma_first_user_sector(info.directory@, Some(info.active_profile), i);
}

/// Where no other user profile is enabled the diagnostic takes the active one, if
/// that is an enabled user profile of the directory, and none otherwise.
pub proof fn lone_user_profile_is_the_target(info: OnboardProfilesInfo)
    requires
        forall|j: int|
            0 <= j < info.directory.len() ==> !(#[trigger] info.directory@[j]).enabled
                || info.directory@[j].sector & 0x0100 != 0 || info.directory@[j].sector
                == info.active_profile,
    ensures
        target_of(info@) == (if info.active_profile & 0x0100 == 0 && !(info.mode
            == ProfilesMode::Onboard && info.active_profile == 0) && exists|j: int|
            0 <= j < info.directory.len() && (#[trigger] info.directory@[j]).enabled
                && info.directory@[j].sector == info.active_profile {
            Some(info.active_profile)
        } else {
            None
        }),
{
    let directory = info.directory@;
    profiles::rom_flag_is_bit_eight(ProfileEntry { sector: info.active_profile, enabled: true });
    assert forall|j: int| 0 <= j < directory.len() implies ((#[trigger] directory[j]).selectable()
        <==> directory[j].enabled && directory[j].sector & 0x0100 == 0) by {
        profiles::rom_flag_is_bit_eight(directory[j]);
    }
    lemma_first_user_sector(
        directory,
        Some(info.active_profile),
        directory.len() as int,
    );
    if first_user_sector(directory, None) is Some {
        lemma_found_sector(directory, None);
        let j = choose|j: int|
            0 <= j < directory.len() && (#[trigger] directory[j]).selectable()
                && directory[j].sector == first_user_sector(directory, None)->0;
        assert(directory[j].sector == info.active_profile);
    } else {
        lemma_no_user_sector(directory);
    }
}

proof fn lemma_no_user_sector(directory: Seq<ProfileEntry>)
    requires
        first_user_sector(directory, None) is None,
    ensures
        forall|j: int| 0 <= j < directory.len() ==> !(#[trigger] directory[j]).selectable(),
    decreases directory.len(),
{
    if directory.len() > 0 {
        let rest = directory.drop_first();
        lemma_no_user_sector(rest);
        assert forall|j: int| 0 <= j < directory.len() implies !(
        #[trigger] directory[j]).selectable() by {
            if j > 0 {
                assert(rest[j - 1] == directory[j]);
            }
        }
    }
}

/// The answer of a device that does what `action` asks for.
pub open spec fn obeyed(action: ActionView) -> EventView {
    match action {
        ActionView::SetMode(mode) => EventView::Mode(Ok(mode)),
        ActionView::SetProfile(sector) => EventView::Profile(Ok(sector)),
        ActionView::Finish(_) => EventView::Mode(Ok(ProfilesMode::Host)),
    }
}

/// What a diagnostic asks of a device that does everything it is asked for, from the
/// move `from` on, for at most `steps` answers.
pub open spec fn obeyed_actions(plan: DiagPlan, from: Move, steps: nat) -> Seq<ActionView>
    decreases steps,
{
    if steps == 0 || from.action is Finish {
        seq![from.action]
    } else {
        seq![from.action] + obeyed_actions(
            plan,
            plan.moves(from.phase, obeyed(from.action)),
            (steps - 1) as nat,
        )
    }
}

/// What it prints meanwhile.
pub open spec fn obeyed_lines(plan: DiagPlan, from: Move, steps: nat) -> Seq<Seq<char>>
    decreases steps,
{
    if steps == 0 || from.action is Finish {
        from.lines
    } else {
        from.lines + obeyed_lines(
            plan,
            plan.moves(from.phase, obeyed(from.action)),
            (steps - 1) as nat,
        )
    }
}

/// On a device that does everything it is asked for, a diagnostic succeeds and leaves
/// nothing behind: it enters onboard mode from host mode only, activates its target,
/// activates the profile that was active again wherever that is a user profile other
/// than the target, and enters host mode again unless it is told not to.
pub proof fn obeying_device_is_left_as_it_was(info: OnboardProfilesInfo, leave_onboard: bool)
    ensures
        ({
            let plan = DiagPlan::of(info@, leave_onboard);
            let host = info.mode == ProfilesMode::Host;
            let none = Seq::<ActionView>::empty();
            obeyed_actions(plan, plan.begins(), 4) == (if host {
                seq![ActionView::SetMode(ProfilesMode::Onboard)]
            } else {
                none
            }) + (match target_of(info@) {
                Some(target) => seq![ActionView::SetProfile(target)] + (if info.active_profile != 0
                    && info.active_profile & 0x0100 == 0 && info.active_profile != target {
                    seq![ActionView::SetProfile(info.active_profile)]
                } else {
                    none
                }),
                None => none,
            }) + (if host && !leave_onboard {
                seq![ActionView::SetMode(ProfilesMode::Host)]
            } else {
                none
            }) + seq![ActionView::Finish(Ok(()))]
        }),
{
    reveal_with_fuel(obeyed_actions, 5);
    profiles::rom_flag_is_bit_eight(ProfileEntry { sector: info.active_profile, enabled: true });
    let plan = DiagPlan::of(info@, leave_onboard);
    let actions = obeyed_actions(plan, plan.begins(), 4);
    let host = info.mode == ProfilesMode::Host;
    match target_of(info@) {
        Some(target) => {
            let restores = info.active_profile != 0 && info.active_profile & 0x0100 == 0
                && info.active_profile != target;
            assert(plan.restores_profile() == restores);
            if host && restores && !leave_onboard {
                assert(actions =~= seq![
                    ActionView::SetMode(ProfilesMode::Onboard),
                    ActionView::SetProfile(target),
                    ActionView::SetProfile(info.active_profile),
                    ActionView::SetMode(ProfilesMode::Host),
                    ActionView::Finish(Ok(())),
                ]);
            }
        },
        None => {},
    }
}

/// On such a device each step is announced before it is taken, and success is
/// printed once it is known.
pub proof fn obeying_run_is_printed(info: OnboardProfilesInfo, leave_onboard: bool)
    ensures
        ({
            let plan = DiagPlan::of(info@, leave_onboard);
            let host = info.mode == ProfilesMode::Host;
            let active = info.active_profile;
            let none = Seq::<Seq<char>>::empty();
            obeyed_lines(plan, plan.begins(), 4) == (if host {
                seq!["  entering mode: Host -> Onboard"@]
            } else {
                none
            }) + (match target_of(info@) {
                Some(target) => (if target == active {
                    seq![
                        "  only one enabled user profile — exercising sector "@
                            + text::sector_text(target) + " in place"@,
                    ]
                } else {
                    none
                }) + seq!["  activating profile sector "@ + text::sector_text(target)] + (
                if active != 0 && active & 0x0100 == 0 && active != target {
                    seq!["  restoring profile sector "@ + text::sector_text(active)]
                } else {
                    none
                }) + seq!["  ✓ profile round-trip OK"@],
                None => seq![
                    if !host && (active == 0 || active & 0x0100 != 0) {
                        "  active onboard profile is not a restorable user sector — profile round-trip skipped"@
                    } else {
                        "  no enabled user profiles in the directory — profile round-trip skipped"@
                    },
                ],
            }) + (if host && !leave_onboard {
                seq!["  restoring mode: Host"@, "  ✓ mode round-trip OK"@]
            } else {
                none
            }) + seq![
                if leave_onboard {
                    "✓ onboard-profile diagnostic OK (device left in onboard mode)"@
                } else {
                    "✓ onboard-profile diagnostic OK"@
                },
            ]
        }),
{
    reveal_with_fuel(obeyed_lines, 5);
    reveal_strlit("  entering mode: ");
    reveal_strlit("  entering mode: Host -> Onboard");
    reveal_strlit(" -> Onboard");
    reveal_strlit("  restoring mode: ");
    reveal_strlit("  restoring mode: Host");
    reveal_strlit("Host");
    profiles::rom_flag_is_bit_eight(ProfileEntry { sector: info.active_profile, enabled: true });
    let plan = DiagPlan::of(info@, leave_onboard);
    let host = info.mode == ProfilesMode::Host;
    assert("  entering mode: "@ + "Host"@ + " -> Onboard"@ =~= "  entering mode: Host -> Onboard"@);
    assert("  restoring mode: "@ + "Host"@ =~= "  restoring mode: Host"@);
    match target_of(info@) {
        Some(target) => {
            assert(plan.restores_profile() == (info.active_profile != 0 && info.active_profile
                & 0x0100 == 0 && info.active_profile != target));
        },
        None => {},
    }
}

/// A device that does not enter onboard mode has no profile activated: the failure
/// names what went wrong, and host mode is asked for again unless the device is to
/// be left in onboard mode.
pub proof fn refused_onboard_mode_ends_the_operation(
    plan: DiagPlan,
    reply: Result<ProfilesMode, Seq<char>>,
    failure: Seq<char>,
)
    requires
        plan.mode == ProfilesMode::Host,
        match reply {
            Ok(mode) => mode == ProfilesMode::Host && failure
                == "onboard mode write not applied: requested Onboard, device reports Host"@,
            Err(cause) => failure == "write onboard mode: "@ + cause,
        },
    ensures
        ({
            let next = plan.moves(PhaseView::Entering, EventView::Mode(reply));
            if plan.leave_onboard {
                next.action == ActionView::Finish(Err(failure)) && next.lines.len() == 0
            } else {
                &&& next.action == ActionView::SetMode(ProfilesMode::Host)
                &&& next.phase == PhaseView::RestoringMode(Err(failure))
                &&& next.lines == seq!["  restoring mode: Host"@]
            }
        }),
{
    reveal_strlit("  restoring mode: ");
    reveal_strlit("  restoring mode: Host");
    reveal_strlit("Host");
    reveal_strlit("onboard mode write not applied: requested Onboard, device reports ");
    reveal_strlit("onboard mode write not applied: requested Onboard, device reports Host");
    assert("  restoring mode: "@ + "Host"@ =~= "  restoring mode: Host"@);
    assert("onboard mode write not applied: requested Onboard, device reports "@ + "Host"@
        =~= "onboard mode write not applied: requested Onboard, device reports Host"@);
    let next = plan.moves(PhaseView::Entering, EventView::Mode(reply));
    if !plan.leave_onboard {
        assert(next.lines =~= seq!["  restoring mode: Host"@]);
    }
}

/// Whether `outcome` is how asking for `wanted` went when `reply` came back: it went
/// well only if `wanted` itself was read back. A failure starts with `cause` if
/// nothing was read back, else with `differs`, and shows what was wanted and read.
pub open spec fn judged(
    wanted: u16,
    reply: Result<u16, Seq<char>>,
    cause: Seq<char>,
    differs: Seq<char>,
    outcome: Result<(), Seq<char>>,
) -> bool {
    match (reply, outcome) {
        (Ok(sector), Ok(_)) => sector == wanted,
        (Ok(sector), Err(failure)) => sector != wanted && failure == differs + text::sector_text(
            wanted,
        ) + ", device reports "@ + text::sector_text(sector),
        (Err(e), Err(failure)) => failure == cause + e,
        (Err(_), Ok(_)) => false,
    }
}

/// Whatever activating the target ended with, a user profile that was active and is
/// not the target itself is activated again, and what went wrong is kept.
pub proof fn active_user_profile_is_activated_again(
    plan: DiagPlan,
    target: u16,
    reply: Result<u16, Seq<char>>,
)
    requires
        plan.target == Some(target),
        plan.active != 0,
        plan.active & 0x0100 == 0,
        plan.active != target,
    ensures
        ({
            let next = plan.moves(PhaseView::Activating, EventView::Profile(reply));
            &&& next.action == ActionView::SetProfile(plan.active)
            &&& next.lines == seq!["  restoring profile sector "@ + text::sector_text(plan.active)]
            &&& next.phase matches PhaseView::RestoringProfile(write)
            &&& judged(
                target,
                reply,
                "write active profile: "@,
                "active-profile write not applied: requested "@,
                write,
            )
        }),
{
    profiles::rom_flag_is_bit_eight(ProfileEntry { sector: plan.active, enabled: true });
    let next = plan.moves(PhaseView::Activating, EventView::Profile(reply));
    assert(next.lines =~= seq!["  restoring profile sector "@ + text::sector_text(plan.active)]);
}

/// Whether two outcomes agree: both are successes, or failures with the same text.
pub open spec fn agree(a: Result<(), Seq<char>>, b: Result<(), Seq<char>>) -> bool {
    match (a, b) {
        (Ok(_), Ok(_)) => true,
        (Err(x), Err(y)) => x == y,
        _ => false,
    }
}

/// What follows once the operation ended with `outcome`, `lines` printed before: the
/// result, or the request for host mode on a device that has to return to it.
pub open spec fn winds_up(
    plan: DiagPlan,
    next: Move,
    outcome: Result<(), Seq<char>>,
    lines: Seq<Seq<char>>,
) -> bool {
    if plan.mode == ProfilesMode::Host && !plan.leave_onboard {
        &&& next.action == ActionView::SetMode(ProfilesMode::Host)
        &&& next.phase matches PhaseView::RestoringMode(operation)
        &&& agree(operation, outcome)
        &&& next.lines == lines.push("  restoring mode: Host"@)
    } else {
        &&& next.action matches ActionView::Finish(result)
        &&& agree(result, outcome)
        &&& next.phase is Finished
        &&& outcome is Err ==> next.lines == lines
        &&& outcome is Ok ==> next.lines == lines.push(
            if plan.leave_onboard {
                "✓ onboard-profile diagnostic OK (device left in onboard mode)"@
            } else {
                "✓ onboard-profile diagnostic OK"@
            },
        )
    }
}

proof fn lemma_winds_up(plan: DiagPlan, outcome: Result<(), Seq<char>>)
    ensures
        winds_up(plan, plan.ends_operation(outcome), outcome, Seq::empty()),
        winds_up(
            plan,
            plan.ends_operation(outcome).after_line("  ✓ profile round-trip OK"@),
            outcome,
            seq!["  ✓ profile round-trip OK"@],
        ),
{
    reveal_strlit("  restoring mode: ");
    reveal_strlit("  restoring mode: Host");
    reveal_strlit("Host");
    assert("  restoring mode: "@ + "Host"@ =~= "  restoring mode: Host"@);
    let next = plan.ends_operation(outcome);
    let ok = "  ✓ profile round-trip OK"@;
    if plan.mode == ProfilesMode::Host && !plan.leave_onboard {
        assert(next.lines =~= seq!["  restoring mode: Host"@]);
        assert(Seq::<Seq<char>>::empty().push("  restoring mode: Host"@) =~= next.lines);
        assert(seq![ok] + next.lines =~= seq![ok].push("  restoring mode: Host"@));
    } else {
        assert(outcome is Err ==> next.lines =~= Seq::empty());
        assert(outcome is Ok ==> next.lines.len() == 1);
        assert(outcome is Err ==> seq![ok] + next.lines =~= seq![ok]);
        if outcome is Ok {
            assert(next.lines =~= Seq::empty().push(next.lines[0]));
            assert(seq![ok] + next.lines =~= seq![ok].push(next.lines[0]));
        }
    }
}

/// Where no profile has to be activated again, the operation ends with how
/// activating the target went.
pub proof fn nothing_to_restore_ends_the_operation(
    plan: DiagPlan,
    target: u16,
    reply: Result<u16, Seq<char>>,
    outcome: Result<(), Seq<char>>,
)
    requires
        plan.target == Some(target),
        plan.active == 0 || plan.active & 0x0100 != 0 || plan.active == target,
        judged(
            target,
            reply,
            "write active profile: "@,
            "active-profile write not applied: requested "@,
            outcome,
        ),
    ensures
        winds_up(
            plan,
            plan.moves(PhaseView::Activating, EventView::Profile(reply)),
            outcome,
            if outcome is Ok {
                seq!["  ✓ profile round-trip OK"@]
            } else {
                Seq::empty()
            },
        ),
{
    profiles::rom_flag_is_bit_eight(ProfileEntry { sector: plan.active, enabled: true });
    lemma_winds_up(plan, outcome);
}

/// Once the profile that was active was asked for again, the operation ends with
/// what went wrong in either step.
pub proof fn restored_profile_ends_the_operation(
    plan: DiagPlan,
    write: Result<(), Seq<char>>,
    reply: Result<u16, Seq<char>>,
    restore: Result<(), Seq<char>>,
)
    requires
        judged(
            plan.active,
            reply,
            "restore active profile: "@,
            "active-profile restore not applied: requested "@,
            restore,
        ),
    ensures
        ({
            let next = plan.moves(PhaseView::RestoringProfile(write), EventView::Profile(reply));
            match (write, restore) {
                (Ok(_), Ok(_)) => winds_up(
                    plan,
                    next,
                    Ok(()),
                    seq!["  ✓ profile round-trip OK"@],
                ),
                (Err(failure), Ok(_)) => winds_up(plan, next, Err(failure), Seq::empty()),
                (Ok(_), Err(failure)) => winds_up(plan, next, Err(failure), Seq::empty()),
                (Err(failure), Err(second)) => winds_up(
                    plan,
                    next,
                    Err(failure + "; additionally failed to restore device state: "@ + second),
                    Seq::empty(),
                ),
            }
        }),
{
    lemma_winds_up(plan, combined(write, restore));
}

/// Once host mode was asked for again, the result holds what went wrong in the
/// operation and in the return to host mode.
pub proof fn restored_mode_ends_the_run(
    plan: DiagPlan,
    operation: Result<(), Seq<char>>,
    reply: Result<ProfilesMode, Seq<char>>,
)
    requires
        plan.mode == ProfilesMode::Host,
    ensures
        ({
            let next = plan.moves(PhaseView::RestoringMode(operation), EventView::Mode(reply));
            let failure = match reply {
                Ok(_) =>
                    "onboard mode restore not applied: requested Host, device reports Onboard"@,
                Err(cause) => "restore onboard mode: "@ + cause,
            };
            let restored = reply == Ok::<ProfilesMode, Seq<char>>(ProfilesMode::Host);
            &&& next.phase is Finished
            &&& next.action matches ActionView::Finish(result)
            &&& restored ==> agree(result, operation)
            &&& !restored && operation is Ok ==> agree(result, Err(failure))
            &&& !restored && operation is Err ==> agree(
                result,
                Err(
                    operation->Err_0 + "; additionally failed to restore device state: "@ + failure,
                ),
            )
            &&& !restored ==> next.lines.len() == 0
            &&& restored && operation is Err ==> next.lines == seq!["  ✓ mode round-trip OK"@]
            &&& restored && operation is Ok ==> next.lines == seq![
                "  ✓ mode round-trip OK"@,
                "✓ onboard-profile diagnostic OK"@,
            ]
        }),
{
    reveal_strlit("onboard mode restore not applied: requested ");
    reveal_strlit("Host");
    reveal_strlit("Onboard");
    reveal_strlit(", device reports ");
    reveal_strlit("onboard mode restore not applied: requested Host, device reports Onboard");
    assert("onboard mode restore not applied: requested "@ + "Host"@ + ", device reports "@
        + "Onboard"@
        =~= "onboard mode restore not applied: requested Host, device reports Onboard"@);
    let next = plan.moves(PhaseView::RestoringMode(operation), EventView::Mode(reply));
    let restored = reply == Ok::<ProfilesMode, Seq<char>>(ProfilesMode::Host);
    if restored && operation is Ok {
        assert(next.lines =~= seq![
            "  ✓ mode round-trip OK"@,
            "✓ onboard-profile diagnostic OK"@,
        ]);
    } else if restored {
        assert(next.lines =~= seq!["  ✓ mode round-trip OK"@]);
    }
}

/// A plan goes by what the device reported and by nothing else.
pub proof fn plan_is_what_was_reported(info: OnboardProfilesInfo, leave_onboard: bool)
    ensures
        DiagPlan::of(info@, leave_onboard).mode == info.mode,
        DiagPlan::of(info@, leave_onboard).active == info.active_profile,
        DiagPlan::of(info@, leave_onboard).target == target_of(info@),
        DiagPlan::of(info@, leave_onboard).leave_onboard == leave_onboard,
{
}

/// What a diagnostic asks for and what it is answered are taken as they stand: an action
/// or an event names its mode or its sector, and a failure its text.
pub proof fn actions_and_answers_stand_for_themselves(
    mode: ProfilesMode,
    sector: u16,
    cause: String,
    result: Result<(), String>,
)
    ensures
        DiagAction::SetMode(mode)@ == ActionView::SetMode(mode),
        DiagAction::SetProfile(sector)@ == ActionView::SetProfile(sector),
        DiagAction::Finish(result)@ == ActionView::Finish(outcome(result)),
        outcome(result) is Ok <==> result is Ok,
        result matches Err(e) ==> outcome(result) == Result::<(), Seq<char>>::Err(e@),
        DiagEvent::Mode(Ok(mode))@ == EventView::Mode(Ok(mode)),
        DiagEvent::Mode(Err(cause))@ == EventView::Mode(Err(cause@)),
        DiagEvent::Profile(Ok(sector))@ == EventView::Profile(Ok(sector)),
        DiagEvent::Profile(Err(cause))@ == EventView::Profile(Err(cause@)),
{
}

} // verus!
