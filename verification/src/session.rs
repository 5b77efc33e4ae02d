//! The decisions of `emu run` as a state machine: from the stage of the
//! session and what the host reported, the next stage; from the stage, the
//! next thing for the host to do.
use vstd::prelude::*;
use crate::error::EmuError;

verus! {

/// The flags of `emu run`.
pub struct RunOptions {
    /// Skip the Gradle build and use the APK already built.
    pub no_install: bool,
    /// Do not start the app's launcher activity.
    pub no_start: bool,
    /// Clear the device's log buffer before streaming.
    pub clear: bool,
    /// How long to wait for a booted device, in seconds.
    pub boot_timeout: u64,
    /// An APK to use instead of looking for one.
    pub apk: Option<String>,
}

/// Where an `emu run` session stands.
pub enum RunStage {
    /// Looking for the Gradle project root.
    FindingProject,
    /// Waiting for a booted device.
    WaitingForDevice { root: String },
    /// Handing the device serial to the processes started later.
    ExportingSerial { root: String, serial: String },
    /// Building and installing with Gradle.
    Installing { root: String, serial: String },
    /// Choosing the APK.
    FindingApk { root: String, serial: String },
    /// Reading the APK's application id.
    ReadingPackage { serial: String, apk: String },
    /// Starting the app's launcher activity.
    LaunchingActivity { serial: String, package: String },
    /// Clearing the device's log buffer.
    ClearingLogcat { serial: String, package: String },
    /// Streaming the app's log.
    Streaming { serial: String, package: String },
    /// Over, with its outcome.
    Finished { result: Result<(), EmuError> },
}

/// What the host reports after doing what the stage asked.
pub enum RunEvent {
    /// The Gradle project root was found.
    ProjectRoot { root: String },
    /// This device has booted.
    DeviceReady { serial: String },
    /// The requested step completed.
    StepDone,
    /// This APK was chosen.
    ApkFound { path: String },
    /// The APK declares this application id.
    PackageName { package: String },
    /// The requested step failed.
    Failed { error: EmuError },
}

/// What the host is asked to do.
pub enum RunAction {
    /// Find the Gradle project root from the working directory.
    FindProjectRoot,
    /// Wait for a booted device.
    WaitForDevice { timeout_secs: u64 },
    /// Set `ANDROID_SERIAL` for the processes started later.
    ExportSerial { serial: String },
    /// Run `gradlew installDebug` in `root`.
    GradleInstall { root: String },
    /// Choose the APK under `root`, or the one given.
    FindApk { root: String, manual: Option<String> },
    /// Read the application id of `apk`.
    ReadPackageName { apk: String },
    /// Start the app's launcher activity.
    LaunchActivity { serial: String, package: String },
    /// Clear the device's log buffer.
    ClearLogcat { serial: String },
    /// Stream the app's log until interrupted.
    StreamLogcat { serial: String, package: String },
    /// End the session with this outcome.
    Finish { result: Result<(), EmuError> },
}

/// The stage after the application id is known: launching the activity
/// unless `no_start`, else clearing the log if `clear`, else streaming.
pub open spec fn stage_after_package(opts: RunOptions, serial: String, package: String) -> RunStage {
    if !opts.no_start {
        RunStage::LaunchingActivity { serial, package }
    } else {
        stage_after_launch(opts, serial, package)
    }
}

/// The stage after the activity is started: clearing the log if `clear`,
/// else streaming.
pub open spec fn stage_after_launch(opts: RunOptions, serial: String, package: String) -> RunStage {
    if opts.clear {
        RunStage::ClearingLogcat { serial, package }
    } else {
        RunStage::Streaming { serial, package }
    }
}

/// The stage after the serial is exported: installing unless
/// `no_install`, else choosing the APK.
pub open spec fn stage_after_export(opts: RunOptions, root: String, serial: String) -> RunStage {
    if !opts.no_install {
        RunStage::Installing { root, serial }
    } else {
        RunStage::FindingApk { root, serial }
    }
}

/// One step of `emu run`: find the project, wait for a device, export its
/// serial, install (unless `no_install`), choose the APK, read its
/// application id, start the activity (unless `no_start`), clear the log
/// (if `clear`), stream the log, finish. A failure finishes the session
/// with that error; a finished session stays as it is; an event the stage
/// does not wait for changes nothing.
pub open spec fn run_next(opts: RunOptions, stage: RunStage, event: RunEvent) -> RunStage {
    match stage {
        RunStage::Finished { .. } => stage,
        _ => match event {
            RunEvent::Failed { error } => RunStage::Finished { result: Err(error) },
            _ => match (stage, event) {
                (RunStage::FindingProject, RunEvent::ProjectRoot { root }) => {
                    RunStage::WaitingForDevice { root }
                },
                (RunStage::WaitingForDevice { root }, RunEvent::DeviceReady { serial }) => {
                    RunStage::ExportingSerial { root, serial }
                },
                (RunStage::ExportingSerial { root, serial }, RunEvent::StepDone) => {
                    stage_after_export(opts, root, serial)
                },
                (RunStage::Installing { root, serial }, RunEvent::StepDone) => {
                    RunStage::FindingApk { root, serial }
                },
                (RunStage::FindingApk { serial, .. }, RunEvent::ApkFound { path }) => {
                    RunStage::ReadingPackage { serial, apk: path }
                },
                (RunStage::ReadingPackage { serial, .. }, RunEvent::PackageName { package }) => {
                    stage_after_package(opts, serial, package)
                },
                (RunStage::LaunchingActivity { serial, package }, RunEvent::StepDone) => {
                    stage_after_launch(opts, serial, package)
                },
                (RunStage::ClearingLogcat { serial, package }, RunEvent::StepDone) => {
                    RunStage::Streaming { serial, package }
                },
                (RunStage::Streaming { .. }, RunEvent::StepDone) => {
                    RunStage::Finished { result: Ok(()) }
                },
                _ => stage,
            },
        },
    }
}

/// What the host is asked to do in each stage.
pub open spec fn stage_action(opts: RunOptions, stage: RunStage) -> RunAction {
    match stage {
        RunStage::FindingProject => RunAction::FindProjectRoot,
        RunStage::WaitingForDevice { .. } => RunAction::WaitForDevice {
            timeout_secs: opts.boot_timeout,
        },
        RunStage::ExportingSerial { serial, .. } => RunAction::ExportSerial { serial },
        RunStage::Installing { root, .. } => RunAction::GradleInstall { root },
        RunStage::FindingApk { root, .. } => RunAction::FindApk { root, manual: opts.apk },
        RunStage::ReadingPackage { apk, .. } => RunAction::ReadPackageName { apk },
        RunStage::LaunchingActivity { serial, package } => RunAction::LaunchActivity {
            serial,
            package,
        },
        RunStage::ClearingLogcat { serial, .. } => RunAction::ClearLogcat { serial },
        RunStage::Streaming { serial, package } => RunAction::StreamLogcat { serial, package },
        RunStage::Finished { result } => RunAction::Finish { result },
    }
}

/// The stage a session starts in.
pub fn run_start() -> (r: RunStage)
    ensures
        r == RunStage::FindingProject,
{
    RunStage::FindingProject
}

fn after_launch(opts: &RunOptions, serial: String, package: String) -> (r: RunStage)
    ensures
        r == stage_after_launch(*opts, serial, package),
{
    if opts.clear {
        RunStage::ClearingLogcat { serial, package }
    } else {
        RunStage::Streaming { serial, package }
    }
}

/// The decisions of `emu run`: the stage that follows `stage` once the
/// host reports `event` (see `run_next`).
pub fn run_with(opts: &RunOptions, stage: RunStage, event: RunEvent) -> (r: RunStage)
    ensures
        r == run_next(*opts, stage, event),
{
    if let RunStage::Finished { .. } = stage {
        return stage;
    }
    if let RunEvent::Failed { error } = event {
        return RunStage::Finished { result: Err(error) };
    }
    match stage {
        RunStage::FindingProject => match event {
            RunEvent::ProjectRoot { root } => RunStage::WaitingForDevice { root },
            _ => RunStage::FindingProject,
        },
        RunStage::WaitingForDevice { root } => match event {
            RunEvent::DeviceReady { serial } => RunStage::ExportingSerial { root, serial },
            _ => RunStage::WaitingForDevice { root },
        },
        RunStage::ExportingSerial { root, serial } => match event {
            RunEvent::StepDone => if !opts.no_install {
                RunStage::Installing { root, serial }
            } else {
                RunStage::FindingApk { root, serial }
            },
            _ => RunStage::ExportingSerial { root, serial },
        },
        RunStage::Installing { root, serial } => match event {
            RunEvent::StepDone => RunStage::FindingApk { root, serial },
            _ => RunStage::Installing { root, serial },
        },
        RunStage::FindingApk { root, serial } => match event {
            RunEvent::ApkFound { path } => RunStage::ReadingPackage { serial, apk: path },
            _ => RunStage::FindingApk { root, serial },
        },
        RunStage::ReadingPackage { serial, apk } => match event {
            RunEvent::PackageName { package } => if !opts.no_start {
                RunStage::LaunchingActivity { serial, package }
            } else {
                after_launch(opts, serial, package)
            },
            _ => RunStage::ReadingPackage { serial, apk },
        },
        RunStage::LaunchingActivity { serial, package } => match event {
            RunEvent::StepDone => after_launch(opts, serial, package),
            _ => RunStage::LaunchingActivity { serial, package },
        },
        RunStage::ClearingLogcat { serial, package } => match event {
            RunEvent::StepDone => RunStage::Streaming { serial, package },
            _ => RunStage::ClearingLogcat { serial, package },
        },
        RunStage::Streaming { serial, package } => match event {
            RunEvent::StepDone => RunStage::Finished { result: Ok(()) },
            _ => RunStage::Streaming { serial, package },
        },
        RunStage::Finished { result } => RunStage::Finished { result },
    }
}

/// What the host is asked to do in `stage` (see `stage_action`).
pub fn run_action(opts: &RunOptions, stage: &RunStage) -> (r: RunAction)
    ensures
        r == stage_action(*opts, *stage),
{
    match stage {
        RunStage::FindingProject => RunAction::FindProjectRoot,
        RunStage::WaitingForDevice { .. } => RunAction::WaitForDevice {
            timeout_secs: opts.boot_timeout,
        },
        RunStage::ExportingSerial { serial, .. } => RunAction::ExportSerial {
            serial: serial.clone(),
        },
        RunStage::Installing { root, .. } => RunAction::GradleInstall { root: root.clone() },
        RunStage::FindingApk { root, .. } => {
            let manual = match &opts.apk {
                Some(a) => Some(a.clone()),
                None => None,
            };
            RunAction::FindApk { root: root.clone(), manual }
        },
        RunStage::ReadingPackage { apk, .. } => RunAction::ReadPackageName { apk: apk.clone() },
        RunStage::LaunchingActivity { serial, package } => RunAction::LaunchActivity {
            serial: serial.clone(),
            package: package.clone(),
        },
        RunStage::ClearingLogcat { serial, .. } => RunAction::ClearLogcat {
            serial: serial.clone(),
        },
        RunStage::Streaming { serial, package } => RunAction::StreamLogcat {
            serial: serial.clone(),
            package: package.clone(),
        },
        RunStage::Finished { result } => {
            let copy = match result {
                Ok(u) => Ok(*u),
                Err(e) => Err(e.duplicate()),
            };
            RunAction::Finish { result: copy }
        },
    }
}

} // verus!

verus! {

/// The stage a session reaches from `stage` when the host reports `events`
/// in turn.
pub open spec fn run_final(opts: RunOptions, stage: RunStage, events: Seq<RunEvent>) -> RunStage
    decreases events.len(),
{
    if events.len() == 0 {
        stage
    } else {
        run_final(opts, run_next(opts, stage, events[0]), events.drop_first())
    }
}

/// The actions a session asks for from `stage` when the host reports
/// `events` in turn: that of `stage`, then that of each stage reached.
pub open spec fn run_actions(opts: RunOptions, stage: RunStage, events: Seq<RunEvent>) -> Seq<
    RunAction,
>
    decreases events.len(),
{
    if events.len() == 0 {
        seq![stage_action(opts, stage)]
    } else {
        seq![stage_action(opts, stage)] + run_actions(
            opts,
            run_next(opts, stage, events[0]),
            events.drop_first(),
        )
    }
}

/// What the host reports in a session where every step succeeds, with the
/// given project root, device, APK and application id.
pub open spec fn happy_events(
    opts: RunOptions,
    root: String,
    serial: String,
    apk: String,
    package: String,
) -> Seq<RunEvent> {
    let e0 = seq![
        RunEvent::ProjectRoot { root },
        RunEvent::DeviceReady { serial },
        RunEvent::StepDone,
    ];
    let e1 = if !opts.no_install {
        e0.push(RunEvent::StepDone)
    } else {
        e0
    };
    let e2 = e1.push(RunEvent::ApkFound { path: apk }).push(RunEvent::PackageName { package });
    let e3 = if !opts.no_start {
        e2.push(RunEvent::StepDone)
    } else {
        e2
    };
    let e4 = if opts.clear {
        e3.push(RunEvent::StepDone)
    } else {
        e3
    };
    e4.push(RunEvent::StepDone)
}

/// The steps of a session where every step succeeds: find the project,
/// wait for the device, export its serial, install unless `no_install`,
/// choose the APK, read its application id, start the activity unless
/// `no_start`, clear the log if `clear`, stream the log, finish.
pub open spec fn planned_actions(
    opts: RunOptions,
    root: String,
    serial: String,
    apk: String,
    package: String,
) -> Seq<RunAction> {
    let a0 = seq![
        RunAction::FindProjectRoot,
        RunAction::WaitForDevice { timeout_secs: opts.boot_timeout },
        RunAction::ExportSerial { serial },
    ];
    let a1 = if !opts.no_install {
        a0.push(RunAction::GradleInstall { root })
    } else {
        a0
    };
    let a2 = a1.push(RunAction::FindApk { root, manual: opts.apk }).push(
        RunAction::ReadPackageName { apk },
    );
    let a3 = if !opts.no_start {
        a2.push(RunAction::LaunchActivity { serial, package })
    } else {
        a2
    };
    let a4 = if opts.clear {
        a3.push(RunAction::ClearLogcat { serial })
    } else {
        a3
    };
    a4.push(RunAction::StreamLogcat { serial, package }).push(RunAction::Finish { result: Ok(()) })
}

proof fn lemma_run_push(opts: RunOptions, stage: RunStage, events: Seq<RunEvent>, e: RunEvent)
    ensures
        run_final(opts, stage, events.push(e)) == run_next(
            opts,
            run_final(opts, stage, events),
            e,
        ),
        run_actions(opts, stage, events.push(e)) == run_actions(opts, stage, events).push(
            stage_action(opts, run_next(opts, run_final(opts, stage, events), e)),
        ),
    decreases events.len(),
{
    if events.len() == 0 {
        let empty = Seq::<RunEvent>::empty();
        assert(events.push(e).drop_first() =~= empty);
        assert(events.push(e)[0] == e);
        let n = run_next(opts, stage, e);
        assert(run_final(opts, n, empty) == n);
        assert(run_actions(opts, n, empty) == seq![stage_action(opts, n)]);
        assert(run_final(opts, stage, events.push(e)) == run_final(opts, n, empty));
        assert(run_actions(opts, stage, events.push(e)) == seq![stage_action(opts, stage)]
            + run_actions(opts, n, empty));
        assert(run_actions(opts, stage, events.push(e)) =~= seq![stage_action(opts, stage)].push(
            stage_action(opts, n),
        ));
    } else {
        let s1 = run_next(opts, stage, events[0]);
        lemma_run_push(opts, s1, events.drop_first(), e);
        assert(events.push(e).drop_first() =~= events.drop_first().push(e));
        assert(events.push(e)[0] == events[0]);
        assert(run_actions(opts, stage, events.push(e)) =~= run_actions(opts, stage, events).push(
            stage_action(opts, run_next(opts, run_final(opts, stage, events), e)),
        ));
    }
}

/// A session in which every step succeeds asks the host for exactly the
/// planned steps, in order, and finishes successfully: the Gradle install
/// is skipped with `no_install`, the activity start with `no_start`, and
/// the log is cleared only with `clear`, after the activity start and
/// before the streaming.
pub proof fn law_run_happy_path(
    opts: RunOptions,
    root: String,
    serial: String,
    apk: String,
    package: String,
)
    ensures
        run_final(opts, RunStage::FindingProject, happy_events(opts, root, serial, apk, package))
            == (RunStage::Finished { result: Ok(()) }),
        run_actions(opts, RunStage::FindingProject, happy_events(opts, root, serial, apk, package))
            == planned_actions(opts, root, serial, apk, package),
{
    let s0 = RunStage::FindingProject;
    let empty = Seq::<RunEvent>::empty();
    let ev0 = empty.push(RunEvent::ProjectRoot { root });
    let ev1 = ev0.push(RunEvent::DeviceReady { serial });
    let ev2 = ev1.push(RunEvent::StepDone);
    lemma_run_push(opts, s0, empty, RunEvent::ProjectRoot { root });
    lemma_run_push(opts, s0, ev0, RunEvent::DeviceReady { serial });
    lemma_run_push(opts, s0, ev1, RunEvent::StepDone);
    assert(ev2 =~= seq![
        RunEvent::ProjectRoot { root },
        RunEvent::DeviceReady { serial },
        RunEvent::StepDone,
    ]);
    assert(run_final(opts, s0, ev2) == stage_after_export(opts, root, serial));
    let e1 = if !opts.no_install {
        ev2.push(RunEvent::StepDone)
    } else {
        ev2
    };
    if !opts.no_install {
        lemma_run_push(opts, s0, ev2, RunEvent::StepDone);
    }
    assert(run_final(opts, s0, e1) == (RunStage::FindingApk { root, serial }));
    let e2a = e1.push(RunEvent::ApkFound { path: apk });
    let e2 = e2a.push(RunEvent::PackageName { package });
    lemma_run_push(opts, s0, e1, RunEvent::ApkFound { path: apk });
    lemma_run_push(opts, s0, e2a, RunEvent::PackageName { package });
    assert(run_final(opts, s0, e2) == stage_after_package(opts, serial, package));
    let e3 = if !opts.no_start {
        e2.push(RunEvent::StepDone)
    } else {
        e2
    };
    if !opts.no_start {
        lemma_run_push(opts, s0, e2, RunEvent::StepDone);
    }
    assert(run_final(opts, s0, e3) == stage_after_launch(opts, serial, package));
    let e4 = if opts.clear {
        e3.push(RunEvent::StepDone)
    } else {
        e3
    };
    if opts.clear {
        lemma_run_push(opts, s0, e3, RunEvent::StepDone);
    }
    assert(run_final(opts, s0, e4) == (RunStage::Streaming { serial, package }));
    lemma_run_push(opts, s0, e4, RunEvent::StepDone);
    assert(happy_events(opts, root, serial, apk, package) == e4.push(RunEvent::StepDone));
    assert(run_actions(opts, s0, empty) == seq![RunAction::FindProjectRoot]);
    assert(run_final(opts, s0, empty) == s0);
    assert(run_final(opts, s0, ev0) == (RunStage::WaitingForDevice { root }));
    assert(run_final(opts, s0, ev1) == (RunStage::ExportingSerial { root, serial }));
    assert(run_actions(opts, s0, ev0) =~= seq![
        RunAction::FindProjectRoot,
        RunAction::WaitForDevice { timeout_secs: opts.boot_timeout },
    ]);
    assert(run_actions(opts, s0, ev1) =~= seq![
        RunAction::FindProjectRoot,
        RunAction::WaitForDevice { timeout_secs: opts.boot_timeout },
        RunAction::ExportSerial { serial },
    ]);
    assert(run_actions(opts, s0, happy_events(opts, root, serial, apk, package))
        =~= planned_actions(opts, root, serial, apk, package));
}

/// A finished session stays as it is, whatever the host reports after.
pub proof fn law_run_finished_is_final(
    opts: RunOptions,
    result: Result<(), EmuError>,
    events: Seq<RunEvent>,
)
    ensures
        run_final(opts, RunStage::Finished { result }, events) == (RunStage::Finished { result }),
    decreases events.len(),
{
    if events.len() > 0 {
        law_run_finished_is_final(opts, result, events.drop_first());
    }
}

/// A step that fails ends the session with that error, whatever the host
/// reports after.
pub proof fn law_run_failure_ends_session(
    opts: RunOptions,
    stage: RunStage,
    error: EmuError,
    later: Seq<RunEvent>,
)
    requires
        !(stage is Finished),
    ensures
        run_final(opts, stage, seq![RunEvent::Failed { error }] + later) == (RunStage::Finished {
            result: Err(error),
        }),
{
    let evs = seq![RunEvent::Failed { error }] + later;
    assert(evs[0] == RunEvent::Failed { error });
    assert(evs.drop_first() =~= later);
    law_run_finished_is_final(opts, Err(error), later);
}

/// The stage keeps to the flags: no install with `no_install`, no activity
/// start with `no_start`, no log clearing without `clear`.
pub open spec fn respects_flags(opts: RunOptions, stage: RunStage) -> bool {
    &&& stage is Installing ==> !opts.no_install
    &&& stage is LaunchingActivity ==> !opts.no_start
    &&& stage is ClearingLogcat ==> opts.clear
}

proof fn lemma_respects_flags_kept(opts: RunOptions, stage: RunStage, events: Seq<RunEvent>)
    requires
        respects_flags(opts, stage),
    ensures
        forall|i: int|
            0 <= i < run_actions(opts, stage, events).len() ==> {
                let a = #[trigger] run_actions(opts, stage, events)[i];
                &&& a is GradleInstall ==> !opts.no_install
                &&& a is LaunchActivity ==> !opts.no_start
                &&& a is ClearLogcat ==> opts.clear
            },
    decreases events.len(),
{
    if events.len() > 0 {
        let s1 = run_next(opts, stage, events[0]);
        assert(respects_flags(opts, s1));
        lemma_respects_flags_kept(opts, s1, events.drop_first());
        let rest = run_actions(opts, s1, events.drop_first());
        assert forall|i: int| 0 <= i < run_actions(opts, stage, events).len() implies {
            let a = #[trigger] run_actions(opts, stage, events)[i];
            &&& a is GradleInstall ==> !opts.no_install
            &&& a is LaunchActivity ==> !opts.no_start
            &&& a is ClearLogcat ==> opts.clear
        } by {
            if i > 0 {
                assert(run_actions(opts, stage, events)[i] == rest[i - 1]);
            }
        }
    }
}

/// Whatever the host reports, a session never runs the Gradle install with
/// `no_install`, never starts the activity with `no_start`, and never
/// clears the log without `clear`.
pub proof fn law_run_respects_flags(opts: RunOptions, events: Seq<RunEvent>)
    ensures
        forall|i: int|
            0 <= i < run_actions(opts, RunStage::FindingProject, events).len() ==> {
                let a = #[trigger] run_actions(opts, RunStage::FindingProject, events)[i];
                &&& a is GradleInstall ==> !opts.no_install
                &&& a is LaunchActivity ==> !opts.no_start
                &&& a is ClearLogcat ==> opts.clear
            },
{
    lemma_respects_flags_kept(opts, RunStage::FindingProject, events);
}

proof fn lemma_success_after_streaming(opts: RunOptions, stage: RunStage, events: Seq<RunEvent>)
    requires
        !(stage matches RunStage::Finished { result: Ok(_) }),
        run_final(opts, stage, events) matches RunStage::Finished { result: Ok(_) },
    ensures
        exists|i: int|
            0 <= i < run_actions(opts, stage, events).len() && run_actions(
                opts,
                stage,
                events,
            )[i] is StreamLogcat,
    decreases events.len(),
{
    let s1 = run_next(opts, stage, events[0]);
    if s1 matches RunStage::Finished { result: Ok(_) } {
        assert(stage is Streaming);
        assert(run_actions(opts, stage, events)[0] is StreamLogcat);
    } else {
        lemma_success_after_streaming(opts, s1, events.drop_first());
        let rest = run_actions(opts, s1, events.drop_first());
        let i = choose|i: int| 0 <= i < rest.len() && rest[i] is StreamLogcat;
        assert(run_actions(opts, stage, events)[i + 1] == rest[i]);
    }
}

/// A session that finishes successfully has asked the host to stream the
/// app's log: success comes only when the streaming step completes.
pub proof fn law_run_success_streams_log(opts: RunOptions, events: Seq<RunEvent>)
    requires
        run_final(opts, RunStage::FindingProject, events) matches RunStage::Finished {
            result: Ok(_),
        },
    ensures
        exists|i: int|
            0 <= i < run_actions(opts, RunStage::FindingProject, events).len() && run_actions(
                opts,
                RunStage::FindingProject,
                events,
            )[i] is StreamLogcat,
{
    lemma_success_after_streaming(opts, RunStage::FindingProject, events);
}

} // verus!
