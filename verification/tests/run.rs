use emu::android::HostOs;
use emu::cli::{dispatch, Commands, Task};
use emu::error::EmuError;
use emu::launch;
use emu::run::{
    clear_logcat_args, find_apk, find_gradle_root, gradle_outcome, is_built_apk, gradle_install_args, gradle_program,
    gradle_task_name, is_apk_path, launch_activity_args, logcat_stream_args, pid_poll, pidof_args,
    ApkChoice, PidPoll, PID_WAIT_SECS,
};
use emu::session::{run_action, run_start, run_with, RunAction, RunEvent, RunOptions, RunStage};
use std::path::Path;
use tempfile::tempdir;

fn host_os() -> HostOs {
    HostOs::Linux
}

fn is_file(p: &str) -> bool {
    Path::new(p).is_file()
}

fn touch(dir: &Path, name: &str) -> tempfile::NamedTempFile {
    tempfile::Builder::new().prefix(name).rand_bytes(0).tempfile_in(dir).unwrap()
}

fn mkdir(dir: &Path, name: &str) -> tempfile::TempDir {
    tempfile::Builder::new().prefix(name).rand_bytes(0).tempdir_in(dir).unwrap()
}

#[test]
fn find_gradle_root_finds_in_current_dir() {
    let dir = tempdir().unwrap();
    let _gradlew = touch(dir.path(), "gradlew");

    let result = find_gradle_root(dir.path().to_str().unwrap(), host_os(), &is_file);
    assert!(result.is_ok());
    assert_eq!(result.unwrap(), dir.path().to_str().unwrap());
}

#[test]
fn find_gradle_root_finds_in_parent() {
    let dir = tempdir().unwrap();
    let _gradlew = touch(dir.path(), "gradlew");

    let subdir = mkdir(dir.path(), "subdir");

    let result = find_gradle_root(subdir.path().to_str().unwrap(), host_os(), &is_file);
    assert!(result.is_ok());
    assert_eq!(result.unwrap(), dir.path().to_str().unwrap());
}

#[test]
fn find_gradle_root_not_found() {
    let dir = tempdir().unwrap();
    let result = find_gradle_root(dir.path().to_str().unwrap(), host_os(), &is_file);
    assert!(result.is_err());
}

#[test]
fn find_gradle_root_reports_start_directory() {
    let dir = tempdir().unwrap();
    let cwd = dir.path().to_str().unwrap().to_owned();
    assert_eq!(find_gradle_root(&cwd, HostOs::Linux, &is_file), Err(EmuError::GradlewNotFound { cwd: cwd.clone() }));
}

#[test]
fn find_gradle_root_uses_bat_on_windows() {
    let dir = tempdir().unwrap();
    let _bat = touch(dir.path(), "gradlew.bat");
    let cwd = dir.path().to_str().unwrap();
    assert_eq!(find_gradle_root(cwd, HostOs::Windows, &is_file).unwrap(), cwd);
    assert!(find_gradle_root(cwd, HostOs::Linux, &is_file).is_err());
}

#[test]
fn apk_paths_by_extension() {
    assert!(is_apk_path("app/build/outputs/apk/debug/app-debug.apk"));
    assert!(!is_apk_path("app/build/outputs/apk/debug/output-metadata.json"));
    assert!(!is_apk_path("apk"));
    assert!(!is_apk_path(".apk"));
}

#[test]
fn built_apks_lie_in_build_outputs_apk() {
    let root = "/p";
    assert!(is_built_apk(root, "/p/app/build/outputs/apk/debug/app-debug.apk", HostOs::Linux));
    assert!(is_built_apk(root, "/p/build/outputs/apk/release/x.apk", HostOs::Linux));
    assert!(is_built_apk(root, "/p/feature/pay/build/outputs/apk/debug/pay.apk", HostOs::Linux));
    assert!(!is_built_apk(root, "/p/releases/old.apk", HostOs::Linux));
    assert!(!is_built_apk(root, "/p/app/build/outputs/apk/debug/output-metadata.json", HostOs::Linux));
    assert!(!is_built_apk(root, "/p/app/build/outputs/apk.apk", HostOs::Linux));
    assert!(!is_built_apk(root, "/p/app\\build\\outputs\\apk\\debug\\a.apk", HostOs::Linux));
    assert!(is_built_apk(root, "/p/app\\build\\outputs\\apk\\debug\\a.apk", HostOs::Windows));
}

#[test]
fn find_apk_choices() {
    let dir = tempdir().unwrap();
    let root = dir.path().to_str().unwrap().to_owned();
    let manual = touch(dir.path(), "given.apk");
    let m = manual.path().to_str().unwrap();
    let os = HostOs::Linux;
    assert!(matches!(find_apk(&root, Some(m), &Vec::new(), os, &is_file), Ok(ApkChoice::Use { path }) if path == m));
    let missing = format!("{root}/missing.apk");
    let built = vec![format!("{root}/app/build/outputs/apk/debug/app-debug.apk")];
    assert_eq!(
        find_apk(&root, Some(&missing), &built, os, &is_file).err(),
        Some(EmuError::ApkNotFound { path: missing.clone() })
    );
    assert_eq!(
        find_apk(&root, None, &Vec::new(), os, &is_file).err(),
        Some(EmuError::NoApkFound { root: root.clone() })
    );
    let files = vec![
        format!("{root}/app/build/outputs/apk/debug/app-debug.apk"),
        format!("{root}/app/build/intermediates/apk/debug/app-debug.apk"),
        format!("{root}/app/build/outputs/apk/debug/output-metadata.json"),
    ];
    assert!(matches!(find_apk(&root, None, &files, os, &is_file), Ok(ApkChoice::Use { ref path }) if *path == files[0]));
    let two = vec![
        format!("{root}/app/build/outputs/apk/debug/app-debug.apk"),
        format!("{root}/README.md"),
        format!("{root}/lib/build/outputs/apk/release/lib.apk"),
    ];
    match find_apk(&root, None, &two, os, &is_file) {
        Ok(ApkChoice::Choose { paths, labels }) => {
            assert_eq!(paths, vec![two[0].clone(), two[2].clone()]);
            assert_eq!(
                labels,
                vec!["app/build/outputs/apk/debug/app-debug.apk", "lib/build/outputs/apk/release/lib.apk"]
            );
        }
        _ => panic!("expected a choice"),
    }
}

#[test]
fn find_gradle_root_takes_nearest_wrapper() {
    let accept = |wanted: &'static [&'static str]| move |p: &str| wanted.contains(&p);
    assert_eq!(
        find_gradle_root("/a/b/c", HostOs::Linux, &accept(&["/a/b/gradlew", "/a/gradlew"])).unwrap(),
        "/a/b"
    );
    assert_eq!(
        find_gradle_root("/a/b/c", HostOs::Linux, &accept(&["/a/build.gradle"])),
        Err(EmuError::GradlewNotFound { cwd: "/a/b/c".to_owned() })
    );
    assert_eq!(find_gradle_root("/a/b/c", HostOs::Linux, &accept(&["/gradlew"])).unwrap(), "/");
}

#[test]
fn gradle_invocation() {
    assert_eq!(gradle_program(HostOs::Windows), "gradlew.bat");
    assert_eq!(gradle_program(HostOs::Linux), "./gradlew");
    assert_eq!(gradle_install_args(), vec!["installDebug", "--console=plain"]);
}

#[test]
fn gradle_task_lines() {
    assert_eq!(gradle_task_name("> Task :app:compileDebugKotlin"), Some(":app:compileDebugKotlin".to_owned()));
    assert_eq!(gradle_task_name("BUILD SUCCESSFUL in 3s"), None);
    assert_eq!(gradle_task_name(" > Task :x"), None);
}

#[test]
fn adb_command_lines() {
    assert_eq!(
        launch_activity_args("emulator-5554", "com.example.app"),
        vec!["-s", "emulator-5554", "shell", "monkey", "-p", "com.example.app", "-c", "android.intent.category.LAUNCHER", "1"]
    );
    assert_eq!(clear_logcat_args("s1"), vec!["-s", "s1", "logcat", "-c"]);
    assert_eq!(pidof_args("s1", "a.b"), vec!["-s", "s1", "shell", "pidof", "a.b"]);
    assert_eq!(logcat_stream_args("s1", "4321"), vec!["-s", "s1", "logcat", "-v", "brief", "--pid=4321"]);
}

#[test]
fn pid_polling_decisions() {
    assert_eq!(PID_WAIT_SECS, 10);
    assert!(matches!(pid_poll(b"4321\n", false, "a.b"), PidPoll::Found { ref pid } if pid == "4321"));
    assert!(matches!(pid_poll(b"4321\n", true, "a.b"), PidPoll::Found { .. }));
    assert!(matches!(pid_poll(b"\n", false, "a.b"), PidPoll::Retry { millis: 300 }));
    assert!(matches!(
        pid_poll(b"", true, "a.b"),
        PidPoll::GiveUp { error: EmuError::PidNotFound { ref package } } if package == "a.b"
    ));
}

#[test]
fn launch_command_for_avd() {
    let c = launch::run("/sdk/emulator/emulator", "Pixel_7", false).unwrap();
    assert_eq!(c.program, "/sdk/emulator/emulator");
    assert_eq!(c.working_dir, "/sdk/emulator");
    assert_eq!(c.args, vec!["-avd", "Pixel_7"]);
    let c = launch::run("/sdk/emulator/emulator", "Pixel_7", true).unwrap();
    assert_eq!(c.args, vec!["-avd", "Pixel_7", "-no-snapshot-load"]);
    assert!(matches!(launch::run("/", "Pixel_7", false), Err(EmuError::EmulatorHasNoParent)));
}

#[test]
fn dispatch_subcommands() {
    assert!(matches!(dispatch(Some(Commands::Launch)), Task::Launch));
    assert!(matches!(dispatch(None), Task::Launch));
    let t = dispatch(Some(Commands::Run {
        no_install: true,
        no_start: false,
        clear: true,
        boot_timeout: 300,
        apk: Some("x.apk".to_owned()),
    }));
    match t {
        Task::Run { options } => {
            assert!(options.no_install && !options.no_start && options.clear);
            assert_eq!(options.boot_timeout, 300);
            assert_eq!(options.apk.as_deref(), Some("x.apk"));
        }
        _ => panic!("expected a run"),
    }
}

fn opts(no_install: bool, no_start: bool, clear: bool) -> RunOptions {
    RunOptions { no_install, no_start, clear, boot_timeout: 180, apk: None }
}

fn action_name(a: &RunAction) -> &'static str {
    match a {
        RunAction::FindProjectRoot => "find-project",
        RunAction::WaitForDevice { .. } => "wait-device",
        RunAction::ExportSerial { .. } => "export-serial",
        RunAction::GradleInstall { .. } => "install",
        RunAction::FindApk { .. } => "find-apk",
        RunAction::ReadPackageName { .. } => "package",
        RunAction::LaunchActivity { .. } => "launch",
        RunAction::ClearLogcat { .. } => "clear",
        RunAction::StreamLogcat { .. } => "stream",
        RunAction::Finish { result: Ok(()) } => "ok",
        RunAction::Finish { result: Err(_) } => "failed",
    }
}

/// Drives a session where every step succeeds and lists the actions asked for.
fn happy_run(o: &RunOptions) -> Vec<&'static str> {
    let mut stage = run_start();
    let mut names = Vec::new();
    loop {
        let action = run_action(o, &stage);
        names.push(action_name(&action));
        let event = match action {
            RunAction::FindProjectRoot => RunEvent::ProjectRoot { root: "/p".to_owned() },
            RunAction::WaitForDevice { timeout_secs } => {
                assert_eq!(timeout_secs, o.boot_timeout);
                RunEvent::DeviceReady { serial: "emulator-5554".to_owned() }
            }
            RunAction::FindApk { .. } => RunEvent::ApkFound { path: "/p/a.apk".to_owned() },
            RunAction::ReadPackageName { ref apk } => {
                assert_eq!(apk, "/p/a.apk");
                RunEvent::PackageName { package: "com.x".to_owned() }
            }
            RunAction::Finish { .. } => break,
            _ => RunEvent::StepDone,
        };
        stage = run_with(o, stage, event);
    }
    names
}

#[test]
fn session_runs_all_steps_by_default() {
    assert_eq!(
        happy_run(&opts(false, false, false)),
        vec!["find-project", "wait-device", "export-serial", "install", "find-apk", "package", "launch", "stream", "ok"]
    );
}

#[test]
fn session_flags_skip_and_add_steps() {
    assert_eq!(
        happy_run(&opts(true, true, false)),
        vec!["find-project", "wait-device", "export-serial", "find-apk", "package", "stream", "ok"]
    );
    assert_eq!(
        happy_run(&opts(false, false, true)),
        vec!["find-project", "wait-device", "export-serial", "install", "find-apk", "package", "launch", "clear", "stream", "ok"]
    );
    assert_eq!(
        happy_run(&opts(true, true, true)),
        vec!["find-project", "wait-device", "export-serial", "find-apk", "package", "clear", "stream", "ok"]
    );
}

#[test]
fn session_failure_finishes_with_error() {
    let o = opts(false, false, false);
    let stage = run_with(&o, run_start(), RunEvent::ProjectRoot { root: "/p".to_owned() });
    let stage = run_with(&o, stage, RunEvent::Failed { error: EmuError::DeviceTimeout { secs: 180 } });
    assert!(matches!(stage, RunStage::Finished { result: Err(EmuError::DeviceTimeout { secs: 180 }) }));
    let stage = run_with(&o, stage, RunEvent::StepDone);
    assert!(matches!(stage, RunStage::Finished { result: Err(EmuError::DeviceTimeout { secs: 180 }) }));
    assert!(matches!(run_action(&o, &stage), RunAction::Finish { result: Err(_) }));
}

#[test]
fn session_hands_given_apk_to_apk_step() {
    let o = RunOptions { no_install: true, no_start: true, clear: false, boot_timeout: 5, apk: Some("/x.apk".to_owned()) };
    let s = run_with(&o, run_start(), RunEvent::ProjectRoot { root: "/p".to_owned() });
    let s = run_with(&o, s, RunEvent::DeviceReady { serial: "d".to_owned() });
    let s = run_with(&o, s, RunEvent::StepDone);
    match run_action(&o, &s) {
        RunAction::FindApk { root, manual } => {
            assert_eq!(root, "/p");
            assert_eq!(manual.as_deref(), Some("/x.apk"));
        }
        _ => panic!("expected the APK step"),
    }
}

#[test]
fn gradle_outcome_follows_exit_status() {
    assert_eq!(gradle_outcome(true, "exit status: 0".to_owned()), Ok(()));
    assert_eq!(
        gradle_outcome(false, "exit status: 1".to_owned()),
        Err(EmuError::GradleFailed { status: "exit status: 1".to_owned() })
    );
}
