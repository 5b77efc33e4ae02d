use emu::android::{
    badging_args, boot_completed, boot_completed_args, build_tools_dir, fallback_sdk_candidates,
    host_os_from_name, latest_version_dir, list_avds, list_online_devices, locate_aapt2_binary,
    locate_adb_binary, locate_binary_in_path, locate_binary_in_sdk, locate_binary_in_select_paths,
    locate_emulator_binary, package_name_from_apk, sdk_tool_search_paths, parse_avd_list, parse_online_devices,
    parse_package_name, pid_from_pidof, wait_for_boot, BootAction, BootEvent, BootWait, HostEnv,
    HostOs,
};
use emu::error::EmuError;
use emu::search::first_file;
use std::path::Path;

fn touch(dir: &Path, name: &str) -> tempfile::NamedTempFile {
    tempfile::Builder::new().prefix(name).rand_bytes(0).tempfile_in(dir).unwrap()
}

fn mkdir(dir: &Path, name: &str) -> tempfile::TempDir {
    tempfile::Builder::new().prefix(name).rand_bytes(0).tempdir_in(dir).unwrap()
}

fn is_file(p: &str) -> bool {
    Path::new(p).is_file()
}

fn path_str(p: &Path) -> String {
    p.to_str().unwrap().to_owned()
}

fn env_with(home: Option<&str>, sdk_root: Option<&str>, path_dirs: Vec<String>) -> HostEnv {
    HostEnv {
        os: HostOs::Linux,
        android_home: home.map(|s| s.to_owned()),
        android_sdk_root: sdk_root.map(|s| s.to_owned()),
        path_dirs,
    }
}

#[test]
fn parse_package_name_basic() {
    let output =
        "package: name='com.example.app' versionCode='1' versionName='1.0'\nsdkVersion:'21'";
    assert_eq!(parse_package_name(output).unwrap(), "com.example.app");
}

#[test]
fn parse_package_name_no_name() {
    assert!(parse_package_name("sdkVersion:'21'").is_err());
}

#[test]
fn parse_package_name_empty() {
    assert!(parse_package_name("").is_err());
}

#[test]
fn parse_package_name_name_not_first_field() {
    let output = "package: versionCode='1' name='com.test.app' versionName='1.0'";
    assert_eq!(parse_package_name(output).unwrap(), "com.test.app");
}

#[test]
fn parse_package_name_skips_lines_before_package() {
    let output = "sdkVersion:'21'\r\npackage: name='org.demo' versionCode='3'\r\n";
    assert_eq!(parse_package_name(output).unwrap(), "org.demo");
}

#[test]
fn parse_package_name_needs_closing_quote_and_line_start() {
    assert_eq!(
        parse_package_name("package: name='unterminated versionCode='1'"),
        Err(EmuError::PackageNameNotFound)
    );
    assert_eq!(
        parse_package_name(" package: name='indented'"),
        Err(EmuError::PackageNameNotFound)
    );
    assert_eq!(parse_package_name("package: name=''").unwrap(), "");
}

#[test]
fn package_name_from_apk_reads_status_and_output() {
    assert_eq!(package_name_from_apk(false, b"package: name='a.b'"), Err(EmuError::BadgingFailed));
    assert_eq!(package_name_from_apk(true, b"package: name='a.b'").unwrap(), "a.b");
    assert_eq!(package_name_from_apk(true, b"nothing"), Err(EmuError::PackageNameNotFound));
}

#[test]
fn avd_list_trims_and_drops_blank_lines() {
    assert_eq!(parse_avd_list("Pixel_7_API_34\n  Nexus_5 \r\n\n\t\n"), vec!["Pixel_7_API_34", "Nexus_5"]);
    assert_eq!(parse_avd_list(""), Vec::<String>::new());
}

#[test]
fn list_avds_errors() {
    assert_eq!(list_avds(false, b"Pixel\n"), Err(EmuError::ListAvdsFailed));
    assert_eq!(list_avds(true, b"\n  \n"), Err(EmuError::NoAvds));
    assert_eq!(list_avds(true, b"Pixel\nTablet\n").unwrap(), vec!["Pixel", "Tablet"]);
}

#[test]
fn online_devices_skip_header_and_other_states() {
    let out = "List of devices attached\nemulator-5554\tdevice\nR58M123\toffline\nZX1\tdevice product:x\n\n";
    assert_eq!(parse_online_devices(out), vec!["emulator-5554", "ZX1"]);
    assert_eq!(parse_online_devices("emulator-5554\tdevice"), Vec::<String>::new());
    assert_eq!(list_online_devices(b"List\nabc device\n"), vec!["abc"]);
}

#[test]
fn online_devices_decode_invalid_utf8_lossily() {
    assert_eq!(list_online_devices(b"List\nab\xffc device\n"), vec!["ab\u{fffd}c"]);
}

#[test]
fn boot_property_reads_one() {
    assert!(boot_completed(b"1\n"));
    assert!(boot_completed(b"  1 \r\n"));
    assert!(!boot_completed(b"0\n"));
    assert!(!boot_completed(b""));
    assert!(!boot_completed(b"11"));
}

#[test]
fn pidof_output_is_trimmed() {
    assert_eq!(pid_from_pidof(b" 1234\n"), Some("1234".to_owned()));
    assert_eq!(pid_from_pidof(b"\n"), None);
    assert_eq!(pid_from_pidof(b""), None);
}

#[test]
fn latest_version_is_lexicographic_maximum() {
    let dirs = vec![
        "/sdk/build-tools/30.0.3".to_owned(),
        "/sdk/build-tools/34.0.0".to_owned(),
        "/sdk/build-tools/33.0.1".to_owned(),
    ];
    assert_eq!(latest_version_dir(&dirs), Some("/sdk/build-tools/34.0.0".to_owned()));
    assert_eq!(latest_version_dir(&Vec::new()), None);
    let lexical = vec!["/b/9.0.0".to_owned(), "/b/10.0.0".to_owned()];
    assert_eq!(latest_version_dir(&lexical), Some("/b/9.0.0".to_owned()));
}

#[test]
fn host_os_names() {
    assert_eq!(host_os_from_name("windows"), HostOs::Windows);
    assert_eq!(host_os_from_name("macos"), HostOs::MacOs);
    assert_eq!(host_os_from_name("linux"), HostOs::Linux);
    assert_eq!(host_os_from_name("freebsd"), HostOs::Other);
}

#[test]
fn fallback_locations_per_os() {
    assert_eq!(
        fallback_sdk_candidates(Some("/home/u".to_owned()), HostOs::Linux),
        vec!["/home/u/Android/Sdk"]
    );
    assert_eq!(
        fallback_sdk_candidates(Some("/Users/u".to_owned()), HostOs::MacOs),
        vec!["/Users/u/Library/Android/sdk"]
    );
    assert_eq!(fallback_sdk_candidates(None, HostOs::Linux), Vec::<String>::new());
    assert_eq!(
        fallback_sdk_candidates(None, HostOs::Windows),
        vec![
            "C:\\Program Files (x86)\\Android\\android-sdk",
            "C:\\Program Files\\Android\\android-sdk",
            "C:\\Android\\android-sdk",
        ]
    );
    assert_eq!(fallback_sdk_candidates(Some("/h".to_owned()), HostOs::Other), Vec::<String>::new());
}

#[test]
fn locate_in_sdk_tries_android_home_then_sdk_root() {
    let home = tempfile::tempdir().unwrap();
    let other = tempfile::tempdir().unwrap();
    let tools = mkdir(home.path(), "platform-tools");
    let _adb = touch(tools.path(), "adb");
    let h = path_str(home.path());
    let o = path_str(other.path());
    let env = env_with(Some(&h), Some(&o), Vec::new());
    assert_eq!(
        locate_binary_in_sdk(&env, "platform-tools", "adb", &is_file),
        Some(path_str(&home.path().join("platform-tools").join("adb")))
    );
    let env = env_with(Some(&o), Some(&h), Vec::new());
    assert_eq!(
        locate_binary_in_sdk(&env, "platform-tools", "adb", &is_file),
        Some(path_str(&home.path().join("platform-tools").join("adb")))
    );
    let env = env_with(Some(&o), None, Vec::new());
    assert_eq!(locate_binary_in_sdk(&env, "platform-tools", "adb", &is_file), None);
    let env = env_with(None, Some(&h), Vec::new());
    assert!(locate_binary_in_sdk(&env, "platform-tools", "adb", &is_file).is_some());
    let env = env_with(None, None, Vec::new());
    assert_eq!(locate_binary_in_sdk(&env, "platform-tools", "adb", &is_file), None);
}

#[test]
fn locate_in_path_takes_first_directory_holding_it() {
    let a = tempfile::tempdir().unwrap();
    let b = tempfile::tempdir().unwrap();
    let c = tempfile::tempdir().unwrap();
    let _eb = touch(b.path(), "emulator");
    let _ec = touch(c.path(), "emulator");
    let dirs = vec![path_str(a.path()), path_str(b.path()), path_str(c.path())];
    assert_eq!(
        locate_binary_in_path(&dirs, "emulator", &is_file),
        Some(path_str(&b.path().join("emulator")))
    );
    assert_eq!(locate_binary_in_path(&dirs, "adb", &is_file), None);
    assert_eq!(locate_binary_in_path(&Vec::new(), "emulator", &is_file), None);
}

#[test]
fn locate_in_select_paths_joins_sub_dir() {
    let a = tempfile::tempdir().unwrap();
    let b = tempfile::tempdir().unwrap();
    let sub = mkdir(b.path(), "emulator");
    let _e = touch(sub.path(), "emulator");
    let paths = vec![path_str(a.path()), path_str(b.path())];
    assert_eq!(
        locate_binary_in_select_paths(&paths, "emulator", "emulator", &is_file),
        Some(path_str(&b.path().join("emulator").join("emulator")))
    );
    assert_eq!(locate_binary_in_select_paths(&paths, "platform-tools", "adb", &is_file), None);
}

#[test]
fn locate_tools_report_their_errors() {
    let empty = tempfile::tempdir().unwrap();
    let e = path_str(empty.path());
    let env = HostEnv {
        os: HostOs::Other,
        android_home: Some(e.clone()),
        android_sdk_root: None,
        path_dirs: vec![e.clone()],
    };
    assert_eq!(locate_emulator_binary(&env, &is_file), Err(EmuError::EmulatorNotFound));
    assert_eq!(locate_adb_binary(&env, &is_file), Err(EmuError::AdbNotFound));
    assert_eq!(locate_aapt2_binary(&env, &vec![Vec::new()], &is_file), Err(EmuError::Aapt2NotFound));
}

#[test]
fn locate_emulator_in_sdk_root() {
    let sdk = tempfile::tempdir().unwrap();
    let sub = mkdir(sdk.path(), "emulator");
    let _e = touch(sub.path(), "emulator");
    let env = HostEnv {
        os: HostOs::Linux,
        android_home: Some(path_str(sdk.path())),
        android_sdk_root: None,
        path_dirs: Vec::new(),
    };
    assert_eq!(
        locate_emulator_binary(&env, &is_file).unwrap(),
        path_str(&sdk.path().join("emulator").join("emulator"))
    );
}

#[test]
fn locate_aapt2_uses_newest_build_tools() {
    let sdk = tempfile::tempdir().unwrap();
    let bt = mkdir(sdk.path(), "build-tools");
    let mut keep = Vec::new();
    let mut files = Vec::new();
    for v in ["33.0.1", "34.0.0", "30.0.3"] {
        let d = mkdir(bt.path(), v);
        files.push(touch(d.path(), "aapt2"));
        keep.push(d);
    }
    let _plain = touch(bt.path(), "zz-not-a-dir");
    let env = HostEnv {
        os: HostOs::Linux,
        android_home: Some(path_str(sdk.path())),
        android_sdk_root: None,
        path_dirs: Vec::new(),
    };
    assert_eq!(build_tools_dir(&path_str(sdk.path())), path_str(bt.path()));
    let versions: Vec<String> =
        ["33.0.1", "34.0.0", "30.0.3"].iter().map(|v| path_str(&bt.path().join(v))).collect();
    assert_eq!(
        locate_aapt2_binary(&env, &vec![versions.clone()], &is_file).unwrap(),
        path_str(&bt.path().join("34.0.0").join("aapt2"))
    );
    // A root without version directories is passed over; the first root
    // whose newest version holds aapt2 wins over PATH.
    let bin = tempfile::tempdir().unwrap();
    let _p = touch(bin.path(), "aapt2");
    let env = HostEnv {
        os: HostOs::Linux,
        android_home: Some(path_str(sdk.path())),
        android_sdk_root: None,
        path_dirs: vec![path_str(bin.path())],
    };
    assert_eq!(
        locate_aapt2_binary(&env, &vec![Vec::new(), versions], &is_file).unwrap(),
        path_str(&bt.path().join("34.0.0").join("aapt2"))
    );
    assert_eq!(
        locate_aapt2_binary(&env, &vec![Vec::new()], &is_file).unwrap(),
        path_str(&bin.path().join("aapt2"))
    );
}

#[test]
fn boot_wait_takes_first_device_and_waits_for_boot() {
    let s = BootWait::start(180);
    let (s, a) = wait_for_boot(s, BootEvent::Clock { deadline_passed: false });
    assert!(matches!(a, BootAction::ListDevices));
    let (s, a) = wait_for_boot(s, BootEvent::Devices { serials: Vec::new() });
    assert!(matches!(a, BootAction::PauseThenReadClock { millis: 500 }));
    let (s, _) = wait_for_boot(s, BootEvent::Clock { deadline_passed: false });
    let (s, a) = wait_for_boot(
        s,
        BootEvent::Devices { serials: vec!["emulator-5554".to_owned(), "R58".to_owned()] },
    );
    assert!(matches!(a, BootAction::ReadClock));
    let (s, a) = wait_for_boot(s, BootEvent::Clock { deadline_passed: false });
    assert!(matches!(a, BootAction::QueryBootCompleted { ref serial } if serial == "emulator-5554"));
    let (s, a) = wait_for_boot(s, BootEvent::BootProp { stdout: b"0\n".to_vec() });
    assert!(matches!(a, BootAction::PauseThenReadClock { millis: 500 }));
    let (s, _) = wait_for_boot(s, BootEvent::Clock { deadline_passed: false });
    let (s, a) = wait_for_boot(s, BootEvent::BootProp { stdout: b"1\n".to_vec() });
    assert!(matches!(a, BootAction::Ready { ref serial } if serial == "emulator-5554"));
    assert!(matches!(s, BootWait::Finished));
}

#[test]
fn boot_wait_times_out_in_each_phase() {
    let (_, a) = wait_for_boot(BootWait::start(7), BootEvent::Clock { deadline_passed: true });
    assert!(matches!(a, BootAction::Fail { error: EmuError::DeviceTimeout { secs: 7 } }));
    let s = BootWait::AwaitingBoot { timeout_secs: 9, serial: "x".to_owned() };
    let (_, a) = wait_for_boot(s, BootEvent::Clock { deadline_passed: true });
    assert!(matches!(a, BootAction::Fail { error: EmuError::BootTimeout { secs: 9 } }));
}

#[test]
fn adb_and_aapt_command_lines() {
    assert_eq!(
        boot_completed_args("emulator-5554"),
        vec!["-s", "emulator-5554", "shell", "getprop", "sys.boot_completed"]
    );
    assert_eq!(badging_args("app.apk"), vec!["dump", "badging", "app.apk"]);
}

#[test]
fn error_messages() {
    assert_eq!(
        EmuError::DeviceTimeout { secs: 180 }.message(),
        "Timed out waiting for device after 180s"
    );
    assert_eq!(
        EmuError::BootTimeout { secs: 5 }.message(),
        "Timed out waiting for `sys.boot_completed` after 5s"
    );
    assert_eq!(
        EmuError::PidNotFound { package: "a.b".to_owned() }.message(),
        "Could not find PID for `a.b` within 10s. Is the app running?"
    );
    assert_eq!(
        EmuError::NoApkFound { root: "/p".to_owned() }.message(),
        "No APK found under /p. Run `gradlew installDebug` first."
    );
    assert_eq!(EmuError::NoAvds.message(), "No AVDs found. Create one with: avdmanager create avd -n <name> -k <package>");
}

#[test]
fn tool_search_order_is_home_sdk_root_fallback_then_path() {
    let env = HostEnv {
        os: HostOs::Linux,
        android_home: Some("/h".to_owned()),
        android_sdk_root: Some("/s".to_owned()),
        path_dirs: vec!["/p1".to_owned(), "/p2".to_owned()],
    };
    let fallback = vec!["/f".to_owned()];
    assert_eq!(
        sdk_tool_search_paths(&env, &fallback, "platform-tools", "adb"),
        vec![
            "/h/platform-tools/adb",
            "/s/platform-tools/adb",
            "/f/platform-tools/adb",
            "/p1/adb",
            "/p2/adb",
        ]
    );
    let bare = env_with(None, None, Vec::new());
    assert_eq!(sdk_tool_search_paths(&bare, &Vec::new(), "emulator", "emulator"), Vec::<String>::new());
}

#[test]
fn searches_take_the_first_path_the_file_test_accepts() {
    let accept = |wanted: &'static [&'static str]| move |p: &str| wanted.contains(&p);
    let paths = vec!["a".to_owned(), "b".to_owned(), "c".to_owned()];
    assert_eq!(locate_binary_in_path(&paths, "t", &accept(&["b/t", "c/t"])), Some("b/t".to_owned()));
    assert_eq!(
        locate_binary_in_select_paths(&paths, "s", "t", &accept(&["a/s/t", "c/s/t"])),
        Some("a/s/t".to_owned())
    );
    assert_eq!(locate_binary_in_select_paths(&paths, "s", "t", &accept(&[])), None);
    let env = env_with(Some("/h"), Some("/r"), Vec::new());
    assert_eq!(
        locate_binary_in_sdk(&env, "platform-tools", "adb", &accept(&["/r/platform-tools/adb"])),
        Some("/r/platform-tools/adb".to_owned())
    );
    assert_eq!(first_file(&paths, &accept(&["c"])), Some("c".to_owned()));
    let first = vec!["a".to_owned()];
    let both = vec!["a".to_owned(), "b".to_owned()];
    let wanted = accept(&["b/s/t"]);
    assert_eq!(locate_binary_in_select_paths(&first, "s", "t", &wanted), None);
    assert_eq!(
        locate_binary_in_select_paths(&both, "s", "t", &wanted),
        locate_binary_in_select_paths(&vec!["b".to_owned()], "s", "t", &wanted)
    );
}

#[test]
fn android_home_copy_wins_over_path_copy() {
    let sdk = tempfile::tempdir().unwrap();
    let sub = mkdir(sdk.path(), "platform-tools");
    let _a = touch(sub.path(), "adb");
    let bin = tempfile::tempdir().unwrap();
    let _b = touch(bin.path(), "adb");
    let env = HostEnv {
        os: HostOs::Linux,
        android_home: Some(path_str(sdk.path())),
        android_sdk_root: None,
        path_dirs: vec![path_str(bin.path())],
    };
    assert_eq!(
        locate_adb_binary(&env, &is_file).unwrap(),
        path_str(&sdk.path().join("platform-tools").join("adb"))
    );
    let env = HostEnv {
        os: HostOs::Other,
        android_home: None,
        android_sdk_root: None,
        path_dirs: vec![path_str(bin.path())],
    };
    assert_eq!(locate_adb_binary(&env, &is_file).unwrap(), path_str(&bin.path().join("adb")));
}

#[test]
fn printed_names_and_serials_read_back() {
    let names = vec!["Pixel_7_API_34", "Medium_Phone", "Wear_OS"];
    let printed: String = names.iter().map(|n| format!("{n}\n")).collect();
    assert_eq!(parse_avd_list(&printed), names);
    let serials = vec!["emulator-5554", "emulator-5556", "R58M123"];
    let mut out = String::from("List of devices attached\n");
    for s in &serials {
        out.push_str(&format!("{s}\tdevice\n"));
    }
    assert_eq!(parse_online_devices(&out), serials);
    assert_eq!(
        parse_package_name("package: name='org.read.back'\nlater: x").unwrap(),
        "org.read.back"
    );
}
