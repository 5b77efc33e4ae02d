//! `emu run`: finding the Gradle project and the APK, the command lines it
//! runs, and the decisions of the build-install-launch-log session.
use vstd::prelude::*;
use crate::android::HostOs;
use crate::error::EmuError;
use crate::search::{answered, callable};
use crate::host::{
    path_extension, path_join, path_parent, path_strip_prefix, spec_path_extension, spec_path_join,
    spec_path_parent, spec_path_strip_prefix, spec_utf8_lossy,
};
use crate::text::{
    chars_of, has_prefix, is_prefix, non_empty, non_empty_pieces, same_chars, skip_chars,
    split_by, split_chars, string_of, strs, trim, views, Sep,
};

verus! {

/// The name of the Gradle wrapper script on `os`.
pub open spec fn gradlew_name(os: HostOs) -> Seq<char> {
    if os == HostOs::Windows {
        "gradlew.bat"@
    } else {
        "gradlew"@
    }
}

/// The `k`th ancestor of `p` (`p` itself for `k == 0`), by `Path::parent`.
pub open spec fn ancestor(p: Seq<char>, k: nat) -> Option<Seq<char>>
    decreases k,
{
    if k == 0 {
        Some(p)
    } else {
        match ancestor(p, (k - 1) as nat) {
            Some(q) => spec_path_parent(q),
            None => None,
        }
    }
}

/// Where the walk up from a directory ends: at a path with no parent, or
/// that is its own parent.
pub open spec fn ends_walk(p: Seq<char>) -> bool {
    spec_path_parent(p) is None || spec_path_parent(p) == Some(p)
}

/// The `j`th directory of the walk up from `cwd` exists, is not where the
/// walk ends, and `is_file` refused the wrapper `name` in it.
pub open spec fn passed_over<F: Fn(&str) -> bool>(
    is_file: F,
    cwd: Seq<char>,
    name: Seq<char>,
    j: nat,
) -> bool {
    ancestor(cwd, j) matches Some(a) && !ends_walk(a) && answered(is_file, spec_path_join(a, name), false)
}

/// `r` is what the walk up from `cwd` reports, `is_file` answering for
/// `dir/wrapper` in each directory: the first directory whose wrapper it
/// accepted, every nearer one having been refused; or `GradlewNotFound`
/// with `cwd` after it refused the wrapper in every directory up to where
/// the walk ends.
pub open spec fn gradle_root_result<F: Fn(&str) -> bool>(
    is_file: F,
    cwd: Seq<char>,
    os: HostOs,
    r: Result<String, EmuError>,
) -> bool {
    &&& r matches Ok(root) ==> exists|k: nat|
        #[trigger] ancestor(cwd, k) == Some(root@) && answered(
            is_file,
            spec_path_join(root@, gradlew_name(os)),
            true,
        ) && forall|j: nat| j < k ==> #[trigger] passed_over(is_file, cwd, gradlew_name(os), j)
    &&& r matches Err(e) ==> (e matches EmuError::GradlewNotFound { cwd: c } && c@ == cwd) && exists|
        n: nat,
    |
        #[trigger] ancestor(cwd, n) matches Some(a) && ends_walk(a) && answered(
            is_file,
            spec_path_join(a, gradlew_name(os)),
            false,
        ) && forall|j: nat| j < n ==> #[trigger] passed_over(is_file, cwd, gradlew_name(os), j)
}

/// Off Windows the wrapper is `gradlew`: a working directory in which the
/// file test cannot have refused `gradlew` is itself the project root.
pub proof fn law_gradlew_in_cwd_is_root<F: Fn(&str) -> bool>(
    is_file: F,
    cwd: Seq<char>,
    os: HostOs,
    r: Result<String, EmuError>,
)
    requires
        os != HostOs::Windows,
        gradle_root_result(is_file, cwd, os, r),
        !answered(is_file, spec_path_join(cwd, "gradlew"@), false),
    ensures
        r matches Ok(root) && root@ == cwd,
{
    lemma_wrapper_in_cwd_is_root(is_file, cwd, os, r);
}

/// On Windows the wrapper is `gradlew.bat`: a working directory in which the
/// file test cannot have refused `gradlew.bat` is itself the project root.
pub proof fn law_gradlew_bat_in_cwd_is_root<F: Fn(&str) -> bool>(
    is_file: F,
    cwd: Seq<char>,
    r: Result<String, EmuError>,
)
    requires
        gradle_root_result(is_file, cwd, HostOs::Windows, r),
        !answered(is_file, spec_path_join(cwd, "gradlew.bat"@), false),
    ensures
        r matches Ok(root) && root@ == cwd,
{
    lemma_wrapper_in_cwd_is_root(is_file, cwd, HostOs::Windows, r);
}

/// Where the file test cannot have refused the wrapper in `cwd`, `cwd` is
/// the root.
proof fn lemma_wrapper_in_cwd_is_root<F: Fn(&str) -> bool>(
    is_file: F,
    cwd: Seq<char>,
    os: HostOs,
    r: Result<String, EmuError>,
)
    requires
        gradle_root_result(is_file, cwd, os, r),
        !answered(is_file, spec_path_join(cwd, gradlew_name(os)), false),
    ensures
        r matches Ok(root) && root@ == cwd,
{
    assert(ancestor(cwd, 0) == Some(cwd));
    match r {
        Ok(root) => {
            let k = choose|k: nat|
                #[trigger] ancestor(cwd, k) == Some(root@) && answered(
                    is_file,
                    spec_path_join(root@, gradlew_name(os)),
                    true,
                ) && forall|j: nat| j < k ==> #[trigger] passed_over(is_file, cwd, gradlew_name(os), j);
            if k > 0 {
                assert(passed_over(is_file, cwd, gradlew_name(os), 0));
            }
        },
        Err(e) => {
            let n = choose|n: nat|
                #[trigger] ancestor(cwd, n) matches Some(a) && ends_walk(a) && answered(
                    is_file,
                    spec_path_join(a, gradlew_name(os)),
                    false,
                ) && forall|j: nat| j < n ==> #[trigger] passed_over(is_file, cwd, gradlew_name(os), j);
            if n > 0 {
                assert(passed_over(is_file, cwd, gradlew_name(os), 0));
            }
        },
    }
}

/// Walks up from `cwd` to the nearest directory that holds the Gradle
/// wrapper (`gradlew`, or `gradlew.bat` on Windows), as `git` looks for
/// `.git`, asking `is_file` whether `dir/wrapper` is a file. It returns the
/// first directory for which `is_file` accepts the wrapper, every nearer one
/// having been refused; where `is_file` refused it in every directory up to
/// the root it reports `GradlewNotFound` with `cwd`.
pub fn find_gradle_root<F: Fn(&str) -> bool>(cwd: &str, os: HostOs, is_file: &F) -> (r: Result<
    String,
    EmuError,
>)
    requires
        callable(*is_file),
    ensures
        gradle_root_result(*is_file, cwd@, os, r),
{
    let name = if os == HostOs::Windows {
        "gradlew.bat"
    } else {
        "gradlew"
    };
    let mut current = String::from_str(cwd);
    let ghost mut k: nat = 0;
    loop
        invariant
            callable(*is_file),
            name@ == gradlew_name(os),
            ancestor(cwd@, k) == Some(current@),
            forall|j: nat| j < k ==> #[trigger] passed_over(*is_file, cwd@, gradlew_name(os), j),
        decreases current@.len(),
    {
        let candidate = path_join(current.as_str(), name);
        let hit = is_file(candidate.as_str());
        assert(answered(*is_file, spec_path_join(current@, name@), hit));
        if hit {
            return Ok(current);
        }
        match path_parent(current.as_str()) {
            Some(parent) => {
                if parent == current {
                    return Err(EmuError::GradlewNotFound { cwd: String::from_str(cwd) });
                }
                proof {
                    assert(passed_over(*is_file, cwd@, gradlew_name(os), k));
                    assert forall|j: nat| j < k + 1 implies #[trigger] passed_over(
                        *is_file,
                        cwd@,
                        gradlew_name(os),
                        j,
                    ) by {}
                    k = k + 1;
                }
                current = parent;
            },
            None => {
                return Err(EmuError::GradlewNotFound { cwd: String::from_str(cwd) });
            },
        }
    }
}

/// Whether `p` names an APK: its extension is `apk`.
pub fn is_apk_path(p: &str) -> (r: bool)
    ensures
        r == (spec_path_extension(p@) == Some("apk"@)),
{
    match path_extension(p) {
        Some(e) => {
            let ec = chars_of(e.as_str());
            let apk = chars_of("apk");
            same_chars(&ec, &apk)
        },
        None => false,
    }
}

/// The components of a path: the non-empty pieces between separators.
pub open spec fn path_components(p: Seq<char>, windows: bool) -> Seq<Seq<char>> {
    non_empty(split_by(p, Sep::Path { windows }))
}

/// `rel` lies inside a `build/outputs/apk/` directory: it has the
/// components `build`, `outputs`, `apk` in a row, with more after them.
pub open spec fn in_apk_outputs(rel: Seq<char>, windows: bool) -> bool {
    let c = path_components(rel, windows);
    exists|i: int|
        0 <= i && i + 3 < c.len() && #[trigger] c[i] == "build"@ && c[i + 1] == "outputs"@ && c[i
            + 2] == "apk"@
}

/// `p`, a file under the project root `root`, is a built APK: its extension
/// is `apk` and, relative to the root, it lies inside a `build/outputs/apk/`
/// directory.
pub open spec fn built_apk(root: Seq<char>, p: Seq<char>, os: HostOs) -> bool {
    spec_path_extension(p) == Some("apk"@) && in_apk_outputs(apk_label(root, p), os == HostOs::Windows)
}

/// The built APKs among `files`, in order.
pub open spec fn built_apks(root: Seq<char>, files: Seq<Seq<char>>, os: HostOs) -> Seq<Seq<char>>
    decreases files.len(),
{
    if files.len() == 0 {
        Seq::empty()
    } else {
        let init = built_apks(root, files.drop_last(), os);
        if built_apk(root, files.last(), os) {
            init.push(files.last())
        } else {
            init
        }
    }
}

/// Every `.apk` file that lies, relative to the project root, inside a
/// `build/outputs/apk/` directory counts as built, however many directories
/// (flavour, build type, ...) stand between `apk/` and the file; found
/// alone, it is the one APK the project offers.
pub proof fn law_apk_under_outputs_counts(
    root: Seq<char>,
    p: Seq<char>,
    os: HostOs,
    before: Seq<Seq<char>>,
    between: Seq<Seq<char>>,
    file: Seq<char>,
)
    requires
        spec_path_extension(p) == Some("apk"@),
        path_components(apk_label(root, p), os == HostOs::Windows) == before + seq![
            "build"@,
            "outputs"@,
            "apk"@,
        ] + between + seq![file],
    ensures
        built_apk(root, p, os),
        built_apks(root, seq![p], os) == seq![p],
{
    let c = path_components(apk_label(root, p), os == HostOs::Windows);
    let i = before.len() as int;
    assert(c[i] == "build"@);
    assert(c[i + 1] == "outputs"@);
    assert(c[i + 2] == "apk"@);
    assert(i + 3 < c.len());
    assert(in_apk_outputs(apk_label(root, p), os == HostOs::Windows));
    assert(seq![p].drop_last() =~= Seq::<Seq<char>>::empty());
    assert(seq![p].last() == p);
    assert(built_apks(root, Seq::<Seq<char>>::empty(), os) == Seq::<Seq<char>>::empty());
    assert(Seq::<Seq<char>>::empty().push(p) =~= seq![p]);
}

/// Whether `p`, a file found under the project root, is a built APK: its
/// extension is `apk` and, relative to the root, it lies inside a
/// `build/outputs/apk/` directory (of the app module or of any other
/// module).
pub fn is_built_apk(project_root: &str, p: &str, os: HostOs) -> (r: bool)
    ensures
        r == built_apk(project_root@, p@, os),
{
    if !is_apk_path(p) {
        return false;
    }
    let rel = match path_strip_prefix(p, project_root) {
        Some(q) => q,
        None => String::from_str(p),
    };
    let windows = os == HostOs::Windows;
    let rc = chars_of(rel.as_str());
    let pieces = split_chars(&rc, Sep::Path { windows });
    let comps = non_empty_pieces(&pieces);
    let ghost c = views(comps@);
    assert(c == path_components(apk_label(project_root@, p@), windows));
    let build = chars_of("build");
    let outputs = chars_of("outputs");
    let apk = chars_of("apk");
    let mut i: usize = 0;
    while comps.len() >= 3 && i < comps.len() - 3
        invariant
            c == views(comps@),
            c == path_components(apk_label(project_root@, p@), windows),
            windows == (os == HostOs::Windows),
            spec_path_extension(p@) == Some("apk"@),
            build@ == "build"@,
            outputs@ == "outputs"@,
            apk@ == "apk"@,
            forall|k: int|
                0 <= k < i && k + 3 < c.len() ==> !(#[trigger] c[k] == "build"@ && c[k + 1]
                    == "outputs"@ && c[k + 2] == "apk"@),
        decreases comps.len() - i,
    {
        assert(c[i as int] == comps@[i as int]@);
        assert(c[i + 1] == comps@[i + 1]@);
        assert(c[i + 2] == comps@[i + 2]@);
        if same_chars(&comps[i], &build) && same_chars(&comps[i + 1], &outputs) && same_chars(
            &comps[i + 2],
            &apk,
        ) {
            assert(c[i as int] == "build"@);
            return true;
        }
        i = i + 1;
    }
    false
}

/// How an APK is shown when the user picks one: its path relative to the
/// project root, where it lies under it.
pub open spec fn apk_label(root: Seq<char>, p: Seq<char>) -> Seq<char> {
    match spec_path_strip_prefix(p, root) {
        Some(q) => q,
        None => p,
    }
}

/// The APK to use, or the APKs to let the user pick from.
pub enum ApkChoice {
    /// Use this APK.
    Use { path: String },
    /// Ask the user to pick one of `paths`, shown as `labels`.
    Choose { paths: Vec<String>, labels: Vec<String> },
}

/// The built APKs among `files`, in order.
pub fn built_apk_list(project_root: &str, files: &Vec<String>, os: HostOs) -> (r: Vec<String>)
    ensures
        strs(r@) == built_apks(project_root@, strs(files@), os),
{
    let ghost fs = strs(files@);
    let mut r: Vec<String> = Vec::new();
    for i in 0..files.len()
        invariant
            fs == strs(files@),
            strs(r@) == built_apks(project_root@, fs.take(i as int), os),
    {
        proof {
            assert(fs.take(i + 1).drop_last() =~= fs.take(i as int));
            assert(fs.take(i + 1).last() == files@[i as int]@);
        }
        if is_built_apk(project_root, files[i].as_str(), os) {
            let ghost prev = r@;
            r.push(files[i].clone());
            assert(strs(r@) =~= strs(prev).push(files@[i as int]@));
        }
    }
    assert(fs.take(files.len() as int) =~= fs);
    r
}

/// Decides which APK `emu run` uses. An APK given on the command line is
/// used where `is_file` accepts it, else `ApkNotFound`; the project is not
/// searched then. Otherwise the built APKs among `files` (the files under
/// the project root) count: none gives `NoApkFound`, one is used, several
/// are offered for the user to pick, each labelled by its path relative to
/// the root.
pub fn find_apk<F: Fn(&str) -> bool>(
    project_root: &str,
    manual: Option<&str>,
    files: &Vec<String>,
    os: HostOs,
    is_file: &F,
) -> (r: Result<ApkChoice, EmuError>)
    requires
        callable(*is_file),
    ensures
        manual matches Some(m) ==> (r matches Ok(ApkChoice::Use { path }) && path@ == m@ && answered(
            *is_file,
            m@,
            true,
        )) || (r matches Err(EmuError::ApkNotFound { path }) && path@ == m@ && answered(
            *is_file,
            m@,
            false,
        )),
        manual is None ==> ({
            let apks = built_apks(project_root@, strs(files@), os);
            &&& apks.len() == 0 ==> (r matches Err(EmuError::NoApkFound { root }) && root@
                == project_root@)
            &&& apks.len() == 1 ==> (r matches Ok(ApkChoice::Use { path }) && path@ == apks[0])
            &&& apks.len() >= 2 ==> (r matches Ok(ApkChoice::Choose { paths, labels }) && strs(
                paths@,
            ) == apks && labels.len() == apks.len() && forall|i: int|
                0 <= i < apks.len() ==> #[trigger] labels@[i]@ == apk_label(project_root@, apks[i]))
        }),
{
    if let Some(m) = manual {
        let hit = is_file(m);
        assert(answered(*is_file, m@, hit));
        if hit {
            return Ok(ApkChoice::Use { path: String::from_str(m) });
        }
        return Err(EmuError::ApkNotFound { path: String::from_str(m) });
    }
    let found = built_apk_list(project_root, files, os);
    if found.len() == 0 {
        return Err(EmuError::NoApkFound { root: String::from_str(project_root) });
    }
    if found.len() == 1 {
        return Ok(ApkChoice::Use { path: found[0].clone() });
    }
    let mut paths: Vec<String> = Vec::new();
    let mut labels: Vec<String> = Vec::new();
    for i in 0..found.len()
        invariant
            paths.len() == i,
            labels.len() == i,
            forall|j: int| 0 <= j < i ==> #[trigger] paths@[j]@ == found@[j]@,
            forall|j: int|
                0 <= j < i ==> #[trigger] labels@[j]@ == apk_label(project_root@, found@[j]@),
    {
        paths.push(found[i].clone());
        let label = match path_strip_prefix(found[i].as_str(), project_root) {
            Some(q) => q,
            None => found[i].clone(),
        };
        labels.push(label);
    }
    assert(strs(paths@) =~= strs(found@));
    Ok(ApkChoice::Choose { paths, labels })
}

/// What a Gradle install comes to: done where Gradle exited successfully,
/// else `GradleFailed` with the exit status as it was reported.
pub fn gradle_outcome(success: bool, status: String) -> (r: Result<(), EmuError>)
    ensures
        success ==> r == Ok::<(), EmuError>(()),
        !success ==> r == Err::<(), EmuError>(EmuError::GradleFailed { status }),
{
    if success {
        Ok(())
    } else {
        Err(EmuError::GradleFailed { status })
    }
}

/// The program that runs the Gradle wrapper on `os`.
pub fn gradle_program(os: HostOs) -> (r: &'static str)
    ensures
        r@ == (if os == HostOs::Windows {
            "gradlew.bat"@
        } else {
            "./gradlew"@
        }),
{
    if os == HostOs::Windows {
        "gradlew.bat"
    } else {
        "./gradlew"
    }
}

/// The strings of `parts`, in order.
pub open spec fn lits(parts: Seq<&str>) -> Seq<Seq<char>> {
    parts.map_values(|p: &str| p@)
}

/// Owned copies of `parts`.
pub fn owned_args(parts: &Vec<&str>) -> (r: Vec<String>)
    ensures
        strs(r@) == lits(parts@),
{
    let mut r: Vec<String> = Vec::new();
    for i in 0..parts.len()
        invariant
            r.len() == i,
            forall|j: int| 0 <= j < i ==> #[trigger] r@[j]@ == parts@[j]@,
    {
        r.push(String::from_str(parts[i]));
    }
    assert(strs(r@) =~= lits(parts@));
    r
}

/// The arguments of the Gradle run: `installDebug --console=plain` (plain
/// console output, so that task lines can be read).
pub fn gradle_install_args() -> (r: Vec<String>)
    ensures
        strs(r@) == seq!["installDebug"@, "--console=plain"@],
{
    let parts: Vec<&str> = vec!["installDebug", "--console=plain"];
    let r = owned_args(&parts);
    assert(lits(parts@) =~= seq!["installDebug"@, "--console=plain"@]);
    r
}

/// The task a line of plain Gradle output announces: what follows
/// `> Task ` at the start of the line.
pub open spec fn task_of_line(line: Seq<char>) -> Option<Seq<char>> {
    if is_prefix("> Task "@, line) {
        Some(line.skip("> Task "@.len() as int))
    } else {
        None
    }
}

/// The task a line of plain Gradle output announces, if it announces one.
pub fn gradle_task_name(line: &str) -> (r: Option<String>)
    ensures
        r matches Some(t) ==> task_of_line(line@) == Some(t@),
        r is None ==> task_of_line(line@) is None,
{
    let cs = chars_of(line);
    let key = chars_of("> Task ");
    if has_prefix(&key, &cs) {
        let rest = skip_chars(&cs, key.len());
        assert(rest@.subrange(0, rest.len() as int) == rest@);
        Some(string_of(&rest, 0, rest.len()))
    } else {
        None
    }
}

} // verus!

verus! {

/// `adb -s <serial> shell monkey -p <package> -c android.intent.category.LAUNCHER 1`:
/// starts the app's launcher activity without naming it.
pub fn launch_activity_args(serial: &str, package: &str) -> (r: Vec<String>)
    ensures
        strs(r@) == seq![
            "-s"@,
            serial@,
            "shell"@,
            "monkey"@,
            "-p"@,
            package@,
            "-c"@,
            "android.intent.category.LAUNCHER"@,
            "1"@,
        ],
{
    let parts: Vec<&str> = vec![
        "-s",
        serial,
        "shell",
        "monkey",
        "-p",
        package,
        "-c",
        "android.intent.category.LAUNCHER",
        "1",
    ];
    let r = owned_args(&parts);
    assert(lits(parts@) =~= seq![
        "-s"@,
        serial@,
        "shell"@,
        "monkey"@,
        "-p"@,
        package@,
        "-c"@,
        "android.intent.category.LAUNCHER"@,
        "1"@,
    ]);
    r
}

/// `adb -s <serial> logcat -c`: clears the device's log buffer.
pub fn clear_logcat_args(serial: &str) -> (r: Vec<String>)
    ensures
        strs(r@) == seq!["-s"@, serial@, "logcat"@, "-c"@],
{
    let parts: Vec<&str> = vec!["-s", serial, "logcat", "-c"];
    let r = owned_args(&parts);
    assert(lits(parts@) =~= seq!["-s"@, serial@, "logcat"@, "-c"@]);
    r
}

/// `adb -s <serial> shell pidof <package>`: asks for the app's process id.
pub fn pidof_args(serial: &str, package: &str) -> (r: Vec<String>)
    ensures
        strs(r@) == seq!["-s"@, serial@, "shell"@, "pidof"@, package@],
{
    let parts: Vec<&str> = vec!["-s", serial, "shell", "pidof", package];
    let r = owned_args(&parts);
    assert(lits(parts@) =~= seq!["-s"@, serial@, "shell"@, "pidof"@, package@]);
    r
}

/// `adb -s <serial> logcat -v brief --pid=<pid>`: the app's log, one
/// `P/Tag(pid): message` line per entry.
pub fn logcat_stream_args(serial: &str, pid: &str) -> (r: Vec<String>)
    ensures
        strs(r@) == seq!["-s"@, serial@, "logcat"@, "-v"@, "brief"@, "--pid="@ + pid@],
{
    let mut pid_arg = String::from_str("--pid=");
    pid_arg.append(pid);
    let parts: Vec<&str> = vec!["-s", serial, "logcat", "-v", "brief"];
    let mut r = owned_args(&parts);
    assert(lits(parts@) =~= seq!["-s"@, serial@, "logcat"@, "-v"@, "brief"@]);
    r.push(pid_arg);
    assert(strs(r@) =~= seq!["-s"@, serial@, "logcat"@, "-v"@, "brief"@, "--pid="@ + pid@]);
    r
}

/// How long to look for the app's process, in seconds.
pub const PID_WAIT_SECS: u64 = 10;

/// What to do after one `pidof` attempt.
pub enum PidPoll {
    /// The app runs as `pid`.
    Found { pid: String },
    /// Try again after this many milliseconds.
    Retry { millis: u64 },
    /// Stop looking.
    GiveUp { error: EmuError },
}

/// Decides after one `pidof` attempt: a non-blank answer (trimmed) is the
/// process id; otherwise, once the polling window has passed, give up with
/// `PidNotFound` for the package, else try again after 300 ms.
pub fn pid_poll(stdout: &[u8], deadline_passed: bool, package: &str) -> (r: PidPoll)
    ensures
        trim(spec_utf8_lossy(stdout@)).len() > 0 ==> (r matches PidPoll::Found { pid } && pid@
            == trim(spec_utf8_lossy(stdout@))),
        trim(spec_utf8_lossy(stdout@)).len() == 0 && deadline_passed ==> (r matches PidPoll::GiveUp {
            error: EmuError::PidNotFound { package: p },
        } && p@ == package@),
        trim(spec_utf8_lossy(stdout@)).len() == 0 && !deadline_passed ==> r == (PidPoll::Retry {
            millis: 300,
        }),
{
    match crate::android::pid_from_pidof(stdout) {
        Some(pid) => PidPoll::Found { pid },
        None => {
            if deadline_passed {
                PidPoll::GiveUp { error: EmuError::PidNotFound { package: String::from_str(package) } }
            } else {
                PidPoll::Retry { millis: 300 }
            }
        },
    }
}

} // verus!
