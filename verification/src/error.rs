//! The errors that the library reports.
use vstd::prelude::*;

verus! {

/// Why a step of `emu` failed.
#[derive(Debug, PartialEq, Eq)]
pub enum EmuError {
    /// No `emulator` binary in the SDK, on `PATH` or in the usual SDK places.
    EmulatorNotFound,
    /// No `adb` binary in the SDK, on `PATH` or in the usual SDK places.
    AdbNotFound,
    /// No `aapt2` binary in the SDK build tools or on `PATH`.
    Aapt2NotFound,
    /// `emulator -list-avds` exited with a failure status.
    ListAvdsFailed,
    /// `emulator -list-avds` listed no AVD.
    NoAvds,
    /// No device came online before the timeout (seconds).
    DeviceTimeout { secs: u64 },
    /// The device did not finish booting before the timeout (seconds).
    BootTimeout { secs: u64 },
    /// `aapt2 dump badging` exited with a failure status.
    BadgingFailed,
    /// The `aapt2` output held no `package: ... name='...'` field.
    PackageNameNotFound,
    /// No directory from `cwd` upwards holds the Gradle wrapper.
    GradlewNotFound { cwd: String },
    /// The APK given on the command line is not a file.
    ApkNotFound { path: String },
    /// No APK under the project root.
    NoApkFound { root: String },
    /// The emulator binary's path has no parent directory.
    EmulatorHasNoParent,
    /// The app's process did not show up within the polling window.
    PidNotFound { package: String },
    /// The Gradle build failed; the exit status as the host printed it.
    GradleFailed { status: String },
    /// The host failed to perform a requested action; its own description.
    Host { detail: String },
}

} // verus!

verus! {

impl EmuError {
    /// A copy of this error.
    pub fn duplicate(&self) -> (r: EmuError)
        ensures
            r == *self,
    {
        match self {
            EmuError::EmulatorNotFound => EmuError::EmulatorNotFound,
            EmuError::AdbNotFound => EmuError::AdbNotFound,
            EmuError::Aapt2NotFound => EmuError::Aapt2NotFound,
            EmuError::ListAvdsFailed => EmuError::ListAvdsFailed,
            EmuError::NoAvds => EmuError::NoAvds,
            EmuError::DeviceTimeout { secs } => EmuError::DeviceTimeout { secs: *secs },
            EmuError::BootTimeout { secs } => EmuError::BootTimeout { secs: *secs },
            EmuError::BadgingFailed => EmuError::BadgingFailed,
            EmuError::PackageNameNotFound => EmuError::PackageNameNotFound,
            EmuError::GradlewNotFound { cwd } => EmuError::GradlewNotFound { cwd: cwd.clone() },
            EmuError::ApkNotFound { path } => EmuError::ApkNotFound { path: path.clone() },
            EmuError::NoApkFound { root } => EmuError::NoApkFound { root: root.clone() },
            EmuError::EmulatorHasNoParent => EmuError::EmulatorHasNoParent,
            EmuError::PidNotFound { package } => EmuError::PidNotFound { package: package.clone() },
            EmuError::GradleFailed { status } => EmuError::GradleFailed { status: status.clone() },
            EmuError::Host { detail } => EmuError::Host { detail: detail.clone() },
        }
    }
}

} // verus!

verus! {

/// The character of a decimal digit.
pub open spec fn digit_char(d: nat) -> char {
    if d == 0 {
        '0'
    } else if d == 1 {
        '1'
    } else if d == 2 {
        '2'
    } else if d == 3 {
        '3'
    } else if d == 4 {
        '4'
    } else if d == 5 {
        '5'
    } else if d == 6 {
        '6'
    } else if d == 7 {
        '7'
    } else if d == 8 {
        '8'
    } else {
        '9'
    }
}

/// The decimal digits of `n`, most significant first, without leading zeros.
pub open spec fn decimal(n: nat) -> Seq<char>
    decreases n,
{
    if n < 10 {
        seq![digit_char(n)]
    } else {
        decimal(n / 10).push(digit_char(n % 10))
    }
}

fn digit(d: u64) -> (c: char)
    requires
        d < 10,
    ensures
        c == digit_char(d as nat),
{
    if d == 0 {
        '0'
    } else if d == 1 {
        '1'
    } else if d == 2 {
        '2'
    } else if d == 3 {
        '3'
    } else if d == 4 {
        '4'
    } else if d == 5 {
        '5'
    } else if d == 6 {
        '6'
    } else if d == 7 {
        '7'
    } else if d == 8 {
        '8'
    } else {
        '9'
    }
}

/// Appends the decimal digits of `n` to `s`.
pub fn push_decimal(s: &mut String, n: u64)
    ensures
        final(s)@ == old(s)@ + decimal(n as nat),
    decreases n,
{
    if n >= 10 {
        push_decimal(s, n / 10);
    }
    crate::host::string_push(s, digit(n % 10));
    assert(old(s)@ + decimal(n as nat) =~= (if n >= 10 {
        old(s)@ + decimal((n / 10) as nat)
    } else {
        old(s)@
    }).push(digit_char((n % 10) as nat)));
}

/// The message a user reads for an error.
pub open spec fn message_of(e: EmuError) -> Seq<char> {
    match e {
        EmuError::EmulatorNotFound => "Failed to locate Android emulator binary.\nSet $ANDROID_HOME or $ANDROID_SDK_ROOT, or add the emulator to $PATH."@,
        EmuError::AdbNotFound => "Failed to locate adb binary.\nSet $ANDROID_HOME or $ANDROID_SDK_ROOT, or add adb to $PATH."@,
        EmuError::Aapt2NotFound => "Failed to locate aapt2 binary.\nEnsure Android SDK build-tools are installed."@,
        EmuError::ListAvdsFailed => "`emulator -list-avds` exited with non-zero status"@,
        EmuError::NoAvds => "No AVDs found. Create one with: avdmanager create avd -n <name> -k <package>"@,
        EmuError::DeviceTimeout { secs } => "Timed out waiting for device after "@ + decimal(
            secs as nat,
        ) + "s"@,
        EmuError::BootTimeout { secs } => "Timed out waiting for `sys.boot_completed` after "@
            + decimal(secs as nat) + "s"@,
        EmuError::BadgingFailed => "`aapt2 dump badging` exited with non-zero status"@,
        EmuError::PackageNameNotFound => "Could not parse package name from aapt2 output"@,
        EmuError::GradlewNotFound { cwd } => "Could not find `gradlew` in any parent directory of "@
            + cwd@,
        EmuError::ApkNotFound { path } => "Specified APK not found: "@ + path@,
        EmuError::NoApkFound { root } => "No APK found under "@ + root@
            + ". Run `gradlew installDebug` first."@,
        EmuError::EmulatorHasNoParent => "emulator binary has no parent directory"@,
        EmuError::PidNotFound { package } => "Could not find PID for `"@ + package@
            + "` within 10s. Is the app running?"@,
        EmuError::GradleFailed { status } => "Gradle build failed with status: "@ + status@,
        EmuError::Host { detail } => detail@,
    }
}

impl EmuError {
    /// The message a user reads for this error.
    pub fn message(&self) -> (r: String)
        ensures
            r@ == message_of(*self),
    {
        match self {
            EmuError::EmulatorNotFound => String::from_str(
                "Failed to locate Android emulator binary.\nSet $ANDROID_HOME or $ANDROID_SDK_ROOT, or add the emulator to $PATH.",
            ),
            EmuError::AdbNotFound => String::from_str(
                "Failed to locate adb binary.\nSet $ANDROID_HOME or $ANDROID_SDK_ROOT, or add adb to $PATH.",
            ),
            EmuError::Aapt2NotFound => String::from_str(
                "Failed to locate aapt2 binary.\nEnsure Android SDK build-tools are installed.",
            ),
            EmuError::ListAvdsFailed => String::from_str(
                "`emulator -list-avds` exited with non-zero status",
            ),
            EmuError::NoAvds => String::from_str(
                "No AVDs found. Create one with: avdmanager create avd -n <name> -k <package>",
            ),
            EmuError::DeviceTimeout { secs } => {
                let mut s = String::from_str("Timed out waiting for device after ");
                push_decimal(&mut s, *secs);
                s.append("s");
                s
            },
            EmuError::BootTimeout { secs } => {
                let mut s = String::from_str("Timed out waiting for `sys.boot_completed` after ");
                push_decimal(&mut s, *secs);
                s.append("s");
                s
            },
            EmuError::BadgingFailed => String::from_str(
                "`aapt2 dump badging` exited with non-zero status",
            ),
            EmuError::PackageNameNotFound => String::from_str(
                "Could not parse package name from aapt2 output",
            ),
            EmuError::GradlewNotFound { cwd } => {
                let mut s = String::from_str("Could not find `gradlew` in any parent directory of ");
                s.append(cwd.as_str());
                s
            },
            EmuError::ApkNotFound { path } => {
                let mut s = String::from_str("Specified APK not found: ");
                s.append(path.as_str());
                s
            },
            EmuError::NoApkFound { root } => {
                let mut s = String::from_str("No APK found under ");
                s.append(root.as_str());
                s.append(". Run `gradlew installDebug` first.");
                s
            },
            EmuError::EmulatorHasNoParent => String::from_str(
                "emulator binary has no parent directory",
            ),
            EmuError::PidNotFound { package } => {
                let mut s = String::from_str("Could not find PID for `");
                s.append(package.as_str());
                s.append("` within 10s. Is the app running?");
                s
            },
            EmuError::GradleFailed { status } => {
                let mut s = String::from_str("Gradle build failed with status: ");
                s.append(status.as_str());
                s
            },
            EmuError::Host { detail } => detail.clone(),
        }
    }
}

} // verus!
