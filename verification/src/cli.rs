//! The subcommands of `emu` and what each one runs.
use vstd::prelude::*;
use crate::session::RunOptions;

verus! {

/// The wait for a booted device unless told otherwise, in seconds.
pub const DEFAULT_BOOT_TIMEOUT_SECS: u64 = 180;

/// A parsed `emu` command line.
pub enum Commands {
    /// `emu launch`: pick an AVD and start it detached.
    Launch,
    /// `emu run`: build, install, start the app and stream its log.
    Run { no_install: bool, no_start: bool, clear: bool, boot_timeout: u64, apk: Option<String> },
}

/// The work a command line asks for.
pub enum Task {
    /// Pick and start an AVD.
    Launch,
    /// Run a session with these options.
    Run { options: RunOptions },
}

/// The work a command line asks for: `launch` launches, `run` runs a
/// session with its flags as options; without a subcommand `emu` launches.
pub fn dispatch(command: Option<Commands>) -> (r: Task)
    ensures
        command matches Some(Commands::Launch) ==> r == Task::Launch,
        command matches Some(Commands::Run { no_install, no_start, clear, boot_timeout, apk }) ==> r
            == (Task::Run {
            options: RunOptions { no_install, no_start, clear, boot_timeout, apk },
        }),
        command is None ==> r == Task::Launch,
{
    match command {
        Some(Commands::Launch) => Task::Launch,
        Some(Commands::Run { no_install, no_start, clear, boot_timeout, apk }) => Task::Run {
            options: RunOptions { no_install, no_start, clear, boot_timeout, apk },
        },
        None => Task::Launch,
    }
}

} // verus!
