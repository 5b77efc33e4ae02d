//! `emu launch`: the command that starts a chosen AVD.
use vstd::prelude::*;
use crate::error::EmuError;
use crate::host::{path_parent, spec_path_parent};
use crate::text::strs;

verus! {

/// How to start the emulator: the program, its arguments, and the
/// directory to start it in.
pub struct LaunchCommand {
    pub program: String,
    pub args: Vec<String>,
    pub working_dir: String,
}

/// The emulator arguments for an AVD: `-avd <name>`, and
/// `-no-snapshot-load` for a cold boot (the snapshot is still saved).
pub open spec fn launch_args(avd_name: Seq<char>, cold_boot: bool) -> Seq<Seq<char>> {
    if cold_boot {
        seq!["-avd"@, avd_name, "-no-snapshot-load"@]
    } else {
        seq!["-avd"@, avd_name]
    }
}

/// The command that starts the AVD `avd_name` with the emulator binary at
/// `emulator`, run from the binary's own directory so that it finds its
/// sibling binaries; `EmulatorHasNoParent` where that path has no parent.
pub fn run(emulator: &str, avd_name: &str, cold_boot: bool) -> (r: Result<LaunchCommand, EmuError>)
    ensures
        spec_path_parent(emulator@) is None ==> r == Err::<LaunchCommand, EmuError>(
            EmuError::EmulatorHasNoParent,
        ),
        spec_path_parent(emulator@) matches Some(dir) ==> (r matches Ok(c) && c.program@
            == emulator@ && c.working_dir@ == dir && strs(c.args@) == launch_args(
            avd_name@,
            cold_boot,
        )),
{
    let dir = match path_parent(emulator) {
        Some(d) => d,
        None => {
            return Err(EmuError::EmulatorHasNoParent);
        },
    };
    let mut args: Vec<String> = Vec::new();
    args.push(String::from_str("-avd"));
    args.push(String::from_str(avd_name));
    if cold_boot {
        args.push(String::from_str("-no-snapshot-load"));
    }
    assert(strs(args@) =~= launch_args(avd_name@, cold_boot));
    Ok(LaunchCommand { program: String::from_str(emulator), args, working_dir: dir })
}

} // verus!
