# emu

A command-line companion for Android development: pick and launch an AVD,
or build and install an app with Gradle, start it and stream its log,
without Android Studio.

The logic lives in `src/`, written in Verus and proved against its
contracts:

- `android` — where the SDK tools are looked for and in what order, and
  what `emulator -list-avds`, `adb devices`, `getprop sys.boot_completed`,
  `pidof` and `aapt2 dump badging` print; the wait for a booted device as a
  state machine.
- `run` — finding the Gradle project and the APK, and the command lines
  `emu run` starts.
- `session` — the steps of `emu run` (find the project, wait for a device,
  install, choose the APK, read its application id, start it, clear and
  stream the log) as a state machine, with its laws.
- `launch` — the detached `emulator` command for `emu launch`.
- `cli` — the subcommands and what each one runs.
- `ui` — the status lines and the colouring of logcat lines.
- `text` — splitting, trimming and prefix tests with exact specifications.
- `error` — the errors and their messages.
- `search` — searches that stop at the first path a file test accepts;
  the file test is handed in, and the contracts state what it answered.
- `host` — the calls into `std`, `console` and `dirs` that the logic makes,
  each with the contract the library relies on.

`app/` is the program around it: argument parsing, processes, the file
system (including the file tests the searches ask), prompts, the spinner and Ctrl-C handling. It performs what the
state machines in `src/` ask for and reports back what happened.
