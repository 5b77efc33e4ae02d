//! Verified core of `emu`, a command-line companion for Android development:
//! locating SDK tools, reading what `emulator`, `adb` and `aapt2` print,
//! deciding the steps of a build-install-and-log session, and colouring
//! logcat lines.
pub mod android;
pub mod cli;
pub mod error;
pub mod host;
pub mod launch;
pub mod run;
pub mod search;
pub mod session;
pub mod text;
pub mod ui;
