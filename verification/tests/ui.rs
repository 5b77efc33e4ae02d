use emu::ui::{
    build_failed_line, colorize_logcat, error_line, info_line, logcat_priority_style, success_line,
};

#[test]
fn colorize_logcat_verbose() {
    let result = colorize_logcat("V/Tag(123): message", console::colors_enabled());
    assert!(result.contains('V'));
    assert!(result.contains("/Tag(123): message"));
}

#[test]
fn colorize_logcat_debug() {
    let result = colorize_logcat("D/Tag(123): message", console::colors_enabled());
    assert!(result.contains('D'));
    assert!(result.contains("/Tag(123): message"));
}

#[test]
fn colorize_logcat_info() {
    let result = colorize_logcat("I/Tag(123): message", console::colors_enabled());
    assert!(result.contains('I'));
    assert!(result.contains("/Tag(123): message"));
}

#[test]
fn colorize_logcat_warn() {
    let result = colorize_logcat("W/Tag(123): message", console::colors_enabled());
    assert!(result.contains('W'));
    assert!(result.contains("/Tag(123): message"));
}

#[test]
fn colorize_logcat_error() {
    let result = colorize_logcat("E/Tag(123): message", console::colors_enabled());
    assert!(result.contains('E'));
    assert!(result.contains("/Tag(123): message"));
}

#[test]
fn colorize_logcat_fatal() {
    let result = colorize_logcat("F/Tag(123): message", console::colors_enabled());
    assert!(result.contains('F'));
    assert!(result.contains("/Tag(123): message"));
}

#[test]
fn colorize_logcat_empty() {
    assert_eq!(colorize_logcat("", console::colors_enabled()), "");
}

#[test]
fn colorize_logcat_non_priority() {
    let result = colorize_logcat("some random line", console::colors_enabled());
    assert_eq!(result, "some random line");
}

#[test]
fn colorize_logcat_exact_codes_when_colours_are_on() {
    assert_eq!(colorize_logcat("V/T(1): m", true), "\u{1b}[2mV\u{1b}[0m/T(1): m");
    assert_eq!(colorize_logcat("D/T(1): m", true), "\u{1b}[34mD\u{1b}[0m/T(1): m");
    assert_eq!(colorize_logcat("I/T(1): m", true), "\u{1b}[32mI\u{1b}[0m/T(1): m");
    assert_eq!(colorize_logcat("W/T(1): m", true), "\u{1b}[33mW\u{1b}[0m/T(1): m");
    assert_eq!(colorize_logcat("E/T(1): m", true), "\u{1b}[31m\u{1b}[1mE\u{1b}[0m/T(1): m");
    assert_eq!(colorize_logcat("F/T(1): m", true), "\u{1b}[31m\u{1b}[47m\u{1b}[1mF\u{1b}[0m/T(1): m");
    assert_eq!(colorize_logcat("x", true), "x");
    assert_eq!(colorize_logcat("F", true), "\u{1b}[31m\u{1b}[47m\u{1b}[1mF\u{1b}[0m");
}

#[test]
fn colorize_logcat_plain_when_colours_are_off() {
    assert_eq!(colorize_logcat("E/T(1): m", false), "E/T(1): m");
    assert_eq!(colorize_logcat("", false), "");
}

#[test]
fn priority_styles() {
    assert_eq!(logcat_priority_style('V'), Some("dim"));
    assert_eq!(logcat_priority_style('E'), Some("red.bold"));
    assert_eq!(logcat_priority_style('F'), Some("red.bold.on_white"));
    assert_eq!(logcat_priority_style('v'), None);
}

#[test]
fn status_lines_carry_their_text() {
    assert_eq!(info_line("device", "emulator-5554", false), "› device: emulator-5554");
    assert_eq!(
        info_line("device", "emulator-5554", true),
        "\x1b[2m›\x1b[0m device: \x1b[36memulator-5554\x1b[0m"
    );
    assert_eq!(success_line("BUILD SUCCESSFUL", false), "✓ BUILD SUCCESSFUL");
    assert_eq!(success_line("BUILD SUCCESSFUL", true), "\x1b[32m\x1b[1m✓\x1b[0m BUILD SUCCESSFUL");
    assert_eq!(error_line("no AVDs", false), "✗ no AVDs");
    assert_eq!(error_line("no AVDs", true), "\x1b[31m✗\x1b[0m no AVDs");
    assert_eq!(build_failed_line("BUILD FAILED", false), "BUILD FAILED");
    assert_eq!(build_failed_line("BUILD FAILED", true), "\x1b[31m\x1b[1mBUILD FAILED\x1b[0m");
}
