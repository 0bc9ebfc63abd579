use script_runner::outcome::{
    contains_text, exit_code, wait_error_result, WaitResult, ALREADY_REAPED_CODE, FAILURE_CODE,
    INTERRUPT_EXIT_CODE,
};
use script_runner::shell::{shell_for, Platform};

#[test]
fn shell_for_windows_is_cmd() {
    let s = shell_for(Platform::Windows);
    assert_eq!(s.executable, "cmd");
    assert_eq!(s.invoke_flag, "/C");
}

#[test]
fn shell_for_posix_is_bash() {
    let s = shell_for(Platform::Posix);
    assert_eq!(s.executable, "bash");
    assert_eq!(s.invoke_flag, "-c");
}

#[test]
fn shells_are_distinct_and_non_empty() {
    for p in [Platform::Windows, Platform::Posix] {
        let s = shell_for(p);
        assert!(!s.executable.is_empty());
        assert!(!s.invoke_flag.is_empty());
    }
    assert_ne!(shell_for(Platform::Windows).executable, shell_for(Platform::Posix).executable);
}

#[test]
fn exit_seven_gives_seven() {
    assert_eq!(exit_code(WaitResult::Exited { code: Some(7) }), 7);
}

#[test]
fn every_byte_exit_code_is_kept() {
    for n in 0..=255 {
        assert_eq!(exit_code(WaitResult::Exited { code: Some(n) }), n);
    }
}

#[test]
fn exit_without_code_gives_one() {
    assert_eq!(exit_code(WaitResult::Exited { code: None }), 1);
}

#[test]
fn already_reaped_gives_zero() {
    assert_eq!(exit_code(WaitResult::NoChild), 0);
}

#[test]
fn failed_wait_gives_one() {
    assert_eq!(exit_code(WaitResult::Failed), 1);
}

#[test]
fn policy_constants() {
    assert_eq!(FAILURE_CODE, 1);
    assert_eq!(ALREADY_REAPED_CODE, 0);
    assert_eq!(INTERRUPT_EXIT_CODE, 69);
}

#[test]
fn no_child_message_is_already_reaped() {
    assert_eq!(
        wait_error_result("No child processes (os error 10)"),
        WaitResult::NoChild
    );
    assert_eq!(wait_error_result("No child processes"), WaitResult::NoChild);
}

#[test]
fn other_wait_errors_are_failures() {
    assert_eq!(wait_error_result("Permission denied (os error 13)"), WaitResult::Failed);
    assert_eq!(wait_error_result(""), WaitResult::Failed);
    assert_eq!(wait_error_result("No child process"), WaitResult::Failed);
    assert_eq!(wait_error_result("no child processes"), WaitResult::Failed);
}

#[test]
fn contains_text_cases() {
    assert!(contains_text("abc", ""));
    assert!(contains_text("", ""));
    assert!(!contains_text("", "a"));
    assert!(!contains_text("ab", "abc"));
    assert!(contains_text("xxabc", "abc"));
    assert!(contains_text("abcxx", "abc"));
    assert!(!contains_text("abxabyabz", "abc"));
    assert!(contains_text("ééa→b", "a→"));
}
