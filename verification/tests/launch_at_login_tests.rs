//! The Run-key command for launch at login: how it is written, and when a
//! stored one counts as the same program.

use ceyrad::launch_at_login::{command_for, needs_rewrite, stored_value, unquote};

#[test]
fn a_command_is_quoted_so_a_path_with_spaces_survives() {
    let command = command_for(r"C:\Program Files\Ceyrad\ceyrad.exe");
    assert_eq!(command, "\"C:\\Program Files\\Ceyrad\\ceyrad.exe\"");
}

#[test]
fn an_unchanged_path_is_not_rewritten() {
    let wanted = command_for(r"C:\apps\ceyrad.exe");
    assert!(!needs_rewrite(&wanted, &wanted));
}

#[test]
fn a_moved_exe_is_rewritten() {
    let stored = command_for(r"C:\old\ceyrad.exe");
    let wanted = command_for(r"C:\new\ceyrad.exe");
    assert!(needs_rewrite(&stored, &wanted));
}

#[test]
fn case_alone_is_not_drift() {
    assert!(!needs_rewrite(
        "\"C:\\Apps\\Ceyrad.exe\"",
        "\"c:\\apps\\ceyrad.exe\""
    ));
}

#[test]
fn quoting_alone_is_not_drift() {
    assert!(!needs_rewrite(
        r"C:\apps\ceyrad.exe",
        "\"C:\\apps\\ceyrad.exe\""
    ));
}

#[test]
fn surrounding_whitespace_is_not_drift() {
    assert!(!needs_rewrite("  \"C:\\a\\b.exe\"  ", "\"C:\\a\\b.exe\""));
}

#[test]
fn drift_is_symmetric_on_a_moved_exe() {
    let a = command_for(r"C:\old\ceyrad.exe");
    let b = command_for(r"C:\new\ceyrad.exe");
    assert_eq!(needs_rewrite(&a, &b), needs_rewrite(&b, &a));
}

#[test]
fn unquoting_a_written_command_gives_the_path_back() {
    let path = r"C:\Program Files\Ceyrad\ceyrad.exe";
    assert_eq!(unquote(&command_for(path)), path);
}

#[test]
fn unquoting_trims_before_it_strips_quotes() {
    assert_eq!(unquote("  \"C:\\x.exe\"  "), "C:\\x.exe");
    assert_eq!(unquote("C:\\x.exe"), "C:\\x.exe");
    assert_eq!(unquote("\"half"), "\"half");
}

#[test]
fn a_stored_value_loses_its_trailing_nuls() {
    assert_eq!(stored_value("C:\\x.exe\0\0").as_deref(), Some("C:\\x.exe"));
    assert_eq!(stored_value("C:\\x.exe").as_deref(), Some("C:\\x.exe"));
}

#[test]
fn a_stored_value_of_only_nuls_is_nothing() {
    assert_eq!(stored_value("\0\0"), None);
    assert_eq!(stored_value(""), None);
}
