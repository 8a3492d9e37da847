use side_panel_right::terminal_keys::{cursor_visible, handle_key, key_input, launch_status, poll_step, shell_name, PollStep, TermStatus};

#[test]
fn control_keys_map_to_control_codes() {
    assert_eq!(key_input("c", true, false, false, Some("c")), Some(vec![0x03]));
    assert_eq!(key_input("l", true, false, false, None), Some(vec![0x0c]));
    assert_eq!(key_input("x", true, false, false, Some("x")), None);
    assert_eq!(key_input("enter", true, false, false, None), None);
}

#[test]
fn named_keys_send_escape_sequences() {
    assert_eq!(key_input("enter", false, false, false, None), Some(b"\r".to_vec()));
    assert_eq!(key_input("up", false, true, false, None), Some(b"\x1b[A".to_vec()));
    assert_eq!(key_input("pagedown", false, false, false, None), Some(b"\x1b[6~".to_vec()));
}

#[test]
fn typed_text_unless_alt_or_platform() {
    assert_eq!(key_input("ж", false, false, false, Some("ж")), Some("ж".as_bytes().to_vec()));
    assert_eq!(key_input("a", false, true, false, Some("a")), None);
    assert_eq!(key_input("a", false, false, true, Some("a")), None);
    assert_eq!(key_input("f1", false, false, false, None), None);
}

#[test]
fn shell_name_never_empty() {
    assert!(!shell_name(None).is_empty());
    assert!(!shell_name(Some("/usr/bin/bash".to_string())).is_empty());
}

#[test]
fn shell_name_is_the_last_path_component() {
    assert_eq!(shell_name(Some("/bin/zsh".to_string())), "zsh");
    assert_eq!(shell_name(Some("fish".to_string())), "fish");
    assert_eq!(shell_name(None), "sh");
    assert_eq!(shell_name(Some("/opt/".to_string())), "");
}

#[test]
fn poll_marks_exit_once_and_stops() {
    let step = poll_step(&TermStatus::Running, true, true, false);
    assert_eq!(step, PollStep { refresh: true, exited: true, notify: true, keep_polling: false });
    let step = poll_step(&TermStatus::Exited, true, false, false);
    assert_eq!(step, PollStep { refresh: false, exited: false, notify: true, keep_polling: false });
}

#[test]
fn poll_keeps_going_while_alive() {
    let quiet = poll_step(&TermStatus::Running, true, false, true);
    assert_eq!(quiet, PollStep { refresh: false, exited: false, notify: false, keep_polling: true });
    let busy = poll_step(&TermStatus::Running, true, true, true);
    assert_eq!(busy, PollStep { refresh: true, exited: false, notify: true, keep_polling: true });
}

#[test]
fn poll_without_terminal_stops() {
    let step = poll_step(&TermStatus::Running, false, true, true);
    assert!(!step.keep_polling && !step.refresh && !step.notify);
}

#[test]
fn launch_failure_keeps_the_error() {
    assert_eq!(launch_status(Ok(())), TermStatus::Running);
    assert_eq!(launch_status(Err("no pty".to_string())), TermStatus::Failed("no pty".to_string()));
    assert!(!cursor_visible(&TermStatus::Failed("x".to_string()), true));
    assert!(!cursor_visible(&TermStatus::Exited, true));
    assert!(cursor_visible(&TermStatus::Running, true));
    assert!(!cursor_visible(&TermStatus::Running, false));
}

#[test]
fn keys_are_ignored_unless_running() {
    assert_eq!(handle_key(&TermStatus::Exited, "enter", false, false, false, None), None);
    assert_eq!(handle_key(&TermStatus::Failed("x".to_string()), "a", false, false, false, Some("a")), None);
    assert_eq!(handle_key(&TermStatus::Running, "enter", false, false, false, None), Some(b"\r".to_vec()));
}
