use neko::procman::{exit_code_message, ProcessManager};

#[test]
fn background_ids_are_monotonic() {
    let mut pm = ProcessManager::new(200);
    let id1 = pm.register("sleep 2 && echo done", 100, 1800, "");
    let id2 = pm.register("sleep 9", 101, 1800, "");
    assert_eq!(id1, "bg_1");
    assert_eq!(id2, "bg_2");
}

#[test]
fn polled_slices_concatenate_to_the_full_output() {
    let mut pm = ProcessManager::new(200);
    let id = pm.register("sleep 2 && echo done", 100, 1800, "");
    let i = pm.find(&id).unwrap();

    pm.sessions[i].append_line("partial", false);
    let (first, status) = pm.sessions[i].poll_output();
    assert_eq!(first, "partial\n");
    assert!(status.is_none());

    pm.sessions[i].append_line("done", false);
    pm.sessions[i].set_exit(0);
    let (second, status2) = pm.sessions[i].poll_output();
    assert_eq!(second, "done\n");
    assert_eq!(status2, Some(0));

    // In order, the slices are exactly the buffered output; nothing remains.
    assert_eq!(format!("{first}{second}"), "partial\ndone\n");
    let (third, _) = pm.sessions[i].poll_output();
    assert_eq!(third, "");
}

#[test]
fn stderr_lines_carry_the_prefix() {
    let mut pm = ProcessManager::new(200);
    let id = pm.register("x", 100, 1800, "");
    let i = pm.find(&id).unwrap();
    pm.sessions[i].append_line("oops", true);
    let (out, _) = pm.sessions[i].poll_output();
    assert_eq!(out, "[stderr] oops\n");
}

#[test]
fn stdin_closes_cleanly() {
    let mut pm = ProcessManager::new(200);
    let id = pm.register("cat", 100, 1800, "");
    let i = pm.find(&id).unwrap();
    let w = pm.sessions[i].write_stdin("hello", false).unwrap();
    assert_eq!(w, "hello\n");
    let w2 = pm.sessions[i].write_stdin("bye\n", true).unwrap();
    assert_eq!(w2, "bye\n");
    let err = pm.sessions[i].write_stdin("late", false).unwrap_err();
    assert_eq!(err, "stdin is closed");
}

#[test]
fn cleanup_removes_only_old_exited_sessions() {
    let mut pm = ProcessManager::new(200);
    let old_exited = pm.register("a", 0, 1800, "");
    let young_exited = pm.register("b", 900, 1800, "");
    let running = pm.register("c", 0, 1800, "");
    let i = pm.find(&old_exited).unwrap();
    pm.sessions[i].set_exit(0);
    let j = pm.find(&young_exited).unwrap();
    pm.sessions[j].set_exit(1);

    pm.cleanup_stale(1000);
    assert!(pm.find(&old_exited).is_none());
    assert!(pm.find(&young_exited).is_some());
    assert!(pm.find(&running).is_some());

    let infos = pm.list_sessions(1000);
    assert_eq!(infos.len(), 2);
}

#[test]
fn removal_after_poll_observing_exit() {
    let mut pm = ProcessManager::new(200);
    let id = pm.register("x", 100, 1800, "");
    let i = pm.find(&id).unwrap();
    pm.sessions[i].set_exit(0);
    let (_, status) = pm.sessions[i].poll_output();
    assert_eq!(status, Some(0));
    assert!(pm.remove_session(&id));
    assert!(pm.find(&id).is_none());
    assert!(!pm.remove_session(&id));
}

#[test]
fn empty_output_message_names_the_exit_code() {
    assert_eq!(exit_code_message(0), "Command exited with code 0");
    assert_eq!(exit_code_message(-1), "Command exited with code -1");
}

#[test]
fn output_beyond_the_cap_is_dropped() {
    let mut pm = ProcessManager::new(200);
    let big = "y".repeat(neko::procman::MAX_OUTPUT_CHARS);
    let id = pm.register("x", 100, 1800, &big);
    let i = pm.find(&id).unwrap();
    pm.sessions[i].append_line("extra", false);
    let (out, _) = pm.sessions[i].poll_output();
    assert_eq!(out.chars().count(), neko::procman::MAX_OUTPUT_CHARS);
}
