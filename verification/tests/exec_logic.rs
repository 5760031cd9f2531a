use nono_py::command::{EXEC_FAILED_EXIT_CODE, SETUP_FAILED_EXIT_CODE};
use nono_py::{encode_failure, finish_exec, plan_exec, report_outcome, status_unreadable, ExecInputs};
use nono_py::wait::TIMEOUT_EXIT_CODE;
use nono_py::{
    build_env_cstrings, check_thread_count, check_working_directory, child_failure_report,
    decode_wait_status, fork_failed, fork_role, pipe_failed, prepare_exec, program_lookup,
    resolve_program, thread_count_from_status, unresolved_directory, validate_command,
    wait_flags, wait_step, ChildFailure, ErrorKind, ExecResult, ForkRole, ProgramLookup,
    WaitAction, WaitEvent,
};

fn s(x: &str) -> String {
    x.to_string()
}

fn pairs(v: &[(&str, &str)]) -> Vec<(String, String)> {
    v.iter().map(|(k, v)| (s(k), s(v))).collect()
}

#[test]
fn repr_shows_code_and_lengths() {
    let r = ExecResult { stdout: b"hello".to_vec(), stderr: vec![], exit_code: -9 };
    assert_eq!(r.__repr__(), "ExecResult(exit_code=-9, stdout_len=5, stderr_len=0)");
    let r = ExecResult { stdout: vec![0; 1234], stderr: vec![1; 10], exit_code: 0 };
    assert_eq!(r.__repr__(), "ExecResult(exit_code=0, stdout_len=1234, stderr_len=10)");
}

#[test]
fn repr_extreme_codes() {
    let r = ExecResult { stdout: vec![], stderr: vec![], exit_code: i32::MIN };
    assert_eq!(r.__repr__(), "ExecResult(exit_code=-2147483648, stdout_len=0, stderr_len=0)");
    let r = ExecResult { stdout: vec![], stderr: vec![], exit_code: i32::MAX };
    assert_eq!(r.__repr__(), "ExecResult(exit_code=2147483647, stdout_len=0, stderr_len=0)");
}

#[test]
fn empty_command_is_value_error() {
    let e = validate_command(&vec![]).unwrap_err();
    assert_eq!(e.kind, ErrorKind::Value);
    assert_eq!(e.message, "command must not be empty");
    assert!(validate_command(&vec![s("ls")]).is_ok());
}

#[test]
fn thread_count_from_proc_status() {
    let status = "Name:\tpython3\nUmask:\t0022\nState:\tS (sleeping)\nThreads:\t4\nSigQ:\t0/63450\n";
    assert_eq!(thread_count_from_status(status), Ok(4));
}

#[test]
fn thread_count_trims_and_accepts_plus_and_crlf() {
    assert_eq!(thread_count_from_status("Threads: +17 \r\nX: 1"), Ok(17));
    assert_eq!(thread_count_from_status("Threads:\u{a0}8\u{3000}"), Ok(8));
    assert_eq!(thread_count_from_status("Threads:0"), Ok(0));
}

#[test]
fn thread_count_missing_field() {
    assert_eq!(
        thread_count_from_status("Name:\tx\nthreads:\t3\n  Threads:\t3\n"),
        Err(s("Threads field not found in /proc/self/status"))
    );
    assert_eq!(thread_count_from_status(""), Err(s("Threads field not found in /proc/self/status")));
}

#[test]
fn thread_count_unparsable() {
    let bad = Err(s("Cannot parse thread count"));
    assert_eq!(thread_count_from_status("Threads:\tabc\nThreads:\t3\n"), bad);
    assert_eq!(thread_count_from_status("Threads:\t-3"), bad);
    assert_eq!(thread_count_from_status("Threads:\t+"), bad);
    assert_eq!(thread_count_from_status("Threads:"), bad);
    assert_eq!(thread_count_from_status("Threads:\t99999999999999999999999"), bad);
    assert_eq!(thread_count_from_status("Threads:\t1 2"), bad);
}

#[test]
fn thread_count_reads_back_any_number() {
    for n in [0usize, 1, 9, 10, 32, 33, 1000, 65535, usize::MAX] {
        assert_eq!(thread_count_from_status(&format!("Threads:\t{}\n", n)), Ok(n));
    }
}

#[test]
fn thread_count_limit() {
    assert!(check_thread_count(Ok(1)).is_ok());
    assert!(check_thread_count(Ok(32)).is_ok());
    let e = check_thread_count(Ok(33)).unwrap_err();
    assert_eq!(e.kind, ErrorKind::Runtime);
    assert_eq!(
        e.message,
        "Too many threads (33) for safe fork. Reduce thread count before calling sandboxed_exec."
    );
    let e = check_thread_count(Err(s("Cannot parse thread count"))).unwrap_err();
    assert_eq!(e.kind, ErrorKind::Runtime);
    assert_eq!(e.message, "Failed to check thread count: Cannot parse thread count");
}

#[test]
fn path_like_program_is_used_directly() {
    match program_lookup("./run.sh", Some("/usr/bin"), Some("/home/u")) {
        ProgramLookup::Direct(p) => assert_eq!(p, "./run.sh"),
        ProgramLookup::Search(_) => panic!("expected a direct lookup"),
    }
    assert_eq!(resolve_program("/bin/sh", None, None, &[true]).unwrap(), "/bin/sh");
    let e = resolve_program("./missing", Some("/usr/bin"), None, &[false]).unwrap_err();
    assert_eq!(e.kind, ErrorKind::Runtime);
    assert_eq!(e.message, "Program not found: ./missing");
    let e = resolve_program("./missing", None, None, &[]).unwrap_err();
    assert_eq!(e.message, "Program not found: ./missing");
}

#[test]
fn bare_program_candidates_follow_path() {
    match program_lookup("ls", Some("/usr/local/bin:/usr/bin/::/opt:bin"), Some("/home/u")) {
        ProgramLookup::Search(c) => assert_eq!(
            c,
            vec![s("/usr/local/bin/ls"), s("/usr/bin/ls"), s("/home/u/ls"), s("/opt/ls"), s("/home/u/bin/ls")]
        ),
        ProgramLookup::Direct(_) => panic!("expected a search"),
    }
    match program_lookup("ls", Some(""), Some("/")) {
        ProgramLookup::Search(c) => assert_eq!(c, vec![s("/ls")]),
        ProgramLookup::Direct(_) => panic!("expected a search"),
    }
    match program_lookup("ls", None, Some("/home/u")) {
        ProgramLookup::Search(c) => assert!(c.is_empty()),
        ProgramLookup::Direct(_) => panic!("expected a search"),
    }
}

#[test]
fn relative_path_entries_without_working_directory() {
    match program_lookup("ls", Some(".:/bin:"), None) {
        ProgramLookup::Search(c) => assert_eq!(c, vec![s("./ls"), s("/bin/ls"), s("ls")]),
        ProgramLookup::Direct(_) => panic!("expected a search"),
    }
    match program_lookup("ls", Some(".:/bin"), Some("relative/dir")) {
        ProgramLookup::Search(c) => assert_eq!(c, vec![s("./ls"), s("/bin/ls")]),
        ProgramLookup::Direct(_) => panic!("expected a search"),
    }
    match program_lookup("ls", Some("."), Some("/work/")) {
        ProgramLookup::Search(c) => assert_eq!(c, vec![s("/work/./ls")]),
        ProgramLookup::Direct(_) => panic!("expected a search"),
    }
}

#[test]
fn bare_program_resolves_to_absolute_path() {
    assert_eq!(resolve_program("ls", Some(""), Some("/home/u"), &[true]).unwrap(), "/home/u/ls");
    assert_eq!(resolve_program("ls", Some(""), None, &[true]).unwrap(), "ls");
}

#[test]
fn bare_program_resolves_to_first_found() {
    let path = Some("/a:/b:/c");
    assert_eq!(resolve_program("cat", path, None, &[false, true, true]).unwrap(), "/b/cat");
    assert_eq!(resolve_program("cat", path, None, &[true, true, true]).unwrap(), "/a/cat");
    let e = resolve_program("cat", path, None, &[false, false, false]).unwrap_err();
    assert_eq!(e.kind, ErrorKind::Runtime);
    assert_eq!(e.message, "Program not found in PATH: cat");
    let e = resolve_program("cat", path, None, &[false]).unwrap_err();
    assert_eq!(e.message, "Program not found in PATH: cat");
    let e = resolve_program("cat", None, None, &[]).unwrap_err();
    assert_eq!(e.message, "Program not found in PATH: cat");
}

#[test]
fn environment_overrides_replace_inherited() {
    let current = pairs(&[("A", "1"), ("B", "2"), ("C", "x\0y"), ("E", "5")]);
    let overrides = pairs(&[("B", "3"), ("D", "4"), ("F", "n\0l")]);
    assert_eq!(
        build_env_cstrings(&current, Some(&overrides)),
        vec![s("A=1"), s("E=5"), s("B=3"), s("D=4")]
    );
}

#[test]
fn environment_without_overrides_is_inherited() {
    let current = pairs(&[("A", "1"), ("B", "2"), ("C\0", "3"), ("PATH", "/bin:/usr/bin")]);
    assert_eq!(
        build_env_cstrings(&current, None),
        vec![s("A=1"), s("B=2"), s("PATH=/bin:/usr/bin")]
    );
    assert!(build_env_cstrings(&vec![], None).is_empty());
}

#[test]
fn prepare_exec_checks_nul_bytes_in_order() {
    let command = vec![s("echo"), s("hi")];
    let e = prepare_exec(s("/bin/e\0cho"), &vec![s("echo"), s("a\0b")]).unwrap_err();
    assert_eq!(e.kind, ErrorKind::Runtime);
    assert_eq!(e.message, "Program path contains null byte");
    let e = prepare_exec(s("/bin/echo"), &vec![s("echo"), s("a\0b")]).unwrap_err();
    assert_eq!(e.kind, ErrorKind::Runtime);
    assert_eq!(e.message, "Argument contains null byte");
    let plan = prepare_exec(s("/bin/echo"), &command).unwrap();
    assert_eq!(plan.program, "/bin/echo");
    assert_eq!(plan.argv, command);
}

#[test]
fn working_directory_checks() {
    assert!(check_working_directory(b"/tmp").is_ok());
    let e = check_working_directory(b"/t\0mp").unwrap_err();
    assert_eq!(e.kind, ErrorKind::Runtime);
    assert_eq!(e.message, "Working directory contains null byte");
    let e = unresolved_directory("/nope", "No such file or directory (os error 2)");
    assert_eq!(e.message, "Cannot resolve working directory '/nope': No such file or directory (os error 2)");
}

#[test]
fn pipe_and_fork_errors() {
    let e = pipe_failed("Too many open files (os error 24)");
    assert_eq!(e.kind, ErrorKind::Runtime);
    assert_eq!(e.message, "pipe() failed: Too many open files (os error 24)");
    let e = fork_failed("Resource temporarily unavailable (os error 11)");
    assert_eq!(e.message, "fork() failed: Resource temporarily unavailable (os error 11)");
}

#[test]
fn decode_exit_codes() {
    assert_eq!(decode_wait_status(0).unwrap(), 0);
    assert_eq!(decode_wait_status(3 << 8).unwrap(), 3);
    assert_eq!(decode_wait_status(255 << 8).unwrap(), 255);
    for code in 0..256 {
        assert_eq!(decode_wait_status(code << 8).unwrap(), code);
    }
}

#[test]
fn decode_signals_are_negative() {
    assert_eq!(decode_wait_status(9).unwrap(), -9);
    assert_eq!(decode_wait_status(11 | 0x80).unwrap(), -11);
    for sig in 1..0x7f {
        assert_eq!(decode_wait_status(sig).unwrap(), -sig);
        assert_eq!(decode_wait_status(sig | 0x80).unwrap(), -sig);
    }
}

#[test]
fn decode_unexpected_status() {
    for status in [0x137f, 0xffff, 0x7f] {
        let e = decode_wait_status(status).unwrap_err();
        assert_eq!(e.kind, ErrorKind::Runtime);
        assert_eq!(e.message, "Child process exited with unexpected status");
    }
}

#[test]
fn wait_flags_poll_only_with_deadline() {
    assert_eq!(wait_flags(true), libc::WNOHANG);
    assert_eq!(wait_flags(false), 0);
}

#[test]
fn wait_steps() {
    assert!(matches!(wait_step(WaitEvent::Failed { interrupted: true, detail: s("EINTR") }), WaitAction::Retry));
    match wait_step(WaitEvent::Failed { interrupted: false, detail: s("No child processes (os error 10)") }) {
        WaitAction::Finish(Err(e)) => {
            assert_eq!(e.kind, ErrorKind::Runtime);
            assert_eq!(e.message, "waitpid() failed: No child processes (os error 10)");
        }
        _ => panic!("expected an error"),
    }
    assert!(matches!(
        wait_step(WaitEvent::StillRunning { past_deadline: true }),
        WaitAction::KillAndReport { exit_code: 124 }
    ));
    assert_eq!(TIMEOUT_EXIT_CODE, 124);
    assert!(matches!(wait_step(WaitEvent::StillRunning { past_deadline: false }), WaitAction::SleepThenRetry));
    assert!(matches!(wait_step(WaitEvent::Reaped { status: 0 }), WaitAction::Finish(Ok(0))));
    assert!(matches!(wait_step(WaitEvent::Reaped { status: 2 << 8 }), WaitAction::Finish(Ok(2))));
    assert!(matches!(wait_step(WaitEvent::Reaped { status: 15 }), WaitAction::Finish(Ok(-15))));
    assert!(matches!(wait_step(WaitEvent::Reaped { status: 0x137f }), WaitAction::Finish(Err(_))));
}

#[test]
fn fork_roles() {
    assert_eq!(fork_role(-1), ForkRole::Failed);
    assert_eq!(fork_role(0), ForkRole::Child);
    assert_eq!(fork_role(4242), ForkRole::Parent(4242));
}

#[test]
fn child_failure_reports() {
    let r = child_failure_report(ChildFailure::ChangeDirectory);
    assert_eq!(r.message, "nono: failed to chdir\n");
    assert_eq!(r.code, 126);
    let r = child_failure_report(ChildFailure::ApplySandbox(s("landlock unsupported")));
    assert_eq!(r.message, "nono: sandbox apply failed: landlock unsupported\n");
    assert_eq!(r.code, SETUP_FAILED_EXIT_CODE);
    let r = child_failure_report(ChildFailure::Exec(s("Permission denied (os error 13)")));
    assert_eq!(r.message, "nono: exec failed: Permission denied (os error 13)\n");
    assert_eq!(r.code, EXEC_FAILED_EXIT_CODE);
    assert_eq!(r.code, 127);
}

fn inputs(command: &[&str]) -> ExecInputs {
    ExecInputs {
        command: command.iter().map(|c| s(c)).collect(),
        thread_count: Some(Ok(3)),
        path_var: Some(s("/usr/bin:/bin")),
        working_dir: Some(s("/home/u")),
        found: vec![false, true],
        current_env: pairs(&[("HOME", "/home/u"), ("LANG", "C")]),
        env: Some(pairs(&[("LANG", "en_US.UTF-8")])),
        cwd: Some((s("/tmp"), Ok(b"/private/tmp".to_vec()))),
    }
}

#[test]
fn plan_exec_builds_the_setup() {
    let setup = plan_exec(inputs(&["ls", "-l"])).unwrap();
    assert_eq!(setup.program, "/bin/ls");
    assert_eq!(setup.argv, vec![s("ls"), s("-l")]);
    assert_eq!(setup.envp, vec![s("HOME=/home/u"), s("LANG=en_US.UTF-8")]);
    assert_eq!(setup.cwd, Some(b"/private/tmp".to_vec()));
    let mut i = inputs(&["ls"]);
    i.cwd = None;
    i.thread_count = None;
    assert_eq!(plan_exec(i).unwrap().cwd, None);
}

#[test]
fn plan_exec_checks_in_order() {
    let mut i = inputs(&[]);
    i.thread_count = Some(Ok(100));
    let e = plan_exec(i).unwrap_err();
    assert_eq!(e.kind, ErrorKind::Value);
    assert_eq!(e.message, "command must not be empty");

    let mut i = inputs(&["ls", "a\0b"]);
    i.thread_count = Some(Err(s("Cannot parse thread count")));
    i.found = vec![false, false];
    assert_eq!(plan_exec(i).unwrap_err().message, "Failed to check thread count: Cannot parse thread count");

    let mut i = inputs(&["ls", "a\0b"]);
    i.found = vec![false, false];
    assert_eq!(plan_exec(i).unwrap_err().message, "Program not found in PATH: ls");

    let mut i = inputs(&["ls", "a\0b"]);
    i.cwd = Some((s("/nope"), Err(s("No such file or directory (os error 2)"))));
    assert_eq!(plan_exec(i).unwrap_err().message, "Argument contains null byte");

    let mut i = inputs(&["ls"]);
    i.cwd = Some((s("/nope"), Err(s("No such file or directory (os error 2)"))));
    assert_eq!(
        plan_exec(i).unwrap_err().message,
        "Cannot resolve working directory '/nope': No such file or directory (os error 2)"
    );

    let mut i = inputs(&["ls"]);
    i.cwd = Some((s("/x"), Ok(b"/x\0".to_vec())));
    assert_eq!(plan_exec(i).unwrap_err().message, "Working directory contains null byte");
}

#[test]
fn child_reports_round_trip() {
    let cases = vec![
        (ChildFailure::ApplySandbox(s("Landlock not supported")), "sandbox apply failed: Landlock not supported"),
        (ChildFailure::Exec(s("No such file or directory (os error 2)")), "exec failed: No such file or directory (os error 2)"),
        (ChildFailure::Exec(s("é ✓")), "exec failed: é ✓"),
    ];
    for (failure, message) in cases {
        let report = encode_failure(&failure);
        let e = report_outcome(&report).unwrap_err();
        assert_eq!(e.kind, ErrorKind::Runtime);
        assert_eq!(e.message, message);
    }
    assert_eq!(encode_failure(&ChildFailure::Exec(s("x"))), vec![3u8, b'x']);
    assert!(encode_failure(&ChildFailure::ChangeDirectory).is_empty());
    assert!(report_outcome(&[]).is_ok());
}

#[test]
fn garbled_reports() {
    for report in [vec![9u8], vec![1u8], vec![1u8, 0], vec![2u8, 0xff, 0xfe]] {
        let e = report_outcome(&report).unwrap_err();
        assert_eq!(e.message, "child process failed before exec");
    }
}

#[test]
fn finish_exec_prefers_child_report() {
    let r = finish_exec(&[], 0, b"out".to_vec(), b"err".to_vec()).unwrap();
    assert_eq!((r.exit_code, r.stdout, r.stderr), (0, b"out".to_vec(), b"err".to_vec()));
    let chdir = encode_failure(&ChildFailure::ChangeDirectory);
    let r = finish_exec(&chdir, 126, vec![], b"nono: failed to chdir\n".to_vec()).unwrap();
    assert_eq!(r.exit_code, 126);
    let e = finish_exec(&encode_failure(&ChildFailure::Exec(s("denied"))), 127, vec![], vec![]).unwrap_err();
    assert_eq!(e.kind, ErrorKind::Runtime);
    assert_eq!(e.message, "exec failed: denied");
}

#[test]
fn unreadable_status_text() {
    assert_eq!(status_unreadable("Permission denied (os error 13)"), "Cannot read /proc/self/status: Permission denied (os error 13)");
}
