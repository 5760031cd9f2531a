use vstd::prelude::*;
use crate::error::{ErrorKind, ExecError};

verus! {

/// Trusted: `libc::WIFEXITED` returns whether the low seven bits of the status
/// are clear (a normal exit), as the crate's Linux and BSD definitions compute.
pub assume_specification[ libc::WIFEXITED ](status: libc::c_int) -> (r: bool)
    ensures
        r == status_exited(status),
;

/// Trusted: `libc::WEXITSTATUS` returns bits 8..16 of the status, the exit
/// code, as `(status >> 8) & 0xff`.
pub assume_specification[ libc::WEXITSTATUS ](status: libc::c_int) -> (r: libc::c_int)
    ensures
        r == status_exit_code(status),
;

/// Trusted: `libc::WIFSIGNALED` returns whether the low seven bits hold a
/// signal number, 1 to 0x7e. The crate's Linux definition computes this as
/// `((status & 0x7f) + 1) as i8 >= 2`, its Apple definition as "neither 0 nor
/// 0x7f"; both give exactly this range.
pub assume_specification[ libc::WIFSIGNALED ](status: libc::c_int) -> (r: bool)
    ensures
        r == status_signaled(status),
;

/// Trusted: `libc::WTERMSIG` returns the low seven bits of the status, the
/// number of the signal that killed the child.
pub assume_specification[ libc::WTERMSIG ](status: libc::c_int) -> (r: libc::c_int)
    ensures
        r == status_term_signal(status),
;

/// Whether a wait status reports a normal exit.
pub open spec fn status_exited(status: i32) -> bool {
    (status & 0x7f) == 0
}

/// The exit code carried by a wait status.
pub open spec fn status_exit_code(status: i32) -> i32 {
    (status >> 8) & 0xff
}

/// Whether a wait status reports death by a signal.
pub open spec fn status_signaled(status: i32) -> bool {
    1 <= status & 0x7f <= 0x7e
}

/// The signal number carried by a wait status.
pub open spec fn status_term_signal(status: i32) -> i32 {
    status & 0x7f
}

/// The code under which a wait status is reported: the exit code for a normal
/// exit, the negated signal number for a death by signal, and nothing otherwise.
pub open spec fn reported_exit_code(status: i32) -> Option<int> {
    if status_exited(status) {
        Some(status_exit_code(status) as int)
    } else if status_signaled(status) {
        Some(-(status_term_signal(status) as int))
    } else {
        None
    }
}

/// The message of the error for a wait status that is neither an exit nor a signal.
pub open spec fn unexpected_status_message() -> Seq<char> {
    "Child process exited with unexpected status"@
}

/// Turns the status of a reaped child into its exit code: the code itself for a
/// normal exit, `-N` for a child killed by signal `N`, and an error otherwise.
pub fn decode_wait_status(status: i32) -> (r: Result<i32, ExecError>)
    ensures
        match r {
            Ok(code) => reported_exit_code(status) == Some(code as int),
            Err(e) => reported_exit_code(status) is None
                && e.is(ErrorKind::Runtime, unexpected_status_message()),
        },
{
    if libc::WIFEXITED(status) {
        return Ok(libc::WEXITSTATUS(status));
    }
    if libc::WIFSIGNALED(status) {
        let sig = libc::WTERMSIG(status);
        assert(status & 0x7f <= 0x7f && status & 0x7f >= 0) by (bit_vector);
        return Ok(-sig);
    }
    Err(ExecError::new(ErrorKind::Runtime, "Child process exited with unexpected status".to_owned()))
}

/// A child that calls `exit(code)` is reported with exactly `code`; in
/// particular a successful child is reported with 0.
pub proof fn lemma_exit_code_reported(code: i32)
    requires
        0 <= code < 256,
    ensures
        reported_exit_code(code << 8) == Some(code as int),
{
    assert((code << 8) & 0x7f == 0) by (bit_vector)
        requires 0 <= code < 256;
    assert(((code << 8) >> 8) & 0xff == code) by (bit_vector)
        requires 0 <= code < 256;
}

/// A child killed by signal `sig` (with or without a core dump) is reported
/// as `-sig`.
pub proof fn lemma_signal_reported(sig: i32, core_dumped: bool)
    requires
        1 <= sig < 0x7f,
    ensures
        reported_exit_code(if core_dumped { sig | 0x80 } else { sig }) == Some(-(sig as int)),
{
    let status = if core_dumped { sig | 0x80 } else { sig };
    assert((sig | 0x80) & 0x7f == sig) by (bit_vector)
        requires 1 <= sig < 0x7f;
    assert(sig & 0x7f == sig) by (bit_vector)
        requires 1 <= sig < 0x7f;
    assert(status & 0x7f == sig);
}

/// Every reported code lies in -126..=255, and it is non-negative exactly when
/// the child exited normally: codes of signals and of exits never collide.
pub proof fn lemma_reported_code_range(status: i32)
    ensures
        reported_exit_code(status) matches Some(code) ==> {
            &&& -126 <= code <= 255
            &&& (code >= 0 <==> status_exited(status))
        },
{
    assert(0 <= (status >> 8) & 0xff <= 0xff) by (bit_vector);
    assert(0 <= status & 0x7f <= 0x7f) by (bit_vector);
}

/// The code reported for a child that was killed because its time ran out.
pub const TIMEOUT_EXIT_CODE: i32 = 124;

/// What one call of `waitpid` on the child came back with.
#[derive(Debug)]
pub enum WaitEvent {
    /// `waitpid` failed; `interrupted` tells whether the error was `EINTR`,
    /// `detail` is the text of the operating system's error.
    Failed { interrupted: bool, detail: String },
    /// The child has not changed state yet (`waitpid` returned 0);
    /// `past_deadline` tells whether a deadline exists and has been reached.
    StillRunning { past_deadline: bool },
    /// The child was reaped with this wait status.
    Reaped { status: i32 },
}

/// What the wait loop does next.
#[derive(Debug)]
pub enum WaitAction {
    /// Call `waitpid` again at once.
    Retry,
    /// Sleep briefly (10 ms), then call `waitpid` again.
    SleepThenRetry,
    /// Kill the child with `SIGKILL`, reap it, and report `exit_code`.
    KillAndReport { exit_code: i32 },
    /// Stop waiting with this outcome.
    Finish(Result<i32, ExecError>),
}

/// Trusted: reads the constant `libc::WNOHANG`, the `waitpid` option that
/// returns at once while the child runs; the crate defines it as 1.
#[verifier::external_body]
fn wnohang() -> (r: i32)
    ensures
        r == 1,
{
    libc::WNOHANG
}

/// The options for `waitpid`: polling (`WNOHANG`) when a deadline is set,
/// blocking (0) otherwise.
pub fn wait_flags(has_deadline: bool) -> (flags: i32)
    ensures
        flags == (if has_deadline { 1i32 } else { 0i32 }),
{
    if has_deadline {
        wnohang()
    } else {
        0
    }
}

/// The message of the error for a failed `waitpid`.
pub open spec fn wait_failed_message(detail: Seq<char>) -> Seq<char> {
    "waitpid() failed: "@ + detail
}

/// One decision of the wait loop: given what `waitpid` returned, say what to do.
///
/// An interrupted wait is retried; another failure ends the wait with an error;
/// a running child past its deadline is killed and reported with
/// [`TIMEOUT_EXIT_CODE`]; a running child before its deadline is polled again
/// after a short sleep; a reaped child ends the wait with its decoded status.
pub fn wait_step(event: WaitEvent) -> (action: WaitAction)
    ensures
        match event {
            WaitEvent::Failed { interrupted, detail } => if interrupted {
                action is Retry
            } else {
                action matches WaitAction::Finish(Err(e))
                    && e.is(ErrorKind::Runtime, wait_failed_message(detail@))
            },
            WaitEvent::StillRunning { past_deadline } => if past_deadline {
                action == (WaitAction::KillAndReport { exit_code: TIMEOUT_EXIT_CODE }) && TIMEOUT_EXIT_CODE == 124
            } else {
                action is SleepThenRetry
            },
            WaitEvent::Reaped { status } => match action {
                WaitAction::Finish(Ok(code)) => reported_exit_code(status) == Some(code as int),
                WaitAction::Finish(Err(e)) => reported_exit_code(status) is None
                    && e.is(ErrorKind::Runtime, unexpected_status_message()),
                _ => false,
            },
        },
{
    match event {
        WaitEvent::Failed { interrupted, detail } => {
            if interrupted {
                WaitAction::Retry
            } else {
                WaitAction::Finish(Err(ExecError::runtime_with_detail("waitpid() failed: ", detail.as_str())))
            }
        },
        WaitEvent::StillRunning { past_deadline } => {
            if past_deadline {
                WaitAction::KillAndReport { exit_code: TIMEOUT_EXIT_CODE }
            } else {
                WaitAction::SleepThenRetry
            }
        },
        WaitEvent::Reaped { status } => WaitAction::Finish(decode_wait_status(status)),
    }
}

} // verus!
