use vstd::prelude::*;
use crate::env::{contains_nul, has_nul_byte};
use crate::error::{ErrorKind, ExecError};
use crate::text::string_views;

verus! {

/// The message of the error for an empty command list.
pub open spec fn empty_command_message() -> Seq<char> {
    "command must not be empty"@
}

/// Checks that the command list names a program: an empty list is a `ValueError`.
pub fn validate_command(command: &Vec<String>) -> (r: Result<(), ExecError>)
    ensures
        command@.len() == 0 ==> (r matches Err(e) && e.is(ErrorKind::Value, empty_command_message())),
        command@.len() > 0 ==> r is Ok,
{
    if command.len() == 0 {
        Err(ExecError::new(ErrorKind::Value, "command must not be empty".to_owned()))
    } else {
        Ok(())
    }
}

/// What the child hands to `execve` besides its environment: the resolved
/// program and the argument vector, each a NUL-free text.
#[derive(Debug)]
pub struct ExecPlan {
    pub program: String,
    pub argv: Vec<String>,
}

/// Whether some text of the list holds a NUL byte.
pub open spec fn any_has_nul(v: Seq<Seq<char>>) -> bool {
    exists|i: int| 0 <= i < v.len() && has_nul_byte(#[trigger] v[i])
}

fn first_nul_argument(command: &Vec<String>) -> (r: bool)
    ensures
        r == any_has_nul(string_views(command@)),
{
    let n = command.len();
    for i in 0..n
        invariant
            n == command@.len(),
            forall|j: int| 0 <= j < i ==> !has_nul_byte(#[trigger] string_views(command@)[j]),
    {
        if contains_nul(command[i].as_str()) {
            assert(has_nul_byte(string_views(command@)[i as int]));
            return true;
        }
    }
    false
}

/// Prepares what the child executes, in the order the checks are made: the
/// resolved program must be NUL-free, then every argument. The argument vector
/// is the command list itself, the program name included.
pub fn prepare_exec(program: String, command: &Vec<String>) -> (r: Result<ExecPlan, ExecError>)
    ensures
        has_nul_byte(program@) ==> (r matches Err(e)
            && e.is(ErrorKind::Runtime, "Program path contains null byte"@)),
        !has_nul_byte(program@) && any_has_nul(string_views(command@)) ==> (r matches Err(e)
            && e.is(ErrorKind::Runtime, "Argument contains null byte"@)),
        !has_nul_byte(program@) && !any_has_nul(string_views(command@)) ==> (r matches Ok(plan)
            && plan.program@ == program@
            && string_views(plan.argv@) == string_views(command@)),
{
    if contains_nul(program.as_str()) {
        return Err(ExecError::new(ErrorKind::Runtime, "Program path contains null byte".to_owned()));
    }
    if first_nul_argument(command) {
        return Err(ExecError::new(ErrorKind::Runtime, "Argument contains null byte".to_owned()));
    }
    let argv = command.clone();
    assert(string_views(argv@) =~= string_views(command@));
    Ok(ExecPlan { program, argv })
}

/// Checks the canonical working directory, as raw path bytes: it must not hold a NUL byte.
pub fn check_working_directory(path: &[u8]) -> (r: Result<(), ExecError>)
    ensures
        path@.contains(0u8) ==> (r matches Err(e)
            && e.is(ErrorKind::Runtime, "Working directory contains null byte"@)),
        !path@.contains(0u8) ==> r is Ok,
{
    let n = path.len();
    for i in 0..n
        invariant
            n == path@.len(),
            forall|j: int| 0 <= j < i ==> path@[j] != 0u8,
    {
        if path[i] == 0u8 {
            assert(path@[i as int] == 0u8);
            return Err(ExecError::new(ErrorKind::Runtime, "Working directory contains null byte".to_owned()));
        }
    }
    Ok(())
}

/// The error for a working directory that cannot be canonicalized.
pub fn unresolved_directory(dir: &str, detail: &str) -> (e: ExecError)
    ensures
        e.is(ErrorKind::Runtime, "Cannot resolve working directory '"@ + dir@ + "': "@ + detail@),
{
    let mut message = "Cannot resolve working directory '".to_owned();
    message.append(dir);
    message.append("': ");
    message.append(detail);
    ExecError::new(ErrorKind::Runtime, message)
}

/// The error for a failed `pipe()`.
pub fn pipe_failed(detail: &str) -> (e: ExecError)
    ensures
        e.is(ErrorKind::Runtime, "pipe() failed: "@ + detail@),
{
    ExecError::runtime_with_detail("pipe() failed: ", detail)
}

/// The error for a failed `fork()`.
pub fn fork_failed(detail: &str) -> (e: ExecError)
    ensures
        e.is(ErrorKind::Runtime, "fork() failed: "@ + detail@),
{
    ExecError::runtime_with_detail("fork() failed: ", detail)
}

/// Which side of a `fork()` the caller is on.
#[derive(Debug, Clone, Copy, PartialEq, Eq, Structural)]
pub enum ForkRole {
    /// `fork()` failed: no child exists.
    Failed,
    /// This is the child.
    Child,
    /// This is the parent of the child with this process id.
    Parent(i32),
}

/// The role that a `fork()` result gives: a negative result is a failure, zero
/// is the child, a positive result is the child's id seen from the parent.
pub fn fork_role(pid: i32) -> (role: ForkRole)
    ensures
        pid < 0 ==> role == ForkRole::Failed,
        pid == 0 ==> role == ForkRole::Child,
        pid > 0 ==> role == ForkRole::Parent(pid),
{
    if pid < 0 {
        ForkRole::Failed
    } else if pid == 0 {
        ForkRole::Child
    } else {
        ForkRole::Parent(pid)
    }
}

/// The exit code of a child that could not set itself up (directory or sandbox).
pub const SETUP_FAILED_EXIT_CODE: i32 = 126;

/// The exit code of a child whose `execve` failed.
pub const EXEC_FAILED_EXIT_CODE: i32 = 127;

/// The step at which the child gave up before running the command.
#[derive(Debug)]
pub enum ChildFailure {
    /// `chdir` to the working directory failed.
    ChangeDirectory,
    /// Applying the sandbox failed; the text of the sandbox error.
    ApplySandbox(String),
    /// `execve` returned; the text of the operating system's error.
    Exec(String),
}

/// What a failing child writes to its standard error, and the code it exits with.
#[derive(Debug)]
pub struct ChildExit {
    pub message: String,
    pub code: i32,
}

/// The report of a failing child: a `nono:` line on standard error and exit
/// code 126 for a setup failure, 127 for a failed `execve`.
pub fn child_failure_report(failure: ChildFailure) -> (r: ChildExit)
    ensures
        match failure {
            ChildFailure::ChangeDirectory => r.message@ == "nono: failed to chdir\n"@
                && r.code == SETUP_FAILED_EXIT_CODE && r.code == 126,
            ChildFailure::ApplySandbox(detail) => r.message@ == "nono: sandbox apply failed: "@ + detail@ + "\n"@
                && r.code == SETUP_FAILED_EXIT_CODE && r.code == 126,
            ChildFailure::Exec(detail) => r.message@ == "nono: exec failed: "@ + detail@ + "\n"@
                && r.code == EXEC_FAILED_EXIT_CODE && r.code == 127,
        },
{
    match failure {
        ChildFailure::ChangeDirectory => ChildExit {
            message: "nono: failed to chdir\n".to_owned(),
            code: SETUP_FAILED_EXIT_CODE,
        },
        ChildFailure::ApplySandbox(detail) => {
            let mut message = "nono: sandbox apply failed: ".to_owned();
            message.append(detail.as_str());
            message.append("\n");
            ChildExit { message, code: SETUP_FAILED_EXIT_CODE }
        },
        ChildFailure::Exec(detail) => {
            let mut message = "nono: exec failed: ".to_owned();
            message.append(detail.as_str());
            message.append("\n");
            ChildExit { message, code: EXEC_FAILED_EXIT_CODE }
        },
    }
}

} // verus!
