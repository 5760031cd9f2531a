use vstd::prelude::*;
use crate::command::{
    any_has_nul, check_working_directory, empty_command_message, prepare_exec,
    unresolved_directory, validate_command,
};
use crate::env::{build_env_cstrings, child_environment, has_nul_byte, pair_views};
use crate::error::{ErrorKind, ExecError};
use crate::resolve::{program_resolution, resolve_program};
use crate::text::{decimal, opt_string_view, string_views};
use crate::threads::{check_thread_count, thread_check_error};

verus! {

/// What `sandboxed_exec` learns from the system before it forks.
pub struct ExecInputs {
    /// The command and its arguments.
    pub command: Vec<String>,
    /// The thread count read from `/proc/self/status`, or the reason it could
    /// not be read; `None` where the count is not checked (outside Linux).
    pub thread_count: Option<Result<usize, String>>,
    /// The value of `PATH`, if set.
    pub path_var: Option<String>,
    /// The absolute working directory of the caller, if known.
    pub working_dir: Option<String>,
    /// The probe results for the places of `program_lookup(command[0], ..)`.
    pub found: Vec<bool>,
    /// The caller's environment.
    pub current_env: Vec<(String, String)>,
    /// The variables to add or override, if any.
    pub env: Option<Vec<(String, String)>>,
    /// The requested working directory of the child, with its canonical path
    /// bytes or the text of the error that canonicalizing it gave.
    pub cwd: Option<(String, Result<Vec<u8>, String>)>,
}

/// Everything the child needs to run the command: the program, the argument
/// vector and the environment (each NUL-free), and the canonical working directory.
#[derive(Debug)]
pub struct ExecSetup {
    pub program: String,
    pub argv: Vec<String>,
    pub envp: Vec<String>,
    pub cwd: Option<Vec<u8>>,
}

/// The view of a thread count result.
pub open spec fn count_view(c: Result<usize, String>) -> Result<usize, Seq<char>> {
    match c {
        Ok(n) => Ok(n),
        Err(m) => Err(m@),
    }
}

/// The error that the pre-fork checks of `sandboxed_exec` raise, in the
/// order they are made: an empty command, the thread count, the program's
/// resolution, a NUL byte in the program path, in an argument, the working
/// directory's canonicalization, a NUL byte in the working directory.
pub open spec fn setup_error(i: ExecInputs) -> Option<(ErrorKind, Seq<char>)> {
    if i.command@.len() == 0 {
        Some((ErrorKind::Value, empty_command_message()))
    } else if i.thread_count matches Some(c) && thread_check_error(count_view(c)) is Some {
        Some((ErrorKind::Runtime, thread_check_error(count_view(i.thread_count->0))->0))
    } else {
        let res = program_resolution(
            i.command@[0]@,
            opt_string_view(i.path_var),
            opt_string_view(i.working_dir),
            i.found@,
        );
        if res is Err {
            Some((ErrorKind::Runtime, res->Err_0))
        } else if has_nul_byte(res->Ok_0) {
            Some((ErrorKind::Runtime, "Program path contains null byte"@))
        } else if any_has_nul(string_views(i.command@)) {
            Some((ErrorKind::Runtime, "Argument contains null byte"@))
        } else {
            match i.cwd {
                Some((d, Err(m))) => Some((
                    ErrorKind::Runtime,
                    "Cannot resolve working directory '"@ + d@ + "': "@ + m@,
                )),
                Some((_, Ok(b))) => if b@.contains(0u8) {
                    Some((ErrorKind::Runtime, "Working directory contains null byte"@))
                } else {
                    None
                },
                None => None,
            }
        }
    }
}

/// An empty command is refused as a `ValueError` before anything else is looked at.
pub proof fn lemma_empty_command_refused(i: ExecInputs)
    requires
        i.command@.len() == 0,
    ensures
        setup_error(i) == Some((ErrorKind::Value, "command must not be empty"@)),
{
}

/// A process that runs more than 32 threads is never forked: for a command
/// that names a program, a readable thread count above 32 is refused with a
/// `RuntimeError` that names the count, whatever the other inputs are.
pub proof fn lemma_too_many_threads_refused(i: ExecInputs, n: usize)
    requires
        i.command@.len() > 0,
        i.thread_count == Some(Ok::<usize, String>(n)),
        n > 32,
    ensures
        setup_error(i) == Some((
            ErrorKind::Runtime,
            "Too many threads ("@ + decimal(n as nat)
                + ") for safe fork. Reduce thread count before calling sandboxed_exec."@,
        )),
{
}

/// A thread count that cannot be read is refused for a command that names a
/// program, with the reason in the message.
pub proof fn lemma_unreadable_thread_count_refused(i: ExecInputs, m: String)
    requires
        i.command@.len() > 0,
        i.thread_count == Some(Err::<usize, String>(m)),
    ensures
        setup_error(i) == Some((ErrorKind::Runtime, "Failed to check thread count: "@ + m@)),
{
}

/// A thread count of at most 32 changes nothing: the outcome is the one of
/// the same inputs with no thread check at all.
pub proof fn lemma_thread_count_within_limit(i: ExecInputs, j: ExecInputs, n: usize)
    requires
        i.thread_count == Some(Ok::<usize, String>(n)),
        n <= 32,
        j.thread_count is None,
        j.command == i.command,
        j.path_var == i.path_var,
        j.working_dir == i.working_dir,
        j.found == i.found,
        j.current_env == i.current_env,
        j.env == i.env,
        j.cwd == i.cwd,
    ensures
        setup_error(i) == setup_error(j),
{
}

/// Makes the pre-fork decisions of `sandboxed_exec`: the first failing check
/// (see [`setup_error`]) becomes the error; otherwise the child's program is
/// the resolved one, its arguments are the command, its environment is the
/// current one with `env` added or overriding, and its working directory the
/// canonical one.
pub fn plan_exec(inputs: ExecInputs) -> (r: Result<ExecSetup, ExecError>)
    ensures
        match setup_error(inputs) {
            Some((kind, message)) => r matches Err(e) && e.is(kind, message),
            None => r matches Ok(s) && {
                &&& program_resolution(
                    inputs.command@[0]@,
                    opt_string_view(inputs.path_var),
                    opt_string_view(inputs.working_dir),
                    inputs.found@,
                ) == Ok::<Seq<char>, Seq<char>>(s.program@)
                &&& string_views(s.argv@) == string_views(inputs.command@)
                &&& string_views(s.envp@) == child_environment(
                    pair_views(inputs.current_env@),
                    match inputs.env { Some(o) => Some(pair_views(o@)), None => None },
                )
                &&& s.cwd == match inputs.cwd { Some((_, Ok(b))) => Some(b), _ => None }
            },
        },
{
    let ghost given = inputs;
    let ExecInputs { command, thread_count, path_var, working_dir, found, current_env, env, cwd } = inputs;
    match validate_command(&command) {
        Err(e) => return Err(e),
        Ok(()) => {},
    }
    match thread_count {
        Some(count) => match check_thread_count(count) {
            Err(e) => return Err(e),
            Ok(()) => {},
        },
        None => {},
    }
    let path_ref: Option<&str> = match &path_var {
        Some(p) => Some(p.as_str()),
        None => None,
    };
    let wd_ref: Option<&str> = match &working_dir {
        Some(w) => Some(w.as_str()),
        None => None,
    };
    let program = match resolve_program(command[0].as_str(), path_ref, wd_ref, found.as_slice()) {
        Err(e) => return Err(e),
        Ok(p) => p,
    };
    let plan = match prepare_exec(program, &command) {
        Err(e) => return Err(e),
        Ok(plan) => plan,
    };
    let envp = build_env_cstrings(&current_env, env.as_ref());
    let canonical = match cwd {
        Some((d, Err(m))) => return Err(unresolved_directory(d.as_str(), m.as_str())),
        Some((_, Ok(bytes))) => {
            match check_working_directory(bytes.as_slice()) {
                Err(e) => return Err(e),
                Ok(()) => {},
            }
            Some(bytes)
        },
        None => None,
    };
    Ok(ExecSetup { program: plan.program, argv: plan.argv, envp, cwd: canonical })
}

} // verus!
