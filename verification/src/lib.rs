//! Verified decision logic for running a command in a sandboxed child process.
//!
//! The library decides what a fork/sandbox/exec round does: it validates the
//! command, resolves the program along `PATH`, builds the child's argument and
//! environment vectors, reads the kernel's thread count, decodes wait statuses
//! and drives the wait loop. The process plumbing itself (pipes, fork, exec,
//! threads, clocks) stays with the caller.

pub mod command;
pub mod env;
pub mod error;
pub mod plan;
pub mod report;
pub mod resolve;
pub mod result;
pub mod text;
pub mod threads;
pub mod wait;

pub use command::{
    check_working_directory, child_failure_report, fork_failed, fork_role, pipe_failed,
    prepare_exec, unresolved_directory, validate_command, ChildExit, ChildFailure, ExecPlan,
    ForkRole,
};
pub use env::build_env_cstrings;
pub use error::{ErrorKind, ExecError};
pub use plan::{plan_exec, ExecInputs, ExecSetup};
pub use report::{encode_failure, finish_exec, report_outcome};
pub use resolve::{program_lookup, resolve_program, ProgramLookup};
pub use result::ExecResult;
pub use threads::{check_thread_count, status_unreadable, thread_count_from_status};
pub use wait::{decode_wait_status, wait_flags, wait_step, WaitAction, WaitEvent};
