# nono_py

Sandboxed command execution for Python: fork, apply a `nono` sandbox in the
child, exec the command, capture its output and exit code.

- `src/` is the verified library (Verus). It holds the decisions of an
  execution: the pre-fork checks and their order (`plan_exec`: command
  validation, the thread-count check over `/proc/self/status`, program
  resolution along `PATH` (absolute when the working directory is known),
  the argument and environment
  vectors, the working directory), the child's failure reports and how the
  parent turns them into errors, the decoding of wait statuses and the wait
  loop's step function.
- `app/` is the Python extension (pyo3). It performs the system calls (pipes,
  fork, sandbox, chdir, execve, waitpid, kill), reads the environment, the file
  system and the clock, runs the loops and hands each result to the library.
  The order of the system calls after the fork, and the floating-point
  deadline, live there.
- `tests/` runs the library on concrete values.
