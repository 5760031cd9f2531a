use vstd::prelude::*;
use crate::text::{decimal, push_decimal, signed_decimal};
use crate::threads::{lemma_parse_decimal_roundtrip, parse_usize};

verus! {

/// Result of a sandboxed command execution.
///
/// `stdout` and `stderr` are the raw bytes the child wrote; `exit_code` is the
/// process exit code (0 = success, -N = killed by signal N).
#[derive(Debug)]
pub struct ExecResult {
    pub stdout: Vec<u8>,
    pub stderr: Vec<u8>,
    pub exit_code: i32,
}

/// Appends the decimal representation of `n`, with a `-` when negative.
pub fn push_signed_decimal(s: &mut String, n: i32)
    ensures
        final(s)@ == old(s)@ + signed_decimal(n as int),
{
    if n < 0 {
        s.push('-');
        let magnitude: u64 = (0i64 - (n as i64)) as u64;
        push_decimal(s, magnitude);
        assert(final(s)@ =~= old(s)@ + signed_decimal(n as int));
    } else {
        push_decimal(s, n as u64);
    }
}

/// The shown exit code reads back as the exit code: a non-negative code is
/// its decimal digits, a negative one is `-` followed by the digits of its
/// magnitude.
pub proof fn lemma_exit_code_shown_exactly(n: i32)
    ensures
        n >= 0 ==> parse_usize(signed_decimal(n as int)) == Some(n as usize),
        n < 0 ==> signed_decimal(n as int)[0] == '-'
            && parse_usize(signed_decimal(n as int).drop_first()) == Some((-(n as int)) as usize),
{
    if n >= 0 {
        lemma_parse_decimal_roundtrip(n as usize);
    } else {
        let m = (-(n as int)) as usize;
        lemma_parse_decimal_roundtrip(m);
        assert(signed_decimal(n as int).drop_first() =~= decimal(m as nat));
    }
}

impl ExecResult {
    /// The text of the result as Python shows it:
    /// `ExecResult(exit_code=E, stdout_len=N, stderr_len=M)`.
    pub fn __repr__(&self) -> (s: String)
        ensures
            s@ == "ExecResult(exit_code="@ + signed_decimal(self.exit_code as int)
                + ", stdout_len="@ + decimal(self.stdout@.len()) + ", stderr_len="@
                + decimal(self.stderr@.len()) + ")"@,
    {
        let mut s = "ExecResult(exit_code=".to_owned();
        push_signed_decimal(&mut s, self.exit_code);
        s.append(", stdout_len=");
        push_decimal(&mut s, self.stdout.len() as u64);
        s.append(", stderr_len=");
        push_decimal(&mut s, self.stderr.len() as u64);
        s.append(")");
        s
    }
}

} // verus!
