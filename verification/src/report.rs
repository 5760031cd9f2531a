use vstd::prelude::*;
use vstd::utf8::{decode_utf8, encode_utf8, encode_utf8_decode_utf8, encode_utf8_valid_utf8, valid_utf8};
use crate::command::ChildFailure;
use crate::error::{ErrorKind, ExecError};
use crate::result::ExecResult;

verus! {

/// The report that a child sends its parent, over a close-on-exec pipe, when it
/// gives up because the sandbox cannot be applied or the command cannot be
/// executed: one tag byte (2 sandbox, 3 exec) followed by the UTF-8 text of
/// the error. A child whose `execve` succeeds sends nothing, and so does a
/// child that cannot change to the working directory: that failure is not
/// raised, the caller sees its exit code and its line on stderr.
pub open spec fn failure_report(f: ChildFailure) -> Seq<u8> {
    match f {
        ChildFailure::ChangeDirectory => Seq::<u8>::empty(),
        ChildFailure::ApplySandbox(d) => seq![2u8] + encode_utf8(d@),
        ChildFailure::Exec(d) => seq![3u8] + encode_utf8(d@),
    }
}

/// The message of the `RuntimeError` raised for a child that gave up, if
/// its failure is raised at all.
pub open spec fn failure_error(f: ChildFailure) -> Option<Seq<char>> {
    match f {
        ChildFailure::ChangeDirectory => None,
        ChildFailure::ApplySandbox(d) => Some("sandbox apply failed: "@ + d@),
        ChildFailure::Exec(d) => Some("exec failed: "@ + d@),
    }
}

/// The message for a report that does not follow the format.
pub open spec fn garbled_report_message() -> Seq<char> {
    "child process failed before exec"@
}

/// The error that a received report stands for: none for an empty report.
pub open spec fn report_error(report: Seq<u8>) -> Option<Seq<char>> {
    if report.len() == 0 {
        None
    } else {
        let rest = report.skip(1);
        if report[0] == 2u8 && valid_utf8(rest) {
            Some("sandbox apply failed: "@ + decode_utf8(rest))
        } else if report[0] == 3u8 && valid_utf8(rest) {
            Some("exec failed: "@ + decode_utf8(rest))
        } else {
            Some(garbled_report_message())
        }
    }
}

/// Trusted: `String::from_utf8` gives the string that the bytes encode when
/// they are valid UTF-8, and an error otherwise, as std documents it.
#[verifier::external_body]
fn utf8_string(bytes: Vec<u8>) -> (r: Option<String>)
    ensures
        r is Some <==> valid_utf8(bytes@),
        r matches Some(s) ==> s@ == decode_utf8(bytes@),
{
    match String::from_utf8(bytes) {
        Ok(s) => Some(s),
        Err(_) => None,
    }
}

fn push_bytes(out: &mut Vec<u8>, bytes: &[u8])
    ensures
        final(out)@ == old(out)@ + bytes@,
{
    let ghost base = out@;
    let n = bytes.len();
    for i in 0..n
        invariant
            n == bytes@.len(),
            out@ == base + bytes@.take(i as int),
    {
        out.push(bytes[i]);
        assert(bytes@.take(i + 1) =~= bytes@.take(i as int).push(bytes@[i as int]));
    }
    assert(bytes@.take(n as int) =~= bytes@);
}

/// The report a child sends for `failure`.
pub fn encode_failure(failure: &ChildFailure) -> (r: Vec<u8>)
    ensures
        r@ == failure_report(*failure),
{
    let mut r: Vec<u8> = Vec::new();
    match failure {
        ChildFailure::ChangeDirectory => {},
        ChildFailure::ApplySandbox(d) => {
            r.push(2u8);
            push_bytes(&mut r, d.as_str().as_bytes());
        },
        ChildFailure::Exec(d) => {
            r.push(3u8);
            push_bytes(&mut r, d.as_str().as_bytes());
        },
    }
    assert(r@ =~= failure_report(*failure));
    r
}

/// Turns what the parent read from the report pipe into the outcome of the
/// child's setup: nothing read means the command runs; a report means the
/// child gave up, a `RuntimeError`.
pub fn report_outcome(report: &[u8]) -> (r: Result<(), ExecError>)
    ensures
        match report_error(report@) {
            None => r is Ok,
            Some(m) => r matches Err(e) && e.is(ErrorKind::Runtime, m),
        },
{
    let n = report.len();
    if n == 0 {
        return Ok(());
    }
    let tag = report[0];
    let mut rest: Vec<u8> = Vec::new();
    let mut i: usize = 1;
    while i < n
        invariant
            n == report@.len(),
            1 <= i <= n,
            rest@ == report@.subrange(1, i as int),
        decreases n - i,
    {
        rest.push(report[i]);
        assert(report@.subrange(1, i + 1) =~= report@.subrange(1, i as int).push(report@[i as int]));
        i = i + 1;
    }
    assert(rest@ =~= report@.skip(1));
    if tag == 2u8 || tag == 3u8 {
        match utf8_string(rest) {
            Some(detail) => {
                let prefix = if tag == 2u8 { "sandbox apply failed: " } else { "exec failed: " };
                return Err(ExecError::runtime_with_detail(prefix, detail.as_str()));
            },
            None => {},
        }
    }
    Err(ExecError::new(ErrorKind::Runtime, "child process failed before exec".to_owned()))
}

/// A report read back gives the error of the failure it was made for, and
/// nothing for a failure that is not raised.
pub proof fn lemma_report_roundtrip(failure: ChildFailure)
    ensures
        report_error(failure_report(failure)) == failure_error(failure),
{
    match failure {
        ChildFailure::ChangeDirectory => {},
        ChildFailure::ApplySandbox(d) => {
            assert((seq![2u8] + encode_utf8(d@)).skip(1) =~= encode_utf8(d@));
            encode_utf8_valid_utf8(d@);
            encode_utf8_decode_utf8(d@);
        },
        ChildFailure::Exec(d) => {
            assert((seq![3u8] + encode_utf8(d@)).skip(1) =~= encode_utf8(d@));
            encode_utf8_valid_utf8(d@);
            encode_utf8_decode_utf8(d@);
        },
    }
}

/// The outcome of `sandboxed_exec` once the child has been reaped with
/// `exit_code`: a setup failure reported by the child is a `RuntimeError`
/// (the command never ran); otherwise the captured output and the exit code.
pub fn finish_exec(
    report: &[u8],
    exit_code: i32,
    stdout: Vec<u8>,
    stderr: Vec<u8>,
) -> (r: Result<ExecResult, ExecError>)
    ensures
        match report_error(report@) {
            Some(m) => r matches Err(e) && e.is(ErrorKind::Runtime, m),
            None => r matches Ok(res)
                && res.exit_code == exit_code && res.stdout@ == stdout@ && res.stderr@ == stderr@,
        },
{
    match report_outcome(report) {
        Err(e) => Err(e),
        Ok(()) => Ok(ExecResult { stdout, stderr, exit_code }),
    }
}

} // verus!
