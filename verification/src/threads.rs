use vstd::prelude::*;
use crate::error::{ErrorKind, ExecError};
use crate::text::{chars_of, decimal, digit_char, push_decimal};

verus! {

/// Index of the first `c` in `s`, or `s.len()` when there is none.
pub open spec fn first_index(s: Seq<char>, c: char) -> int
    decreases s.len(),
{
    if s.len() == 0 {
        0
    } else if s[0] == c {
        0
    } else {
        1 + first_index(s.drop_first(), c)
    }
}

/// `first_index` is the position of the first occurrence, or the length.
pub proof fn lemma_first_index(s: Seq<char>, c: char, k: int)
    requires
        0 <= k <= s.len(),
        forall|j: int| 0 <= j < k ==> s[j] != c,
        k == s.len() || s[k] == c,
    ensures
        first_index(s, c) == k,
    decreases s.len(),
{
    if s.len() > 0 && s[0] != c {
        assert forall|j: int| 0 <= j < k - 1 implies s.drop_first()[j] != c by {
            assert(s.drop_first()[j] == s[j + 1]);
        }
        lemma_first_index(s.drop_first(), c, k - 1);
    }
}

/// `first_index` never passes the end of the sequence.
pub proof fn lemma_first_index_bound(s: Seq<char>, c: char)
    ensures
        0 <= first_index(s, c) <= s.len(),
    decreases s.len(),
{
    if s.len() > 0 && s[0] != c {
        lemma_first_index_bound(s.drop_first(), c);
    }
}

/// A line without the carriage return of a `\r\n` ending.
pub open spec fn strip_cr(line: Seq<char>) -> Seq<char> {
    if line.len() > 0 && line.last() == '\r' {
        line.drop_last()
    } else {
        line
    }
}

/// The lines of a text, as `str::lines` yields them: split at `\n`, a `\r`
/// before the `\n` dropped, and no empty line after a final `\n`.
pub open spec fn lines(s: Seq<char>) -> Seq<Seq<char>>
    decreases s.len(),
{
    if s.len() == 0 {
        Seq::<Seq<char>>::empty()
    } else {
        let i = first_index(s, '\n');
        proof {
            lemma_first_index_bound(s, '\n');
        }
        if i < s.len() {
            seq![strip_cr(s.take(i))] + lines(s.skip(i + 1))
        } else {
            seq![s]
        }
    }
}

/// The label of the thread count in `/proc/self/status`.
pub open spec fn threads_label() -> Seq<char> {
    "Threads:"@
}

/// What follows the label on the first line that starts with it.
pub open spec fn labelled_value(lines: Seq<Seq<char>>) -> Option<Seq<char>>
    decreases lines.len(),
{
    if lines.len() == 0 {
        None
    } else if lines[0].len() >= threads_label().len()
        && lines[0].take(threads_label().len() as int) == threads_label() {
        Some(lines[0].skip(threads_label().len() as int))
    } else {
        labelled_value(lines.drop_first())
    }
}

/// Whether a character is white space (Unicode `White_Space`, as `char::is_whitespace`).
pub open spec fn is_white_space(c: char) -> bool {
    ||| c == '\t' || c == '\n' || c == '\u{0B}' || c == '\u{0C}' || c == '\r' || c == ' '
    ||| c == '\u{85}' || c == '\u{A0}' || c == '\u{1680}'
    ||| ('\u{2000}' <= c && c <= '\u{200A}')
    ||| c == '\u{2028}' || c == '\u{2029}' || c == '\u{202F}' || c == '\u{205F}' || c == '\u{3000}'
}

/// `s` without leading white space.
pub open spec fn trim_start(s: Seq<char>) -> Seq<char>
    decreases s.len(),
{
    if s.len() > 0 && is_white_space(s[0]) {
        trim_start(s.drop_first())
    } else {
        s
    }
}

/// `s` without trailing white space.
pub open spec fn trim_end(s: Seq<char>) -> Seq<char>
    decreases s.len(),
{
    if s.len() > 0 && is_white_space(s.last()) {
        trim_end(s.drop_last())
    } else {
        s
    }
}

/// `s` without leading and trailing white space, as `str::trim`.
pub open spec fn trim(s: Seq<char>) -> Seq<char> {
    trim_end(trim_start(s))
}

/// Whether a character is an ASCII decimal digit.
pub open spec fn is_digit(c: char) -> bool {
    '0' <= c && c <= '9'
}

/// The number that a sequence of decimal digits denotes.
pub open spec fn digits_value(d: Seq<char>) -> int
    decreases d.len(),
{
    if d.len() == 0 {
        0
    } else {
        10 * digits_value(d.drop_last()) + (d.last() as int - 48)
    }
}

/// The digits of an unsigned number: the text without one leading `+`.
pub open spec fn unsigned_digits(s: Seq<char>) -> Seq<char> {
    if s.len() > 0 && s[0] == '+' {
        s.drop_first()
    } else {
        s
    }
}

/// Whether every character is a decimal digit.
pub open spec fn all_digits(d: Seq<char>) -> bool {
    forall|i: int| 0 <= i < d.len() ==> is_digit(#[trigger] d[i])
}

/// `usize::from_str`: an optional `+`, then one or more decimal digits whose
/// value fits in a `usize`.
pub open spec fn parse_usize(s: Seq<char>) -> Option<usize> {
    let d = unsigned_digits(s);
    if d.len() > 0 && all_digits(d) && digits_value(d) <= usize::MAX {
        Some(digits_value(d) as usize)
    } else {
        None
    }
}

/// The message when the status text has no thread count line.
pub open spec fn field_missing_message() -> Seq<char> {
    "Threads field not found in /proc/self/status"@
}

/// The message when the thread count line does not hold a number.
pub open spec fn unparsable_message() -> Seq<char> {
    "Cannot parse thread count"@
}

/// The thread count that a `/proc/self/status` text reports.
pub open spec fn status_thread_count(status: Seq<char>) -> Result<usize, Seq<char>> {
    match labelled_value(lines(status)) {
        None => Err(field_missing_message()),
        Some(v) => match parse_usize(trim(v)) {
            Some(n) => Ok(n),
            None => Err(unparsable_message()),
        },
    }
}

fn white_space(c: char) -> (r: bool)
    ensures
        r == is_white_space(c),
{
    c == '\t' || c == '\n' || c == '\u{0B}' || c == '\u{0C}' || c == '\r' || c == ' '
        || c == '\u{85}' || c == '\u{A0}' || c == '\u{1680}'
        || ('\u{2000}' <= c && c <= '\u{200A}')
        || c == '\u{2028}' || c == '\u{2029}' || c == '\u{202F}' || c == '\u{205F}' || c == '\u{3000}'
}

/// `s` without leading and trailing white space.
pub fn trim_chars(s: &[char]) -> (t: Vec<char>)
    ensures
        t@ == trim(s@),
{
    let n = s.len();
    let mut i: usize = 0;
    assert(s@.skip(0) =~= s@);
    while i < n && white_space(s[i])
        invariant
            n == s@.len(),
            i <= n,
            trim_start(s@) == trim_start(s@.skip(i as int)),
        decreases n - i,
    {
        assert(s@.skip(i as int).drop_first() =~= s@.skip(i + 1));
        i = i + 1;
    }
    let ghost front = s@.skip(i as int);
    assert(trim_start(front) == front);
    let mut j: usize = n;
    assert(s@.subrange(i as int, n as int) =~= front);
    while j > i && white_space(s[j - 1])
        invariant
            n == s@.len(),
            i <= j <= n,
            front == s@.skip(i as int),
            trim_end(front) == trim_end(s@.subrange(i as int, j as int)),
        decreases j,
    {
        assert(s@.subrange(i as int, j as int).drop_last() =~= s@.subrange(i as int, j - 1));
        j = j - 1;
    }
    let mut t: Vec<char> = Vec::new();
    let mut k: usize = i;
    while k < j
        invariant
            n == s@.len(),
            i <= k <= j <= n,
            t@ == s@.subrange(i as int, k as int),
        decreases j - k,
    {
        t.push(s[k]);
        assert(s@.subrange(i as int, k + 1) =~= s@.subrange(i as int, k as int).push(s@[k as int]));
        k = k + 1;
    }
    t
}

/// Every prefix of a digit sequence denotes at most what the whole denotes.
pub proof fn lemma_digits_value_prefix(d: Seq<char>, k: int)
    requires
        0 <= k <= d.len(),
        all_digits(d),
    ensures
        0 <= digits_value(d.take(k)) <= digits_value(d),
    decreases d.len(),
{
    if d.len() == k {
        assert(d.take(k) =~= d);
        lemma_digits_value_nonneg(d);
    } else {
        let p = d.drop_last();
        assert(p.take(k) =~= d.take(k));
        lemma_digits_value_prefix(p, k);
    }
}

/// A digit sequence denotes a non-negative number.
pub proof fn lemma_digits_value_nonneg(d: Seq<char>)
    requires
        all_digits(d),
    ensures
        digits_value(d) >= 0,
    decreases d.len(),
{
    if d.len() > 0 {
        lemma_digits_value_nonneg(d.drop_last());
    }
}

/// `usize::from_str` on a sequence of characters.
pub fn parse_decimal(s: &[char]) -> (r: Option<usize>)
    ensures
        r == parse_usize(s@),
{
    let n = s.len();
    let start: usize = if n > 0 && s[0] == '+' { 1 } else { 0 };
    let ghost d = unsigned_digits(s@);
    assert(d =~= s@.skip(start as int));
    if start == n {
        return None;
    }
    let mut acc: usize = 0;
    let mut i: usize = start;
    assert(d.take(0) =~= Seq::<char>::empty());
    while i < n
        invariant
            n == s@.len(),
            start < n,
            start <= i <= n,
            d == s@.skip(start as int),
            d == unsigned_digits(s@),
            forall|j: int| 0 <= j < i - start ==> is_digit(d[j]),
            acc as int == digits_value(d.take(i - start)),
        decreases n - i,
    {
        let c = s[i];
        assert(c == d[i - start]);
        if !('0' <= c && c <= '9') {
            assert(!is_digit(d[i - start]));
            assert(!all_digits(d));
            return None;
        }
        let digit: usize = ((c as u32) - 48) as usize;
        assert(d.take(i + 1 - start).drop_last() =~= d.take(i - start));
        let next = match acc.checked_mul(10) {
            Some(m) => m.checked_add(digit),
            None => None,
        };
        match next {
            Some(v) => {
                acc = v;
            },
            None => {
                proof {
                    assert(digits_value(d.take(i + 1 - start)) > usize::MAX);
                    if all_digits(d) {
                        lemma_digits_value_prefix(d, i + 1 - start);
                    }
                }
                return None;
            },
        }
        i = i + 1;
    }
    assert(d.take(n - start) =~= d);
    Some(acc)
}

/// Reading back a number written in decimal gives the number again:
/// `parse_usize` inverts `decimal` on every `usize`.
pub proof fn lemma_parse_decimal_roundtrip(n: usize)
    ensures
        parse_usize(decimal(n as nat)) == Some(n),
{
    lemma_decimal_digits(n as nat);
    let d = decimal(n as nat);
    assert(is_digit(d[0]));
    assert(unsigned_digits(d) == d);
}

/// `decimal(n)` is a non-empty sequence of digits that denotes `n`.
pub proof fn lemma_decimal_digits(n: nat)
    ensures
        decimal(n).len() > 0,
        all_digits(decimal(n)),
        digits_value(decimal(n)) == n,
    decreases n,
{
    let c = digit_char(n % 10);
    assert(c as int == (n % 10) + 48);
    if n < 10 {
        assert(decimal(n) == seq![c]);
        assert(seq![c].drop_last() =~= Seq::<char>::empty());
        assert(digits_value(seq![c]) == 10 * digits_value(seq![c].drop_last()) + (c as int - 48));
        assert(digits_value(Seq::<char>::empty()) == 0);
        assert(n % 10 == n);
    } else {
        lemma_decimal_digits(n / 10);
        let p = decimal(n / 10);
        assert(decimal(n) == p.push(c));
        assert(p.push(c).drop_last() =~= p);
        assert(digits_value(p.push(c)) == 10 * digits_value(p) + (c as int - 48));
        assert(n == 10 * (n / 10) + n % 10) by (nonlinear_arith);
        assert forall|i: int| 0 <= i < p.push(c).len() implies is_digit(#[trigger] p.push(c)[i]) by {
            if i < p.len() {
                assert(p.push(c)[i] == p[i]);
            }
        }
    }
}

/// The facts that `first_index` stands for.
pub proof fn lemma_first_index_facts(s: Seq<char>, c: char)
    ensures
        0 <= first_index(s, c) <= s.len(),
        forall|j: int| 0 <= j < first_index(s, c) ==> s[j] != c,
        first_index(s, c) < s.len() ==> s[first_index(s, c)] == c,
        s.contains(c) ==> first_index(s, c) < s.len(),
    decreases s.len(),
{
    if s.len() > 0 && s[0] != c {
        let t = s.drop_first();
        lemma_first_index_facts(t, c);
        assert forall|j: int| 0 <= j < first_index(s, c) implies s[j] != c by {
            if j > 0 {
                assert(s[j] == t[j - 1]);
            }
        }
        if s.contains(c) {
            let k = choose|k: int| 0 <= k < s.len() && s[k] == c;
            assert(t[k - 1] == c);
            assert(t.contains(c));
        }
    }
}

/// The thread count is read from the first line that starts with exactly
/// `Threads:`: after any lines of which none starts with `Threads:` (a line
/// such as `Tgid:` is passed over), a line `Threads:<tab>n` gives `n`,
/// whatever follows it.
pub proof fn lemma_count_read_from_threads_line(pre: Seq<char>, n: usize, rest: Seq<char>)
    requires
        pre.len() == 0 || pre.last() == '\n',
        forall|i: int| 0 <= i < pre.len() && (i == 0 || pre[i - 1] == '\n')
            ==> !(pre.skip(i).len() >= 8 && #[trigger] pre.skip(i).take(8) == "Threads:"@),
    ensures
        status_thread_count(pre + "Threads:\t"@ + decimal(n as nat) + "\n"@ + rest) == Ok::<usize, Seq<char>>(n),
    decreases pre.len(),
{
    let t = "Threads:\t"@ + decimal(n as nat) + "\n"@ + rest;
    let s = pre + t;
    assert(s =~= pre + "Threads:\t"@ + decimal(n as nat) + "\n"@ + rest);
    reveal_strlit("Threads:\t");
    reveal_strlit("Threads:");
    reveal_strlit("\n");
    if pre.len() == 0 {
        assert(s =~= t);
        lemma_decimal_digits(n as nat);
        let d = decimal(n as nat);
        let e: int = 9 + d.len() as int;
        assert forall|j: int| 0 <= j < e implies t[j] != '\n' by {
            if j >= 9 {
                assert(t[j] == d[j - 9]);
                assert(is_digit(d[j - 9]));
            }
        }
        assert(t[e] == '\n');
        lemma_first_index(t, '\n', e);
        let line = t.take(e);
        assert(line[e - 1] == d[d.len() - 1]);
        assert(is_digit(d[d.len() - 1]));
        assert(strip_cr(line) == line);
        assert(lines(t)[0] == line);
        assert(line.take(8) =~= threads_label());
        let v = line.skip(8);
        assert(v =~= seq!['\t'] + d);
        assert(v.drop_first() =~= d);
        assert(is_digit(d[0]));
        assert(trim_start(d) == d);
        assert(trim_start(v) == d);
        assert(trim_end(d) == d);
        assert(labelled_value(lines(t)) == Some(v));
        lemma_parse_decimal_roundtrip(n);
    } else {
        lemma_first_index_facts(pre, '\n');
        assert(pre[pre.len() - 1] == '\n');
        assert(pre.contains('\n'));
        let k = first_index(pre, '\n');
        assert forall|j: int| 0 <= j < k implies s[j] != '\n' by {
            assert(s[j] == pre[j]);
        }
        assert(s[k] == pre[k]);
        lemma_first_index(s, '\n', k);
        let line = strip_cr(s.take(k));
        assert(s.take(k) =~= pre.take(k));
        assert(lines(s)[0] == line);
        assert(lines(s).drop_first() =~= lines(s.skip(k + 1)));
        if line.len() >= threads_label().len() && line.take(8) == threads_label() {
            assert(pre.skip(0) =~= pre);
            assert(pre.take(8) =~= line.take(8));
            assert(false);
        }
        let pre2 = pre.skip(k + 1);
        assert(s.skip(k + 1) =~= pre2 + t);
        assert forall|i: int| 0 <= i < pre2.len() && (i == 0 || pre2[i - 1] == '\n')
            implies !(pre2.skip(i).len() >= 8 && #[trigger] pre2.skip(i).take(8) == "Threads:"@) by {
            let i0 = i + k + 1;
            assert(pre2.skip(i) =~= pre.skip(i0));
            if i > 0 {
                assert(pre2[i - 1] == pre[i0 - 1]);
            }
            assert(0 <= i0 < pre.len() && (i0 == 0 || pre[i0 - 1] == '\n'));
        }
        if pre2.len() > 0 {
            assert(pre2.last() == pre.last());
        }
        lemma_count_read_from_threads_line(pre2, n, rest);
        assert(pre2 + "Threads:\t"@ + decimal(n as nat) + "\n"@ + rest =~= pre2 + t);
        assert(labelled_value(lines(s)) == labelled_value(lines(pre2 + t)));
    }
}

/// The error message for a thread count that cannot be had.
fn thread_count_error(missing: bool) -> (m: String)
    ensures
        m@ == (if missing { field_missing_message() } else { unparsable_message() }),
{
    if missing {
        "Threads field not found in /proc/self/status".to_owned()
    } else {
        "Cannot parse thread count".to_owned()
    }
}

/// Reads the thread count out of the text of `/proc/self/status`: the number
/// after the label on the first line that starts with `Threads:`, surrounding
/// white space ignored.
pub fn thread_count_from_status(status: &str) -> (r: Result<usize, String>)
    ensures
        match status_thread_count(status@) {
            Ok(n) => r == Ok::<usize, String>(n),
            Err(m) => r matches Err(e) && e@ == m,
        },
{
    let cs = chars_of(status);
    let label = chars_of("Threads:");
    let n = cs.len();
    let ln = label.len();
    let mut start: usize = 0;
    assert(cs@.skip(0) =~= cs@);
    while start < n
        invariant
            n == cs@.len(),
            ln == label@.len(),
            label@ == threads_label(),
            cs@ == status@,
            start <= n,
            labelled_value(lines(cs@)) == labelled_value(lines(cs@.skip(start as int))),
        decreases n - start,
    {
        let ghost rest = cs@.skip(start as int);
        let mut end: usize = start;
        while end < n && cs[end] != '\n'
            invariant
                n == cs@.len(),
                start <= end <= n,
                rest == cs@.skip(start as int),
                forall|j: int| 0 <= j < end - start ==> rest[j] != '\n',
            decreases n - end,
        {
            end = end + 1;
        }
        proof {
            lemma_first_index(rest, '\n', end - start);
        }
        // the line without its ending
        let mut stop: usize = end;
        if end < n && end > start && cs[end - 1] == '\r' {
            stop = end - 1;
        }
        let ghost line = cs@.subrange(start as int, stop as int);
        proof {
            if end < n {
                assert(rest.take(end - start) =~= cs@.subrange(start as int, end as int));
                assert(strip_cr(rest.take(end - start)) =~= line);
                assert(rest.skip(end - start + 1) =~= cs@.skip(end + 1));
            } else {
                assert(rest =~= line);
            }
            assert(lines(rest)[0] == line);
            assert(lines(rest).drop_first() == (if end < n { lines(cs@.skip(end + 1)) } else { Seq::<Seq<char>>::empty() }));
        }
        let mut matches = stop - start >= ln;
        let mut k: usize = 0;
        while matches && k < ln
            invariant
                n == cs@.len(),
                ln == label@.len(),
                start <= stop <= n,
                line == cs@.subrange(start as int, stop as int),
                matches ==> stop - start >= ln,
                k <= ln,
                matches ==> forall|j: int| 0 <= j < k ==> line[j] == label@[j],
                !matches ==> !(line.len() >= ln && line.take(ln as int) == label@),
            decreases (if matches { ln - k + 1 } else { 0 }),
        {
            if cs[start + k] != label[k] {
                matches = false;
                assert(line[k as int] != label@[k as int]);
                assert(line.len() >= ln ==> line.take(ln as int)[k as int] != label@[k as int]);
            } else {
                k = k + 1;
            }
        }
        if matches {
            assert(line.take(ln as int) =~= label@);
            let mut value: Vec<char> = Vec::new();
            let mut p: usize = start + ln;
            while p < stop
                invariant
                    start + ln <= p <= stop <= n,
                    n == cs@.len(),
                    value@ == cs@.subrange(start + ln, p as int),
                decreases stop - p,
            {
                value.push(cs[p]);
                assert(cs@.subrange(start + ln, p + 1) =~= cs@.subrange(start + ln, p as int).push(cs@[p as int]));
                p = p + 1;
            }
            assert(value@ =~= line.skip(ln as int));
            assert(labelled_value(lines(rest)) == Some(line.skip(ln as int)));
            let trimmed = trim_chars(value.as_slice());
            return match parse_decimal(trimmed.as_slice()) {
                Some(count) => Ok(count),
                None => Err(thread_count_error(false)),
            };
        }
        if end == n {
            start = n;
            assert(cs@.skip(n as int) =~= Seq::<char>::empty());
        } else {
            start = end + 1;
        }
    }
    assert(cs@.skip(n as int) =~= Seq::<char>::empty());
    Err(thread_count_error(true))
}

/// The most threads a process may run when it forks.
pub const MAX_FORK_THREADS: usize = 32;

/// The message of the error for a process with too many threads to fork safely.
pub open spec fn too_many_threads_message(count: nat) -> Seq<char> {
    "Too many threads ("@ + decimal(count)
        + ") for safe fork. Reduce thread count before calling sandboxed_exec."@
}

/// The message of the error that the thread check raises for `count`, if any.
pub open spec fn thread_check_error(count: Result<usize, Seq<char>>) -> Option<Seq<char>> {
    match count {
        Err(m) => Some("Failed to check thread count: "@ + m),
        Ok(n) => if n > MAX_FORK_THREADS {
            Some(too_many_threads_message(n as nat))
        } else {
            None
        },
    }
}

/// The error text for a `/proc/self/status` that could not be read.
pub fn status_unreadable(detail: &str) -> (m: String)
    ensures
        m@ == "Cannot read /proc/self/status: "@ + detail@,
{
    let mut m = "Cannot read /proc/self/status: ".to_owned();
    m.append(detail);
    m
}

/// Checks that forking is safe with the thread count that was read: a count
/// that could not be had, or a count above [`MAX_FORK_THREADS`], is an error.
pub fn check_thread_count(count: Result<usize, String>) -> (r: Result<(), ExecError>)
    ensures
        match thread_check_error(match count { Ok(n) => Ok(n), Err(m) => Err(m@) }) {
            Some(m) => r matches Err(e) && e.is(ErrorKind::Runtime, m),
            None => r is Ok,
        },
        match count {
            Err(m) => r matches Err(e)
                && e.is(ErrorKind::Runtime, "Failed to check thread count: "@ + m@),
            Ok(n) => if n > 32 {
                r matches Err(e) && e.is(ErrorKind::Runtime, too_many_threads_message(n as nat))
            } else {
                r is Ok
            },
        },
{
    match count {
        Err(m) => Err(ExecError::runtime_with_detail("Failed to check thread count: ", m.as_str())),
        Ok(n) => {
            if n > MAX_FORK_THREADS {
                let mut message = "Too many threads (".to_owned();
                push_decimal(&mut message, n as u64);
                message.append(") for safe fork. Reduce thread count before calling sandboxed_exec.");
                Err(ExecError::new(ErrorKind::Runtime, message))
            } else {
                Ok(())
            }
        },
    }
}

} // verus!
