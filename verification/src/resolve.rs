use vstd::prelude::*;
use crate::error::{ErrorKind, ExecError};
use crate::text::{chars_of, contains_char, opt_str_view, split_on, string_from_chars, string_views};

verus! {

/// A program name with a `/` in it is a path, used as it stands; any other
/// name is looked up along `PATH`.
pub open spec fn is_path_like(program: Seq<char>) -> bool {
    program.contains('/')
}

/// Whether a path starts at the root.
pub open spec fn is_absolute(p: Seq<char>) -> bool {
    p.len() > 0 && p[0] == '/'
}

/// `Path::new(dir).join(name)` for a `name` that is not absolute: a `/` is put
/// between the two unless `dir` is empty or already ends with one.
pub open spec fn join_path(dir: Seq<char>, name: Seq<char>) -> Seq<char> {
    if dir.len() == 0 || dir.last() == '/' {
        dir + name
    } else {
        dir + seq!['/'] + name
    }
}

/// The place where `program` is looked for in the `PATH` entry `dir`: an
/// absolute entry is used as it stands; a relative entry (such as `""` or `.`)
/// is taken relative to `working_dir` when that is a known absolute
/// directory, which makes the place absolute, and otherwise stays relative to
/// the process's current directory, as `Path::join` leaves it.
pub open spec fn place_in(dir: Seq<char>, program: Seq<char>, working_dir: Option<Seq<char>>) -> Seq<char> {
    if is_absolute(dir) {
        join_path(dir, program)
    } else {
        match working_dir {
            Some(w) => if is_absolute(w) {
                join_path(join_path(w, dir), program)
            } else {
                join_path(dir, program)
            },
            None => join_path(dir, program),
        }
    }
}

/// The places for `program` in the entries `dirs`, in order.
pub open spec fn places_in(dirs: Seq<Seq<char>>, program: Seq<char>, working_dir: Option<Seq<char>>) -> Seq<Seq<char>> {
    dirs.map_values(|dir: Seq<char>| place_in(dir, program, working_dir))
}

/// The places where a bare program name is looked for, in order: one for each
/// `:`-separated entry of `PATH` (see [`place_in`]); none when `PATH` is unset.
pub open spec fn search_candidates(
    program: Seq<char>,
    path_var: Option<Seq<char>>,
    working_dir: Option<Seq<char>>,
) -> Seq<Seq<char>> {
    match path_var {
        Some(path) => places_in(split_on(path, ':'), program, working_dir),
        None => Seq::<Seq<char>>::empty(),
    }
}

/// A path joined onto an absolute directory is absolute.
pub proof fn lemma_join_absolute(dir: Seq<char>, name: Seq<char>)
    requires
        is_absolute(dir),
    ensures
        is_absolute(join_path(dir, name)),
{
    if dir.last() == '/' {
        assert((dir + name)[0] == dir[0]);
    } else {
        assert((dir + seq!['/'] + name)[0] == dir[0]);
    }
}

/// With a known absolute working directory, every place along `PATH` is an
/// absolute path.
pub proof fn lemma_places_absolute(dirs: Seq<Seq<char>>, program: Seq<char>, working_dir: Option<Seq<char>>)
    requires
        working_dir matches Some(w) && is_absolute(w),
    ensures
        forall|i: int| 0 <= i < places_in(dirs, program, working_dir).len()
            ==> is_absolute(#[trigger] places_in(dirs, program, working_dir)[i]),
{
    let w = working_dir->0;
    assert forall|i: int| 0 <= i < places_in(dirs, program, working_dir).len()
        implies is_absolute(#[trigger] places_in(dirs, program, working_dir)[i]) by {
        let d = dirs[i];
        if is_absolute(d) {
            lemma_join_absolute(d, program);
        } else {
            lemma_join_absolute(w, d);
            lemma_join_absolute(join_path(w, d), program);
        }
    }
}

/// The message of the error for a path-like program that does not exist.
pub open spec fn not_found_message(program: Seq<char>) -> Seq<char> {
    "Program not found: "@ + program
}

/// The message of the error for a bare program name found nowhere along `PATH`.
pub open spec fn not_in_path_message(program: Seq<char>) -> Seq<char> {
    "Program not found in PATH: "@ + program
}

/// The program that is executed, given the probe results `found`: a path-like
/// program is itself when it exists; a bare name is the first place along
/// `PATH` that was found. Places without an entry in `found` count as not found.
pub open spec fn program_resolution(
    program: Seq<char>,
    path_var: Option<Seq<char>>,
    working_dir: Option<Seq<char>>,
    found: Seq<bool>,
) -> Result<Seq<char>, Seq<char>> {
    if is_path_like(program) {
        if found.len() > 0 && found[0] {
            Ok(program)
        } else {
            Err(not_found_message(program))
        }
    } else {
        let c = search_candidates(program, path_var, working_dir);
        if exists|i: int| 0 <= i < c.len() && i < found.len() && found[i] {
            let i = choose|i: int|
                0 <= i < c.len() && i < found.len() && found[i]
                    && forall|j: int| 0 <= j < i ==> !found[j];
            Ok(c[i])
        } else {
            Err(not_in_path_message(program))
        }
    }
}

/// A program name with a `/` anywhere in it is a path: it is used as it
/// stands, and resolves to itself whenever it was found to exist, whatever
/// `PATH` and the working directory are.
pub proof fn lemma_slash_makes_a_path(
    program: Seq<char>,
    k: int,
    path_var: Option<Seq<char>>,
    working_dir: Option<Seq<char>>,
    found: Seq<bool>,
)
    requires
        0 <= k < program.len(),
        program[k] == '/',
    ensures
        is_path_like(program),
        found.len() > 0 && found[0] ==> program_resolution(program, path_var, working_dir, found) == Ok::<Seq<char>, Seq<char>>(program),
        !(found.len() > 0 && found[0]) ==> program_resolution(program, path_var, working_dir, found)
            == Err::<Seq<char>, Seq<char>>("Program not found: "@ + program),
{
    assert(program.contains('/'));
}

/// A program name without any `/` is a bare name: it is looked up along `PATH`.
pub proof fn lemma_bare_name_is_searched(program: Seq<char>)
    requires
        forall|k: int| 0 <= k < program.len() ==> program[k] != '/',
    ensures
        !is_path_like(program),
{
}

/// Splitting at a `:` splits the text into what comes before and after it.
pub proof fn lemma_split_at_colon(a: Seq<char>, b: Seq<char>)
    ensures
        split_on(a + seq![':'] + b, ':') == split_on(a, ':') + split_on(b, ':'),
    decreases b.len(),
{
    let x = a + seq![':'] + b;
    if b.len() == 0 {
        assert(x =~= a.push(':'));
        assert(x.drop_last() =~= a);
        assert(split_on(a, ':').push(Seq::<char>::empty()) =~= split_on(a, ':') + split_on(b, ':'));
    } else {
        let b2 = b.drop_last();
        lemma_split_at_colon(a, b2);
        assert(x.drop_last() =~= a + seq![':'] + b2);
        assert(x.last() == b.last());
        let left = split_on(a, ':');
        let right = split_on(b2, ':');
        lemma_split_nonempty(b2);
        if b.last() == ':' {
            assert((left + right).push(Seq::<char>::empty()) =~= left + right.push(Seq::<char>::empty()));
        } else {
            let all = left + right;
            assert(all.update(all.len() - 1, all.last().push(b.last()))
                =~= left + right.update(right.len() - 1, right.last().push(b.last())));
        }
    }
}

/// `split_on` yields at least one piece.
pub proof fn lemma_split_nonempty(s: Seq<char>)
    ensures
        split_on(s, ':').len() >= 1,
    decreases s.len(),
{
    if s.len() > 0 {
        lemma_split_nonempty(s.drop_last());
    }
}

/// A text without `:` is a single piece.
pub proof fn lemma_split_single(d: Seq<char>)
    requires
        forall|k: int| 0 <= k < d.len() ==> d[k] != ':',
    ensures
        split_on(d, ':') == seq![d],
    decreases d.len(),
{
    if d.len() > 0 {
        let d2 = d.drop_last();
        assert forall|k: int| 0 <= k < d2.len() implies d2[k] != ':' by {
            assert(d2[k] == d[k]);
        }
        lemma_split_single(d2);
        assert(d2.push(d.last()) =~= d);
        assert(d.last() != ':');
        assert(seq![d2].update(0, d2.push(d.last())) =~= seq![d]);
    } else {
        assert(d =~= Seq::<char>::empty());
    }
}

/// `PATH` is searched entry by entry, in order: the places for `a:b` are the
/// places for `a` followed by the places for `b`.
pub proof fn lemma_search_entries_in_order(
    program: Seq<char>,
    a: Seq<char>,
    b: Seq<char>,
    working_dir: Option<Seq<char>>,
)
    ensures
        search_candidates(program, Some(a + seq![':'] + b), working_dir)
            == search_candidates(program, Some(a), working_dir) + search_candidates(program, Some(b), working_dir),
{
    lemma_split_at_colon(a, b);
    let f = |dir: Seq<char>| place_in(dir, program, working_dir);
    assert((split_on(a, ':') + split_on(b, ':')).map_values(f)
        =~= split_on(a, ':').map_values(f) + split_on(b, ':').map_values(f));
}

/// The place for a program in one absolute `PATH` entry `d` is `d/program`,
/// with no second `/` when `d` already ends with one.
pub proof fn lemma_absolute_entry_place(program: Seq<char>, d: Seq<char>, working_dir: Option<Seq<char>>)
    requires
        d.len() > 0,
        d[0] == '/',
        forall|k: int| 0 <= k < d.len() ==> d[k] != ':',
    ensures
        d.last() == '/' ==> search_candidates(program, Some(d), working_dir) == seq![d + program],
        d.last() != '/' ==> search_candidates(program, Some(d), working_dir) == seq![d + seq!['/'] + program],
{
    lemma_split_single(d);
    let f = |dir: Seq<char>| place_in(dir, program, working_dir);
    assert(seq![d].map_values(f) =~= seq![f(d)]);
}

/// An empty `PATH` entry stands for the working directory: with the absolute
/// working directory `w`, the place is `w/program`.
pub proof fn lemma_empty_entry_place(program: Seq<char>, w: Seq<char>)
    requires
        w.len() > 0,
        w[0] == '/',
        w.last() != '/',
    ensures
        search_candidates(program, Some(Seq::<char>::empty()), Some(w)) == seq![w + seq!['/'] + program],
{
    lemma_split_single(Seq::<char>::empty());
    let f = |dir: Seq<char>| place_in(dir, program, Some(w));
    assert(seq![Seq::<char>::empty()].map_values(f) =~= seq![f(Seq::<char>::empty())]);
    assert(w + Seq::<char>::empty() =~= w);
    assert(w + seq!['/'] + Seq::<char>::empty() =~= w + seq!['/']);
    assert((w + seq!['/']).last() == '/');
}

/// A bare name resolves to the first place that was found: if the `i`-th
/// place is found and none before it, the result is that place.
pub proof fn lemma_first_found_wins(
    program: Seq<char>,
    path_var: Option<Seq<char>>,
    working_dir: Option<Seq<char>>,
    found: Seq<bool>,
    i: int,
)
    requires
        forall|k: int| 0 <= k < program.len() ==> program[k] != '/',
        0 <= i < search_candidates(program, path_var, working_dir).len(),
        i < found.len(),
        found[i],
        forall|j: int| 0 <= j < i ==> !found[j],
    ensures
        program_resolution(program, path_var, working_dir, found)
            == Ok::<Seq<char>, Seq<char>>(search_candidates(program, path_var, working_dir)[i]),
{
    let c = search_candidates(program, path_var, working_dir);
    let w = choose|w: int|
        0 <= w < c.len() && w < found.len() && found[w]
            && forall|j: int| 0 <= j < w ==> !found[j];
    if w < i {
        assert(!found[w]);
    }
    if w > i {
        assert(!found[i]);
    }
}

/// Where the caller has to look for a program before it can be resolved.
#[derive(Debug)]
pub enum ProgramLookup {
    /// The program is a path: check that it exists.
    Direct(String),
    /// The program is a bare name: check, in order, which of these is a file.
    Search(Vec<String>),
}

/// Whether the program name contains a path separator.
pub fn is_path(program: &str) -> (r: bool)
    ensures
        r == is_path_like(program@),
{
    let cs = chars_of(program);
    contains_char(cs.as_slice(), '/')
}

fn join_chars(dir: &[char], name: &[char]) -> (v: Vec<char>)
    ensures
        v@ == join_path(dir@, name@),
{
    let mut v: Vec<char> = Vec::new();
    let n = dir.len();
    for i in 0..n
        invariant
            n == dir@.len(),
            v@ == dir@.take(i as int),
    {
        v.push(dir[i]);
        assert(dir@.take(i + 1) =~= dir@.take(i as int).push(dir@[i as int]));
    }
    assert(dir@.take(n as int) =~= dir@);
    if n != 0 && dir[n - 1] != '/' {
        v.push('/');
    }
    let ghost base = v@;
    let m = name.len();
    for i in 0..m
        invariant
            m == name@.len(),
            v@ == base + name@.take(i as int),
    {
        v.push(name[i]);
        assert(name@.take(i + 1) =~= name@.take(i as int).push(name@[i as int]));
    }
    assert(name@.take(m as int) =~= name@);
    assert(v@ =~= join_path(dir@, name@));
    v
}

fn absolute_chars(p: &Vec<char>) -> (r: bool)
    ensures
        r == is_absolute(p@),
{
    p.len() > 0 && p[0] == '/'
}

fn place_of(dir: &Vec<char>, program: &Vec<char>, working_dir: &Option<Vec<char>>) -> (r: String)
    ensures
        r@ == place_in(dir@, program@, match working_dir { Some(w) => Some(w@), None => None }),
{
    if !absolute_chars(dir) {
        match working_dir {
            Some(w) => {
                if absolute_chars(w) {
                    let base = join_chars(w.as_slice(), dir.as_slice());
                    let p = join_chars(base.as_slice(), program.as_slice());
                    return string_from_chars(p.as_slice());
                }
            },
            None => {},
        }
    }
    let p = join_chars(dir.as_slice(), program.as_slice());
    string_from_chars(p.as_slice())
}

/// The places for `program` along the `PATH` value `path`, relative entries
/// taken against `working_dir`.
pub fn path_candidates(program: &str, path: &str, working_dir: Option<&str>) -> (c: Vec<String>)
    ensures
        string_views(c@) == search_candidates(program@, Some(path@), opt_str_view(working_dir)),
{
    let cs = chars_of(path);
    let prog = chars_of(program);
    let wd: Option<Vec<char>> = match working_dir {
        Some(w) => Some(chars_of(w)),
        None => None,
    };
    let ghost wdv = opt_str_view(working_dir);
    assert(wdv == match wd { Some(w) => Some(w@), None => None::<Seq<char>> });
    let ghost f = |dir: Seq<char>| place_in(dir, program@, wdv);
    let n = cs.len();
    let mut out: Vec<String> = Vec::new();
    let mut cur: Vec<char> = Vec::new();
    proof {
        assert(cs@.take(0) =~= Seq::<char>::empty());
        assert(string_views(out@) =~= split_on(cs@.take(0), ':').drop_last().map_values(f));
    }
    for i in 0..n
        invariant
            n == cs@.len(),
            prog@ == program@,
            wdv == match wd { Some(w) => Some(w@), None => None::<Seq<char>> },
            f == (|dir: Seq<char>| place_in(dir, program@, wdv)),
            split_on(cs@.take(i as int), ':').len() >= 1,
            cur@ == split_on(cs@.take(i as int), ':').last(),
            string_views(out@) == split_on(cs@.take(i as int), ':').drop_last().map_values(f),
    {
        let ghost before = split_on(cs@.take(i as int), ':');
        let ghost old_out = out@;
        let c = cs[i];
        proof {
            assert(cs@.take(i + 1).drop_last() =~= cs@.take(i as int));
            assert(cs@.take(i + 1).last() == c);
        }
        if c == ':' {
            let place = place_of(&cur, &prog, &wd);
            out.push(place);
            cur = Vec::new();
            proof {
                let after = split_on(cs@.take(i + 1), ':');
                assert(after == before.push(Seq::<char>::empty()));
                assert(after.drop_last() =~= before);
                assert(before =~= before.drop_last().push(before.last()));
                assert(string_views(out@) =~= string_views(old_out).push(f(before.last())));
                assert(before.map_values(f) =~= before.drop_last().map_values(f).push(f(before.last())));
            }
        } else {
            cur.push(c);
            proof {
                let after = split_on(cs@.take(i + 1), ':');
                assert(after == before.update(before.len() - 1, before.last().push(c)));
                assert(after.drop_last() =~= before.drop_last());
            }
        }
    }
    let last = place_of(&cur, &prog, &wd);
    let ghost old_out = out@;
    out.push(last);
    proof {
        assert(cs@.take(n as int) =~= cs@);
        let all = split_on(cs@, ':');
        assert(all =~= all.drop_last().push(all.last()));
        assert(all.map_values(f) =~= all.drop_last().map_values(f).push(f(all.last())));
        assert(string_views(out@) =~= string_views(old_out).push(f(all.last())));
    }
    out
}

/// Where to look for `program`, given the value of `PATH` (if set) and the
/// absolute working directory (if known).
pub fn program_lookup(program: &str, path_var: Option<&str>, working_dir: Option<&str>) -> (r: ProgramLookup)
    ensures
        is_path_like(program@) ==> (r matches ProgramLookup::Direct(p) && p@ == program@),
        !is_path_like(program@) ==> (r matches ProgramLookup::Search(c)
            && string_views(c@) == search_candidates(program@, opt_str_view(path_var), opt_str_view(working_dir))),
{
    if is_path(program) {
        ProgramLookup::Direct(program.to_owned())
    } else {
        match path_var {
            Some(path) => ProgramLookup::Search(path_candidates(program, path, working_dir)),
            None => {
                let v: Vec<String> = Vec::new();
                assert(string_views(v@) =~= Seq::<Seq<char>>::empty());
                ProgramLookup::Search(v)
            },
        }
    }
}

/// Resolves `program` to the path that will be executed.
///
/// `found[i]` tells whether the `i`-th place of [`program_lookup`] passed its
/// check (the path exists, or the place is a file); places without an entry
/// count as not found. A path-like program resolves to itself when it exists;
/// a bare name resolves to the first place along `PATH` that was found,
/// which is its absolute path whenever the working directory is known.
pub fn resolve_program(
    program: &str,
    path_var: Option<&str>,
    working_dir: Option<&str>,
    found: &[bool],
) -> (r: Result<String, ExecError>)
    ensures
        is_path_like(program@) ==> match r {
            Ok(p) => p@ == program@ && found@.len() > 0 && found@[0],
            Err(e) => !(found@.len() > 0 && found@[0])
                && e.is(ErrorKind::Runtime, not_found_message(program@)),
        },
        !is_path_like(program@) ==> ({
            let c = search_candidates(program@, opt_str_view(path_var), opt_str_view(working_dir));
            match r {
                Ok(p) => (opt_str_view(working_dir) matches Some(w) && is_absolute(w) ==> is_absolute(p@))
                    && exists|i: int|
                    0 <= i < c.len() && i < found@.len() && found@[i] && p@ == c[i]
                        && forall|j: int| 0 <= j < i ==> !found@[j],
                Err(e) => (forall|i: int| 0 <= i < c.len() && i < found@.len() ==> !found@[i])
                    && e.is(ErrorKind::Runtime, not_in_path_message(program@)),
            }
        }),
        match r {
            Ok(p) => program_resolution(program@, opt_str_view(path_var), opt_str_view(working_dir), found@) == Ok::<Seq<char>, Seq<char>>(p@),
            Err(e) => e.kind == ErrorKind::Runtime
                && program_resolution(program@, opt_str_view(path_var), opt_str_view(working_dir), found@) == Err::<Seq<char>, Seq<char>>(e.message@),
        },
{
    match program_lookup(program, path_var, working_dir) {
        ProgramLookup::Direct(p) => {
            if found.len() > 0 && found[0] {
                Ok(p)
            } else {
                Err(ExecError::runtime_with_detail("Program not found: ", program))
            }
        },
        ProgramLookup::Search(candidates) => {
            let ghost c = search_candidates(program@, opt_str_view(path_var), opt_str_view(working_dir));
            proof {
                match path_var {
                    Some(path) => if opt_str_view(working_dir) matches Some(w) && is_absolute(w) {
                        lemma_places_absolute(split_on(path@, ':'), program@, opt_str_view(working_dir));
                    },
                    None => {},
                }
            }
            let n = candidates.len();
            let m = found.len();
            for i in 0..n
                invariant
                    n == candidates@.len(),
                    m == found@.len(),
                    string_views(candidates@) == c,
                    c == search_candidates(program@, opt_str_view(path_var), opt_str_view(working_dir)),
                    opt_str_view(working_dir) matches Some(w) && is_absolute(w)
                        ==> forall|k: int| 0 <= k < c.len() ==> is_absolute(#[trigger] c[k]),
                    !is_path_like(program@),
                    forall|j: int| 0 <= j < i && j < m ==> !found@[j],
            {
                if i < m && found[i] {
                    assert(string_views(candidates@)[i as int] == candidates@[i as int]@);
                    let p = candidates[i].clone();
                    assert(found@[i as int] && p@ == c[i as int]);
                    proof {
                        let w = choose|w: int|
                            0 <= w < c.len() && w < found@.len() && found@[w]
                                && forall|j: int| 0 <= j < w ==> !found@[j];
                        if w < i {
                            assert(!found@[w]);
                        }
                        if w > i {
                            assert(!found@[i as int]);
                        }
                    }
                    return Ok(p);
                }
            }
            Err(ExecError::runtime_with_detail("Program not found in PATH: ", program))
        },
    }
}

} // verus!
