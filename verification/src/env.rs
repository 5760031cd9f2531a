use vstd::prelude::*;
use vstd::utf8::encode_utf8;
use crate::text::string_views;

verus! {

/// Whether the UTF-8 encoding of a text holds a NUL byte, which a C string
/// cannot carry (`CString::new` refuses it).
pub open spec fn has_nul_byte(s: Seq<char>) -> bool {
    encode_utf8(s).contains(0u8)
}

/// The views of a list of string pairs.
pub open spec fn pair_views(v: Seq<(String, String)>) -> Seq<(Seq<char>, Seq<char>)> {
    v.map_values(|p: (String, String)| (p.0@, p.1@))
}

/// The `key=value` form of an environment variable.
pub open spec fn env_entry(key: Seq<char>, value: Seq<char>) -> Seq<char> {
    key + "="@ + value
}

/// Whether `key` is the key of one of the `overrides`.
pub open spec fn is_overridden(key: Seq<char>, overrides: Seq<(Seq<char>, Seq<char>)>) -> bool {
    exists|i: int| 0 <= i < overrides.len() && #[trigger] overrides[i].0 == key
}

/// The `key=value` entries of `vars`, in order, leaving out the variables whose
/// key is one of `overrides` and the entries that hold a NUL byte.
pub open spec fn env_entries(
    vars: Seq<(Seq<char>, Seq<char>)>,
    overrides: Seq<(Seq<char>, Seq<char>)>,
) -> Seq<Seq<char>>
    decreases vars.len(),
{
    if vars.len() == 0 {
        Seq::<Seq<char>>::empty()
    } else {
        let rest = env_entries(vars.drop_last(), overrides);
        let entry = env_entry(vars.last().0, vars.last().1);
        if is_overridden(vars.last().0, overrides) || has_nul_byte(entry) {
            rest
        } else {
            rest.push(entry)
        }
    }
}

/// The environment of the child: the inherited variables that are not
/// overridden, then the overrides, each as a `key=value` entry; entries that
/// hold a NUL byte are left out.
pub open spec fn child_environment(
    current: Seq<(Seq<char>, Seq<char>)>,
    overrides: Option<Seq<(Seq<char>, Seq<char>)>>,
) -> Seq<Seq<char>> {
    match overrides {
        None => env_entries(current, Seq::empty()),
        Some(o) => env_entries(current, o) + env_entries(o, Seq::empty()),
    }
}

/// An entry is kept from `vars` exactly when it is the NUL-free entry of a
/// variable whose key `overrides` does not name.
pub proof fn lemma_env_entries_membership(
    vars: Seq<(Seq<char>, Seq<char>)>,
    overrides: Seq<(Seq<char>, Seq<char>)>,
    e: Seq<char>,
)
    ensures
        env_entries(vars, overrides).contains(e) <==> exists|i: int|
            0 <= i < vars.len() && !is_overridden(vars[i].0, overrides)
                && !has_nul_byte(env_entry(vars[i].0, vars[i].1))
                && e == #[trigger] env_entry(vars[i].0, vars[i].1),
    decreases vars.len(),
{
    if vars.len() > 0 {
        let init = vars.drop_last();
        lemma_env_entries_membership(init, overrides, e);
        let rest = env_entries(init, overrides);
        let last = vars.last();
        let entry = env_entry(last.0, last.1);
        if env_entries(vars, overrides).contains(e) {
            if rest.contains(e) {
                let i = choose|i: int|
                    0 <= i < init.len() && !is_overridden(init[i].0, overrides)
                        && !has_nul_byte(env_entry(init[i].0, init[i].1))
                        && e == #[trigger] env_entry(init[i].0, init[i].1);
                assert(vars[i] == init[i]);
            } else {
                let k = choose|k: int| 0 <= k < rest.push(entry).len() && rest.push(entry)[k] == e;
                assert(k == rest.len());
                assert(e == env_entry(vars[vars.len() - 1].0, vars[vars.len() - 1].1));
            }
        }
        if exists|i: int|
            0 <= i < vars.len() && !is_overridden(vars[i].0, overrides)
                && !has_nul_byte(env_entry(vars[i].0, vars[i].1))
                && e == #[trigger] env_entry(vars[i].0, vars[i].1) {
            let i = choose|i: int|
                0 <= i < vars.len() && !is_overridden(vars[i].0, overrides)
                    && !has_nul_byte(env_entry(vars[i].0, vars[i].1))
                    && e == #[trigger] env_entry(vars[i].0, vars[i].1);
            if i < init.len() {
                assert(init[i] == vars[i]);
                assert(rest.contains(e));
                let k = choose|k: int| 0 <= k < rest.len() && rest[k] == e;
                if !(is_overridden(last.0, overrides) || has_nul_byte(entry)) {
                    assert(rest.push(entry)[k] == e);
                }
            } else {
                assert(rest.push(entry)[rest.len() as int] == e);
            }
        }
    }
}

/// The child inherits the current environment with the overrides added or
/// overriding: an entry of the child comes from an override or from a
/// current variable that no override names, and every NUL-free override is
/// present.
pub proof fn lemma_overrides_replace_inherited(
    current: Seq<(Seq<char>, Seq<char>)>,
    overrides: Seq<(Seq<char>, Seq<char>)>,
)
    ensures
        forall|e: Seq<char>| #[trigger] child_environment(current, Some(overrides)).contains(e) ==> {
            ||| exists|i: int| 0 <= i < overrides.len()
                && e == #[trigger] env_entry(overrides[i].0, overrides[i].1)
            ||| exists|i: int| 0 <= i < current.len() && !is_overridden(current[i].0, overrides)
                && e == #[trigger] env_entry(current[i].0, current[i].1)
        },
        forall|i: int| 0 <= i < overrides.len()
            && !has_nul_byte(#[trigger] env_entry(overrides[i].0, overrides[i].1))
            ==> child_environment(current, Some(overrides)).contains(env_entry(overrides[i].0, overrides[i].1)),
{
    let inherited = env_entries(current, overrides);
    let added = env_entries(overrides, Seq::empty());
    assert forall|e: Seq<char>| #[trigger] child_environment(current, Some(overrides)).contains(e) implies {
        ||| exists|i: int| 0 <= i < overrides.len()
            && e == #[trigger] env_entry(overrides[i].0, overrides[i].1)
        ||| exists|i: int| 0 <= i < current.len() && !is_overridden(current[i].0, overrides)
            && e == #[trigger] env_entry(current[i].0, current[i].1)
    } by {
        let all = inherited + added;
        let k = choose|k: int| 0 <= k < all.len() && all[k] == e;
        lemma_env_entries_membership(current, overrides, e);
        lemma_env_entries_membership(overrides, Seq::empty(), e);
        if k < inherited.len() {
            assert(inherited[k] == e);
            assert(inherited.contains(e));
        } else {
            assert(added[k - inherited.len()] == e);
            assert(added.contains(e));
        }
    }
    assert forall|i: int| 0 <= i < overrides.len()
        && !has_nul_byte(#[trigger] env_entry(overrides[i].0, overrides[i].1))
        implies child_environment(current, Some(overrides)).contains(env_entry(overrides[i].0, overrides[i].1)) by {
        let e = env_entry(overrides[i].0, overrides[i].1);
        lemma_env_entries_membership(overrides, Seq::empty(), e);
        assert(!is_overridden(overrides[i].0, Seq::empty()));
        assert(added.contains(e));
        let k = choose|k: int| 0 <= k < added.len() && added[k] == e;
        assert((inherited + added)[inherited.len() + k] == e);
    }
}

/// A current variable whose key no override has, exactly, is inherited
/// (when its `key=value` entry is NUL-free): an override only replaces a
/// variable of the very same key.
pub proof fn lemma_other_keys_inherited(
    current: Seq<(Seq<char>, Seq<char>)>,
    overrides: Seq<(Seq<char>, Seq<char>)>,
    j: int,
)
    requires
        0 <= j < current.len(),
        forall|i: int| 0 <= i < overrides.len() ==> overrides[i].0 != current[j].0,
        !encode_utf8(current[j].0 + "="@ + current[j].1).contains(0u8),
    ensures
        child_environment(current, Some(overrides)).contains(current[j].0 + "="@ + current[j].1),
{
    let e = current[j].0 + "="@ + current[j].1;
    lemma_env_entries_membership(current, overrides, e);
    assert(!is_overridden(current[j].0, overrides));
    assert(e == env_entry(current[j].0, current[j].1));
    let inherited = env_entries(current, overrides);
    let k = choose|k: int| 0 <= k < inherited.len() && inherited[k] == e;
    assert((inherited + env_entries(overrides, Seq::empty()))[k] == e);
}

/// Without overrides the child inherits the whole environment, in order:
/// when no entry holds a NUL byte, the child's `k`-th entry is `key=value` of
/// the `k`-th current variable, and there are as many entries as variables.
pub proof fn lemma_whole_environment_inherited(current: Seq<(Seq<char>, Seq<char>)>)
    requires
        forall|j: int| 0 <= j < current.len()
            ==> !encode_utf8(#[trigger] current[j].0 + "="@ + current[j].1).contains(0u8),
    ensures
        child_environment(current, None).len() == current.len(),
        forall|j: int| 0 <= j < current.len()
            ==> #[trigger] child_environment(current, None)[j] == current[j].0 + "="@ + current[j].1,
    decreases current.len(),
{
    if current.len() > 0 {
        let init = current.drop_last();
        assert forall|j: int| 0 <= j < init.len()
            implies !encode_utf8(#[trigger] init[j].0 + "="@ + init[j].1).contains(0u8) by {
            assert(init[j] == current[j]);
        }
        lemma_whole_environment_inherited(init);
        let last = current.last();
        assert(!encode_utf8(current[current.len() - 1].0 + "="@ + current[current.len() - 1].1).contains(0u8));
        assert(!is_overridden(last.0, Seq::empty()));
        assert forall|j: int| 0 <= j < current.len()
            implies #[trigger] child_environment(current, None)[j] == current[j].0 + "="@ + current[j].1 by {
            if j < init.len() {
                assert(init[j] == current[j]);
                assert(child_environment(init, None)[j] == init[j].0 + "="@ + init[j].1);
            }
        }
    }
}

/// The overrides come last, in the order given: when no entry holds a NUL
/// byte, the child's environment ends with `key=value` of each override.
pub proof fn lemma_overrides_come_last(
    current: Seq<(Seq<char>, Seq<char>)>,
    overrides: Seq<(Seq<char>, Seq<char>)>,
)
    requires
        forall|j: int| 0 <= j < overrides.len()
            ==> !encode_utf8(#[trigger] overrides[j].0 + "="@ + overrides[j].1).contains(0u8),
    ensures
        child_environment(current, Some(overrides)).len() >= overrides.len(),
        forall|j: int| 0 <= j < overrides.len()
            ==> #[trigger] child_environment(current, Some(overrides))[
                child_environment(current, Some(overrides)).len() - overrides.len() + j
            ] == overrides[j].0 + "="@ + overrides[j].1,
{
    lemma_whole_environment_inherited(overrides);
    let inherited = env_entries(current, overrides);
    let added = env_entries(overrides, Seq::empty());
    assert(added == child_environment(overrides, None));
    assert forall|j: int| 0 <= j < overrides.len()
        implies #[trigger] child_environment(current, Some(overrides))[
            child_environment(current, Some(overrides)).len() - overrides.len() + j
        ] == overrides[j].0 + "="@ + overrides[j].1 by {
        assert((inherited + added)[inherited.len() + j] == added[j]);
        assert(added[j] == child_environment(overrides, None)[j]);
    }
}

/// Without overrides, every NUL-free `key=value` entry of the current
/// environment is in the child's environment.
pub proof fn lemma_inherited_without_overrides(current: Seq<(Seq<char>, Seq<char>)>, j: int)
    requires
        0 <= j < current.len(),
        !encode_utf8(current[j].0 + "="@ + current[j].1).contains(0u8),
    ensures
        child_environment(current, None).contains(current[j].0 + "="@ + current[j].1),
{
    let e = current[j].0 + "="@ + current[j].1;
    lemma_env_entries_membership(current, Seq::empty(), e);
    assert(!is_overridden(current[j].0, Seq::empty()));
    assert(e == env_entry(current[j].0, current[j].1));
}

/// Whether the UTF-8 encoding of `s` holds a NUL byte.
pub fn contains_nul(s: &str) -> (r: bool)
    ensures
        r == has_nul_byte(s@),
{
    let bytes = s.as_bytes();
    let n = bytes.len();
    for i in 0..n
        invariant
            n == bytes@.len(),
            bytes@ == encode_utf8(s@),
            forall|j: int| 0 <= j < i ==> bytes@[j] != 0u8,
    {
        if bytes[i] == 0u8 {
            assert(bytes@[i as int] == 0u8);
            return true;
        }
    }
    false
}

fn key_overridden(key: &String, overrides: &Vec<(String, String)>) -> (r: bool)
    ensures
        r == is_overridden(key@, pair_views(overrides@)),
{
    let n = overrides.len();
    for i in 0..n
        invariant
            n == overrides@.len(),
            forall|j: int| 0 <= j < i ==> pair_views(overrides@)[j].0 != key@,
    {
        if overrides[i].0 == *key {
            assert(pair_views(overrides@)[i as int].0 == key@);
            return true;
        }
    }
    proof {
        if is_overridden(key@, pair_views(overrides@)) {
            let i = choose|i: int| 0 <= i < pair_views(overrides@).len()
                && #[trigger] pair_views(overrides@)[i].0 == key@;
        }
    }
    false
}

/// Appends to `out` the entries of `vars` that `env_entries` keeps.
fn push_entries(out: &mut Vec<String>, vars: &Vec<(String, String)>, overrides: &Vec<(String, String)>)
    ensures
        string_views(final(out)@) == string_views(old(out)@) + env_entries(pair_views(vars@), pair_views(overrides@)),
{
    let n = vars.len();
    let ghost base = string_views(out@);
    let ghost pv = pair_views(vars@);
    let ghost ov = pair_views(overrides@);
    assert(pv.take(0) =~= Seq::<(Seq<char>, Seq<char>)>::empty());
    assert(string_views(out@) =~= base + env_entries(pv.take(0), ov));
    for i in 0..n
        invariant
            n == vars@.len(),
            pv == pair_views(vars@),
            ov == pair_views(overrides@),
            string_views(out@) == base + env_entries(pv.take(i as int), ov),
    {
        let ghost before = out@;
        let key = &vars[i].0;
        let value = &vars[i].1;
        assert(pv.take(i + 1).drop_last() =~= pv.take(i as int));
        assert(pv.take(i + 1).last() == (key@, value@));
        let overridden = key_overridden(key, overrides);
        let mut entry = key.clone();
        entry.append("=");
        entry.append(value.as_str());
        assert(entry@ == env_entry(key@, value@));
        let nul = contains_nul(entry.as_str());
        if !overridden && !nul {
            out.push(entry);
            assert(string_views(out@) =~= string_views(before).push(env_entry(key@, value@)));
        }
    }
    assert(pv.take(n as int) =~= pv);
}

/// The environment for the child, as `key=value` C strings: the `current`
/// environment without the variables that `overrides` names, followed by the
/// overrides. A variable whose entry holds a NUL byte is dropped.
pub fn build_env_cstrings(
    current: &Vec<(String, String)>,
    overrides: Option<&Vec<(String, String)>>,
) -> (env: Vec<String>)
    ensures
        string_views(env@) == child_environment(
            pair_views(current@),
            match overrides { Some(o) => Some(pair_views(o@)), None => None },
        ),
{
    let mut env: Vec<String> = Vec::new();
    assert(string_views(env@) =~= Seq::<Seq<char>>::empty());
    match overrides {
        None => {
            let none: Vec<(String, String)> = Vec::new();
            assert(pair_views(none@) =~= Seq::<(Seq<char>, Seq<char>)>::empty());
            push_entries(&mut env, current, &none);
        },
        Some(o) => {
            let none: Vec<(String, String)> = Vec::new();
            assert(pair_views(none@) =~= Seq::<(Seq<char>, Seq<char>)>::empty());
            push_entries(&mut env, current, o);
            push_entries(&mut env, o, &none);
        },
    }
    env
}

} // verus!
