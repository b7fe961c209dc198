//! Choosing the newest Android NDK among the versions installed side by side
//! (`$ANDROID_HOME/ndk/<version>`).
use vstd::prelude::*;
use vstd::string::*;
use crate::text::{split_on, split_str, to_chars, views};
use crate::toolchain::{joined_path, path_join};

verus! {

/// Whether `c` is an ASCII digit.
pub open spec fn is_digit(c: char) -> bool {
    '0' <= c && c <= '9'
}

/// The value of a run of decimal digits.
pub open spec fn digits_value(d: Seq<char>) -> nat
    decreases d.len(),
{
    if d.len() == 0 {
        0
    } else {
        digits_value(d.drop_last()) * 10 + ((d.last() as int) - 48) as nat
    }
}

/// Whether every character of `d` is a digit.
pub open spec fn all_digits(d: Seq<char>) -> bool {
    forall|i: int| 0 <= i < d.len() ==> is_digit(#[trigger] d[i])
}

/// What `str::parse::<u64>` accepts: an optional `+`, then one or more digits whose value
/// fits in a `u64`.
pub open spec fn spec_parse_u64(s: Seq<char>) -> Option<u64> {
    let d = if s.len() > 0 && s[0] == '+' {
        s.drop_first()
    } else {
        s
    };
    if d.len() > 0 && all_digits(d) && digits_value(d) <= u64::MAX {
        Some(digits_value(d) as u64)
    } else {
        None
    }
}

/// The version of an NDK directory name: its dot-separated parts as numbers, if every part
/// is one.
pub open spec fn spec_version_key(name: Seq<char>) -> Option<Seq<u64>> {
    let parts = split_on(name, '.');
    if forall|i: int| 0 <= i < parts.len() ==> (#[trigger] spec_parse_u64(parts[i])) is Some {
        Some(
            parts.map_values(
                |p: Seq<char>|
                    match spec_parse_u64(p) {
                        Some(v) => v,
                        None => 0,
                    },
            ),
        )
    } else {
        None
    }
}

/// Lexicographic order of versions (the order of `Vec<u64>`).
pub open spec fn lex_lt(a: Seq<u64>, b: Seq<u64>) -> bool
    decreases a.len(),
{
    if a.len() == 0 {
        b.len() > 0
    } else if b.len() == 0 {
        false
    } else if a[0] < b[0] {
        true
    } else if a[0] > b[0] {
        false
    } else {
        lex_lt(a.drop_first(), b.drop_first())
    }
}

pub open spec fn lex_le(a: Seq<u64>, b: Seq<u64>) -> bool {
    a == b || lex_lt(a, b)
}

/// Whether entry `i` of `names` is the newest NDK: its name is a version, no version is
/// newer, and no later entry has the same version (of equal versions the last one wins).
pub open spec fn is_latest(names: Seq<Seq<char>>, i: int) -> bool {
    &&& 0 <= i < names.len()
    &&& spec_version_key(names[i]) is Some
    &&& forall|j: int|
        0 <= j < names.len() && (#[trigger] spec_version_key(names[j])) is Some ==> {
            &&& lex_le(spec_version_key(names[j])->0, spec_version_key(names[i])->0)
            &&& (j > i ==> lex_lt(spec_version_key(names[j])->0, spec_version_key(names[i])->0))
        }
}

/// Whether some entry of `names` is a version.
pub open spec fn has_version(names: Seq<Seq<char>>) -> bool {
    exists|j: int| 0 <= j < names.len() && (#[trigger] spec_version_key(names[j])) is Some
}

pub proof fn lemma_lex_lt_irreflexive(a: Seq<u64>)
    ensures
        !lex_lt(a, a),
    decreases a.len(),
{
    if a.len() > 0 {
        lemma_lex_lt_irreflexive(a.drop_first());
    }
}

pub proof fn lemma_lex_lt_asymmetric(a: Seq<u64>, b: Seq<u64>)
    ensures
        lex_lt(a, b) ==> !lex_lt(b, a),
    decreases a.len(),
{
    if a.len() > 0 && b.len() > 0 {
        lemma_lex_lt_asymmetric(a.drop_first(), b.drop_first());
    }
}

pub proof fn lemma_lex_lt_trichotomy(a: Seq<u64>, b: Seq<u64>)
    ensures
        lex_lt(a, b) || a == b || lex_lt(b, a),
    decreases a.len(),
{
    if a.len() > 0 && b.len() > 0 {
        lemma_lex_lt_trichotomy(a.drop_first(), b.drop_first());
        if a[0] == b[0] && a.drop_first() == b.drop_first() {
            assert(a =~= seq![a[0]] + a.drop_first());
            assert(b =~= seq![b[0]] + b.drop_first());
        }
    } else if a.len() == 0 && b.len() == 0 {
        assert(a =~= b);
    }
}

pub proof fn lemma_lex_lt_transitive(a: Seq<u64>, b: Seq<u64>, c: Seq<u64>)
    requires
        lex_lt(a, b),
        lex_lt(b, c),
    ensures
        lex_lt(a, c),
    decreases a.len(),
{
    if a.len() > 0 && b.len() > 0 && c.len() > 0 {
        if a[0] == b[0] && b[0] == c[0] {
            lemma_lex_lt_transitive(a.drop_first(), b.drop_first(), c.drop_first());
        }
    }
}

proof fn lemma_lex_le_transitive(a: Seq<u64>, b: Seq<u64>, c: Seq<u64>)
    requires
        lex_le(a, b),
        lex_le(b, c),
    ensures
        lex_le(a, c),
{
    if lex_lt(a, b) && lex_lt(b, c) {
        lemma_lex_lt_transitive(a, b, c);
    }
}

proof fn lemma_lex_lt_step(a: Seq<u64>, b: Seq<u64>, i: int)
    requires
        0 <= i < a.len(),
        i < b.len(),
        a[i] == b[i],
    ensures
        lex_lt(a.skip(i), b.skip(i)) == lex_lt(a.skip(i + 1), b.skip(i + 1)),
{
    assert(a.skip(i).drop_first() =~= a.skip(i + 1));
    assert(b.skip(i).drop_first() =~= b.skip(i + 1));
}

/// Whether version `a` is older than version `b`.
fn version_lt(a: &Vec<u64>, b: &Vec<u64>) -> (r: bool)
    ensures
        r == lex_lt(a@, b@),
{
    let mut i: usize = 0;
    assert(a@.skip(0) =~= a@);
    assert(b@.skip(0) =~= b@);
    while i < a.len() && i < b.len()
        invariant
            i <= a@.len(),
            i <= b@.len(),
            lex_lt(a@, b@) == lex_lt(a@.skip(i as int), b@.skip(i as int)),
        decreases a@.len() - i,
    {
        if a[i] < b[i] {
            return true;
        }
        if a[i] > b[i] {
            return false;
        }
        proof {
            lemma_lex_lt_step(a@, b@, i as int);
        }
        i = i + 1;
    }
    i < b.len()
}

proof fn lemma_digits_value_prefix(d: Seq<char>, k: int)
    requires
        0 <= k <= d.len(),
    ensures
        digits_value(d.take(k)) <= digits_value(d),
    decreases d.len(),
{
    if k < d.len() {
        assert(d.drop_last().take(k) =~= d.take(k));
        lemma_digits_value_prefix(d.drop_last(), k);
    } else {
        assert(d.take(k) =~= d);
    }
}

/// Parses a decimal number as `str::parse::<u64>` does.
pub fn parse_u64(s: &str) -> (r: Option<u64>)
    ensures
        r == spec_parse_u64(s@),
{
    let cs = to_chars(s);
    let n = cs.len();
    let mut start: usize = 0;
    if n > 0 && cs[0] == '+' {
        start = 1;
    }
    let ghost d = if s@.len() > 0 && s@[0] == '+' {
        s@.drop_first()
    } else {
        s@
    };
    assert(d =~= s@.skip(start as int));
    if start == n {
        return None;
    }
    let mut v: u64 = 0;
    let mut i: usize = start;
    assert(d.take(0) =~= Seq::<char>::empty());
    while i < n
        invariant
            n == cs@.len(),
            cs@ == s@,
            start <= i <= n,
            d =~= s@.skip(start as int),
            d == (if s@.len() > 0 && s@[0] == '+' {
                s@.drop_first()
            } else {
                s@
            }),
            all_digits(d.take(i - start)),
            v == digits_value(d.take(i - start)),
        decreases n - i,
    {
        let c = cs[i];
        let k: usize = i - start;
        assert(d[k as int] == c);
        if !('0' <= c && c <= '9') {
            assert(!all_digits(d));
            return None;
        }
        let dig: u64 = ((c as u32) - 48) as u64;
        assert(d.take(k + 1).drop_last() =~= d.take(k as int));
        assert(d.take(k + 1).last() == c);
        proof {
            lemma_digits_value_prefix(d, k + 1);
        }
        match v.checked_mul(10) {
            Some(m) => match m.checked_add(dig) {
                Some(w) => {
                    v = w;
                },
                None => {
                    return None;
                },
            },
            None => {
                return None;
            },
        }
        assert(all_digits(d.take(k + 1)));
        i = i + 1;
    }
    assert(d.take(n - start) =~= d);
    Some(v)
}

/// The version of an NDK directory name (`None` where a part is not a number).
pub fn version_key(name: &str) -> (r: Option<Vec<u64>>)
    ensures
        r matches Some(v) ==> spec_version_key(name@) == Some(v@),
        r is None ==> spec_version_key(name@) is None,
{
    let parts = split_str(name, '.');
    let ghost ps = split_on(name@, '.');
    let n = parts.len();
    let mut out: Vec<u64> = Vec::new();
    let mut i: usize = 0;
    while i < n
        invariant
            n == parts@.len(),
            views(parts@) == ps,
            ps == split_on(name@, '.'),
            i <= n,
            out@.len() == i,
            forall|j: int| 0 <= j < i ==> (#[trigger] spec_parse_u64(ps[j])) == Some(out@[j]),
        decreases n - i,
    {
        assert(ps[i as int] == parts@[i as int]@);
        match parse_u64(parts[i].as_str()) {
            Some(x) => {
                out.push(x);
            },
            None => {
                return None;
            },
        }
        i = i + 1;
    }
    assert(out@ =~= ps.map_values(
        |p: Seq<char>|
            match spec_parse_u64(p) {
                Some(v) => v,
                None => 0,
            },
    ));
    Some(out)
}

/// Index of the newest NDK among directory names (`None` where no name is a version).
pub fn latest_ndk_index(names: &Vec<String>) -> (r: Option<usize>)
    ensures
        r matches Some(i) ==> is_latest(views(names@), i as int),
        r is None <==> !has_version(views(names@)),
{
    let ghost ns = views(names@);
    let n = names.len();
    let mut best: Option<(usize, Vec<u64>)> = None;
    let mut i: usize = 0;
    while i < n
        invariant
            n == names@.len(),
            ns == views(names@),
            i <= n,
            best is None ==> forall|j: int| 0 <= j < i ==> (#[trigger] spec_version_key(ns[j])) is None,
            best matches Some(b) ==> {
                &&& b.0 < i
                &&& spec_version_key(ns[b.0 as int]) == Some(b.1@)
                &&& forall|j: int|
                    0 <= j < i && (#[trigger] spec_version_key(ns[j])) is Some ==> {
                        &&& lex_le(spec_version_key(ns[j])->0, b.1@)
                        &&& (j > b.0 ==> lex_lt(spec_version_key(ns[j])->0, b.1@))
                    }
            },
        decreases n - i,
    {
        assert(ns[i as int] == names@[i as int]@);
        match version_key(names[i].as_str()) {
            None => {},
            Some(k) => {
                match best {
                    None => {
                        proof {
                            lemma_lex_lt_irreflexive(k@);
                        }
                        best = Some((i, k));
                    },
                    Some(b) => {
                        if version_lt(&k, &b.1) {
                            best = Some(b);
                        } else {
                            proof {
                                lemma_lex_lt_trichotomy(k@, b.1@);
                                lemma_lex_lt_irreflexive(k@);
                                assert forall|j: int|
                                    0 <= j < i + 1 && (#[trigger] spec_version_key(ns[j])) is Some implies lex_le(
                                    spec_version_key(ns[j])->0,
                                    k@,
                                ) by {
                                    if j < i {
                                        lemma_lex_le_transitive(spec_version_key(ns[j])->0, b.1@, k@);
                                    }
                                }
                            }
                            best = Some((i, k));
                        }
                    },
                }
            },
        }
        i = i + 1;
    }
    match best {
        None => {
            assert(!has_version(ns));
            None
        },
        Some(b) => {
            assert(spec_version_key(ns[b.0 as int]) is Some);
            Some(b.0)
        },
    }
}

/// The newest NDK in `ndk_dir`, given the names of its subdirectories: the path of the one
/// whose name is the greatest version (the last of equal versions); `None` where no name is
/// a version.
pub fn latest_ndk_path(ndk_dir: &str, names: &Vec<String>) -> (r: Option<String>)
    ensures
        r matches Some(p) ==> exists|i: int|
            is_latest(views(names@), i) && p@ == joined_path(ndk_dir@, #[trigger] names@[i]@),
        r is None <==> !has_version(views(names@)),
{
    match latest_ndk_index(names) {
        Some(i) => {
            let p = path_join(ndk_dir, names[i].as_str());
            assert(is_latest(views(names@), i as int));
            Some(p)
        },
        None => None,
    }
}

/// At most one entry is the newest.
pub proof fn lemma_latest_unique(names: Seq<Seq<char>>, i: int, j: int)
    requires
        is_latest(names, i),
        is_latest(names, j),
    ensures
        i == j,
{
    if i < j {
        lemma_lex_lt_irreflexive(spec_version_key(names[j])->0);
        assert(lex_lt(spec_version_key(names[j])->0, spec_version_key(names[i])->0));
        lemma_lex_lt_asymmetric(spec_version_key(names[j])->0, spec_version_key(names[i])->0);
    } else if j < i {
        lemma_lex_lt_irreflexive(spec_version_key(names[i])->0);
        assert(lex_lt(spec_version_key(names[i])->0, spec_version_key(names[j])->0));
        lemma_lex_lt_asymmetric(spec_version_key(names[i])->0, spec_version_key(names[j])->0);
    }
}

} // verus!
