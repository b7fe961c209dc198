//! The order in which a project's modules are reported and generated: by module name with
//! letter case ignored, modules whose names compare equal keeping the order they were found in
//! (a stable sort by the lowercase name).
use vstd::prelude::*;
use vstd::string::*;
use crate::analyzer::schemas_view;
use crate::keyed::{
    lemma_str_lt_asymmetric, lemma_str_lt_irreflexive, lemma_str_lt_transitive,
    lemma_str_lt_trichotomy, str_less, str_lt,
};
use crate::parser::{module_view, ModuleSchema, ModuleV};

verus! {

/// What `str::to_lowercase` gives for a text.
pub uninterp spec fn lowercased(s: Seq<char>) -> Seq<char>;

/// `str::to_lowercase`: the text with each character replaced by its Unicode lowercase
/// mapping. Which mapping that is, is only named here.
#[verifier::external_body]
fn to_lowercase(s: &str) -> (r: String)
    ensures
        r@ == lowercased(s@),
{
    s.to_lowercase()
}

/// The key a module is ordered by: its name in lowercase.
pub open spec fn name_key(m: ModuleV) -> Seq<char> {
    lowercased(m.module_name)
}

/// `p` lists each place below `n` once.
pub open spec fn is_permutation(p: Seq<int>, n: int) -> bool {
    &&& p.len() == n
    &&& forall|k: int| 0 <= k < n ==> 0 <= #[trigger] p[k] < n
    &&& forall|a: int, b: int| 0 <= a < b < n ==> #[trigger] p[a] != #[trigger] p[b]
}

/// `out` holds the modules of `input` ordered by `name_key`, those with equal keys in their
/// order in `input`; `p` gives for each place of `out` the place in `input` it comes from.
pub open spec fn stably_sorted_from(out: Seq<ModuleV>, input: Seq<ModuleV>, p: Seq<int>) -> bool {
    &&& out.len() == input.len()
    &&& is_permutation(p, input.len() as int)
    &&& forall|k: int| 0 <= k < out.len() ==> #[trigger] out[k] == input[p[k]]
    &&& forall|a: int, b: int|
        0 <= a < b < out.len() ==> !str_lt(name_key(#[trigger] out[b]), name_key(#[trigger] out[a]))
    &&& forall|a: int, b: int|
        0 <= a < b < out.len() && name_key(#[trigger] out[a]) == name_key(#[trigger] out[b]) ==> p[a] < p[b]
}

/// Orders modules by their lowercase names, keeping the order of modules whose lowercase
/// names are equal.
pub fn sort_by_module_name(schemas: Vec<ModuleSchema>) -> (r: Vec<ModuleSchema>)
    ensures
        exists|p: Seq<int>| stably_sorted_from(schemas_view(r@), schemas_view(schemas@), p),
{
    let ghost input = schemas_view(schemas@);
    let n = schemas.len();
    let mut rest = schemas;
    let mut out: Vec<ModuleSchema> = Vec::new();
    let mut keys: Vec<String> = Vec::new();
    let ghost mut p: Seq<int> = Seq::empty();
    let mut i: usize = 0;
    assert(schemas_view(rest@) =~= input.skip(0));
    while i < n
        invariant
            i <= n,
            n == input.len(),
            schemas_view(rest@) == input.skip(i as int),
            rest@.len() == n - i,
            out@.len() == i,
            keys@.len() == i,
            p.len() == i,
            forall|k: int| 0 <= k < i ==> 0 <= #[trigger] p[k] < i,
            forall|a: int, b: int| 0 <= a < b < i ==> #[trigger] p[a] != #[trigger] p[b],
            forall|k: int| 0 <= k < i ==> module_view(#[trigger] out@[k]) == input[p[k]],
            forall|k: int| 0 <= k < i ==> (#[trigger] keys@[k])@ == name_key(input[p[k]]),
            forall|a: int, b: int| 0 <= a < b < i ==> !str_lt((#[trigger] keys@[b])@, (#[trigger] keys@[a])@),
            forall|a: int, b: int|
                0 <= a < b < i && (#[trigger] keys@[a])@ == (#[trigger] keys@[b])@ ==> p[a] < p[b],
        decreases n - i,
    {
        assert(input.skip(i as int)[0] == input[i as int]);
        let ghost before = rest@;
        assert(module_view(before[0]) == input[i as int]);
        let x = rest.remove(0);
        assert forall|k: int| 0 <= k < rest@.len() implies schemas_view(rest@)[k] == input.skip(i + 1)[k] by {
            assert(rest@[k] == before[k + 1]);
            assert(schemas_view(before)[k + 1] == input.skip(i as int)[k + 1]);
        }
        assert(schemas_view(rest@) =~= input.skip(i + 1));
        let kx = to_lowercase(x.module_name.as_str());
        assert(kx@ == name_key(input[i as int]));
        let mut pos: usize = 0;
        while pos < keys.len() && !str_less(kx.as_str(), keys[pos].as_str())
            invariant
                pos <= keys@.len(),
                forall|a: int| 0 <= a < pos ==> !str_lt(kx@, (#[trigger] keys@[a])@),
            decreases keys@.len() - pos,
        {
            pos = pos + 1;
        }
        let ghost old_keys = keys@;
        let ghost old_p = p;
        let ghost old_out = out@;
        assert(pos < old_keys.len() ==> str_lt(kx@, old_keys[pos as int]@));
        out.insert(pos, x);
        keys.insert(pos, kx);
        proof {
            p = old_p.insert(pos as int, i as int);
            assert forall|k: int| 0 <= k < i + 1 implies 0 <= #[trigger] p[k] < i + 1 by {
                if k < pos {
                    assert(p[k] == old_p[k]);
                } else if k > pos {
                    assert(p[k] == old_p[k - 1]);
                }
            }
            assert forall|a: int, b: int| 0 <= a < b < i + 1 implies #[trigger] p[a] != #[trigger] p[b] by {
                if a != pos && b != pos {
                    let oa = if a < pos { a } else { a - 1 };
                    let ob = if b < pos { b } else { b - 1 };
                    assert(p[a] == old_p[oa]);
                    assert(p[b] == old_p[ob]);
                } else if a == pos {
                    assert(p[b] == old_p[b - 1]);
                } else {
                    assert(p[a] == old_p[a]);
                }
            }
            assert forall|k: int| 0 <= k < i + 1 implies module_view(#[trigger] out@[k]) == input[p[k]] by {
                if k < pos {
                    assert(out@[k] == old_out[k]);
                } else if k > pos {
                    assert(out@[k] == old_out[k - 1]);
                }
            }
            assert forall|k: int| 0 <= k < i + 1 implies (#[trigger] keys@[k])@ == name_key(input[p[k]]) by {
                if k < pos {
                    assert(keys@[k] == old_keys[k]);
                } else if k > pos {
                    assert(keys@[k] == old_keys[k - 1]);
                }
            }
            assert forall|a: int, b: int| 0 <= a < b < i + 1 implies !str_lt((#[trigger] keys@[b])@, (#[trigger] keys@[a])@) by {
                if a != pos && b != pos {
                    let oa = if a < pos { a } else { a - 1 };
                    let ob = if b < pos { b } else { b - 1 };
                    assert(keys@[a] == old_keys[oa]);
                    assert(keys@[b] == old_keys[ob]);
                } else if b == pos {
                    assert(keys@[a] == old_keys[a]);
                } else {
                    // a == pos < b: kx sorts before old_keys[pos] <= old_keys[b - 1].
                    assert(keys@[b] == old_keys[b - 1]);
                    lemma_key_after(old_keys, kx@, pos as int, b - 1);
                    lemma_str_lt_asymmetric(kx@, old_keys[b - 1]@);
                }
            }
            assert forall|a: int, b: int|
                0 <= a < b < i + 1 && (#[trigger] keys@[a])@ == (#[trigger] keys@[b])@ implies p[a] < p[b] by {
                if a != pos && b != pos {
                    let oa = if a < pos { a } else { a - 1 };
                    let ob = if b < pos { b } else { b - 1 };
                    assert(keys@[a] == old_keys[oa]);
                    assert(keys@[b] == old_keys[ob]);
                    assert(p[a] == old_p[oa]);
                    assert(p[b] == old_p[ob]);
                } else if b == pos {
                    assert(p[a] == old_p[a]);
                } else {
                    assert(keys@[b] == old_keys[b - 1]);
                    lemma_key_after(old_keys, kx@, pos as int, b - 1);
                    lemma_str_lt_irreflexive(kx@);
                }
            }
        }
        i = i + 1;
    }
    proof {
        let r = schemas_view(out@);
        assert forall|k: int| 0 <= k < r.len() implies #[trigger] r[k] == input[p[k]] by {
            assert(r[k] == module_view(out@[k]));
        }
        assert forall|a: int, b: int| 0 <= a < b < r.len() implies !str_lt(name_key(#[trigger] r[b]), name_key(#[trigger] r[a])) by {
            assert(keys@[a]@ == name_key(r[a]));
            assert(keys@[b]@ == name_key(r[b]));
        }
        assert forall|a: int, b: int| 0 <= a < b < r.len() && name_key(#[trigger] r[a]) == name_key(#[trigger] r[b]) implies p[a] < p[b] by {
            assert(keys@[a]@ == name_key(r[a]));
            assert(keys@[b]@ == name_key(r[b]));
        }
        assert(stably_sorted_from(r, input, p));
    }
    out
}

/// In keys sorted ascending, a key that sorts before the one at `pos` sorts before every key
/// from `pos` on.
proof fn lemma_key_after(keys: Seq<String>, k: Seq<char>, pos: int, j: int)
    requires
        0 <= pos <= j < keys.len(),
        str_lt(k, keys[pos]@),
        forall|a: int, b: int| 0 <= a < b < keys.len() ==> !str_lt((#[trigger] keys[b])@, (#[trigger] keys[a])@),
    ensures
        str_lt(k, keys[j]@),
{
    if j > pos {
        assert(!str_lt(keys[j]@, keys[pos]@));
        lemma_str_lt_trichotomy(keys[j]@, keys[pos]@);
        if keys[j]@ != keys[pos]@ {
            lemma_str_lt_transitive(k, keys[pos]@, keys[j]@);
        }
    }
}

} // verus!
