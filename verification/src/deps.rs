//! The order in which the C++ structs of a module's type aliases are declared: each after
//! the aliases that its properties use.
use vstd::prelude::*;
use vstd::string::*;
use crate::schema::{Alias, AliasProperty, CodegenError, Schema, TypeAnnotation};
use crate::text::{str_eq, views};

verus! {

/// The type aliases that a type names, directly or as the element or inner type of arrays
/// and nullables.
pub open spec fn spec_type_refs(t: TypeAnnotation) -> Seq<Seq<char>>
    decreases t,
{
    match t {
        TypeAnnotation::TypeAliasTypeAnnotation { name } => seq![name@],
        TypeAnnotation::ArrayTypeAnnotation { element_type } => spec_type_refs(*element_type),
        TypeAnnotation::NullableTypeAnnotation { type_annotation } => spec_type_refs(*type_annotation),
        _ => Seq::empty(),
    }
}

/// The type aliases that the properties of an alias use, in order.
pub open spec fn spec_props_deps(ps: Seq<AliasProperty>) -> Seq<Seq<char>>
    decreases ps.len(),
{
    if ps.len() == 0 {
        Seq::empty()
    } else {
        spec_props_deps(ps.drop_last()) + spec_type_refs(*ps.last().type_annotation)
    }
}

/// The names of the schema's type aliases, in the map's order.
pub open spec fn alias_keys(s: Schema) -> Seq<Seq<char>> {
    s.alias_map@.map_values(|e: (String, Alias)| e.0@)
}

/// The dependencies of alias number `i`.
pub open spec fn alias_deps(s: Schema, i: int) -> Seq<Seq<char>> {
    spec_props_deps(s.alias_map@[i].1.properties@)
}

/// Whether alias number `i` can be declared after the aliases `placed`: it is not among
/// them, and every alias it uses is.
pub open spec fn is_ready(s: Schema, placed: Seq<Seq<char>>, i: int) -> bool {
    &&& !placed.contains(alias_keys(s)[i])
    &&& forall|k: int|
        0 <= k < alias_deps(s, i).len() && alias_keys(s).contains(#[trigger] alias_deps(s, i)[k])
            ==> placed.contains(alias_deps(s, i)[k])
}

/// The first alias, from number `i` on, that is ready.
pub open spec fn first_ready_from(s: Schema, placed: Seq<Seq<char>>, i: int) -> Option<int>
    decreases s.alias_map@.len() - i,
{
    if i < 0 || i >= s.alias_map@.len() {
        None
    } else if is_ready(s, placed, i) {
        Some(i)
    } else {
        first_ready_from(s, placed, i + 1)
    }
}

/// The declaration order that follows `placed`: each time the first ready alias goes next;
/// `CyclicDependency` where aliases remain and none is ready.
pub open spec fn deps_order_from(s: Schema, placed: Seq<Seq<char>>) -> Result<Seq<Seq<char>>, CodegenError>
    decreases s.alias_map@.len() - placed.len(),
{
    if placed.len() >= s.alias_map@.len() {
        Ok(placed)
    } else {
        match first_ready_from(s, placed, 0) {
            None => Err(CodegenError::CyclicDependency),
            Some(i) => deps_order_from(s, placed.push(alias_keys(s)[i])),
        }
    }
}

/// The declaration order of the schema's aliases.
pub open spec fn spec_deps_order(s: Schema) -> Result<Seq<Seq<char>>, CodegenError> {
    deps_order_from(s, Seq::empty())
}

/// Whether the alias names are distinct (as the keys of a map are).
pub open spec fn keys_distinct(s: Schema) -> bool {
    forall|i: int, j: int|
        0 <= i < j < s.alias_map@.len() ==> #[trigger] s.alias_map@[i].0@ != #[trigger] s.alias_map@[j].0@
}

/// Whether `order` declares every alias exactly once, each after the aliases it uses.
pub open spec fn is_declaration_order(s: Schema, order: Seq<Seq<char>>) -> bool {
    &&& order.len() == s.alias_map@.len()
    &&& order.no_duplicates()
    &&& forall|i: int| 0 <= i < s.alias_map@.len() ==> order.contains(#[trigger] alias_keys(s)[i])
    &&& forall|i: int, p: int, k: int|
        #![trigger order[p], alias_deps(s, i)[k]]
        0 <= i < s.alias_map@.len() && 0 <= p < order.len() && order[p] == alias_keys(s)[i] && 0 <= k
            < alias_deps(s, i).len() && alias_keys(s).contains(alias_deps(s, i)[k]) ==> order.take(p).contains(
            alias_deps(s, i)[k],
        )
}

/// The type aliases that a type names.
fn type_refs(t: &TypeAnnotation) -> (r: Vec<String>)
    ensures
        views(r@) == spec_type_refs(*t),
    decreases t,
{
    match t {
        TypeAnnotation::TypeAliasTypeAnnotation { name } => {
            let mut r: Vec<String> = Vec::new();
            r.push(name.clone());
            assert(views(r@) =~= seq![name@]);
            r
        },
        TypeAnnotation::ArrayTypeAnnotation { element_type } => type_refs(element_type),
        TypeAnnotation::NullableTypeAnnotation { type_annotation } => type_refs(type_annotation),
        _ => {
            let r: Vec<String> = Vec::new();
            assert(views(r@) =~= Seq::<Seq<char>>::empty());
            r
        },
    }
}

/// The type aliases that the properties of an alias use.
fn props_deps(ps: &Vec<AliasProperty>) -> (r: Vec<String>)
    ensures
        views(r@) == spec_props_deps(ps@),
{
    let n = ps.len();
    let mut out: Vec<String> = Vec::new();
    let mut i: usize = 0;
    assert(views(out@) =~= spec_props_deps(ps@.take(0)));
    while i < n
        invariant
            n == ps@.len(),
            i <= n,
            views(out@) == spec_props_deps(ps@.take(i as int)),
        decreases n - i,
    {
        assert(ps@.take(i + 1).drop_last() =~= ps@.take(i as int));
        let mut refs = type_refs(&ps[i].type_annotation);
        let ghost a = views(out@);
        let ghost b = views(refs@);
        out.append(&mut refs);
        assert(views(out@) =~= a + b);
        i = i + 1;
    }
    assert(ps@.take(n as int) =~= ps@);
    out
}

/// Whether `names` holds `x`.
fn names_contain(names: &Vec<String>, x: &str) -> (r: bool)
    ensures
        r == views(names@).contains(x@),
{
    let n = names.len();
    let mut i: usize = 0;
    while i < n
        invariant
            n == names@.len(),
            i <= n,
            forall|j: int| 0 <= j < i ==> names@[j]@ != x@,
        decreases n - i,
    {
        if str_eq(names[i].as_str(), x) {
            assert(views(names@)[i as int] == x@);
            return true;
        }
        i = i + 1;
    }
    assert(!views(names@).contains(x@)) by {
        if views(names@).contains(x@) {
            let j = choose|j: int| 0 <= j < views(names@).len() && views(names@)[j] == x@;
            assert(names@[j]@ == x@);
        }
    }
    false
}

/// Whether alias number `i` is ready, given the names already placed.
fn ready(schema: &Schema, keys: &Vec<String>, deps: &Vec<String>, placed: &Vec<String>, i: usize) -> (r: bool)
    requires
        i < schema.alias_map@.len(),
        views(keys@) == alias_keys(*schema),
        views(deps@) == alias_deps(*schema, i as int),
    ensures
        r == is_ready(*schema, views(placed@), i as int),
{
    if names_contain(placed, schema.alias_map[i].0.as_str()) {
        return false;
    }
    let m = deps.len();
    let mut k: usize = 0;
    while k < m
        invariant
            m == deps@.len(),
            k <= m,
            views(keys@) == alias_keys(*schema),
            views(deps@) == alias_deps(*schema, i as int),
            forall|q: int|
                0 <= q < k && alias_keys(*schema).contains(#[trigger] alias_deps(*schema, i as int)[q])
                    ==> views(placed@).contains(alias_deps(*schema, i as int)[q]),
        decreases m - k,
    {
        assert(views(deps@)[k as int] == deps@[k as int]@);
        if names_contain(keys, deps[k].as_str()) && !names_contain(placed, deps[k].as_str()) {
            return false;
        }
        k = k + 1;
    }
    true
}

/// The order in which the C++ structs of the schema's type aliases are declared: each time
/// the first alias (in the map's order) all of whose used aliases are declared goes next;
/// `CyclicDependency` where the remaining aliases use each other.
pub fn calc_deps_order(schema: &Schema) -> (r: Result<Vec<String>, CodegenError>)
    ensures
        r matches Ok(v) ==> spec_deps_order(*schema) == Ok::<Seq<Seq<char>>, CodegenError>(views(v@)),
        r matches Err(e) ==> spec_deps_order(*schema) == Err::<Seq<Seq<char>>, CodegenError>(e),
{
    let n = schema.alias_map.len();
    let mut keys: Vec<String> = Vec::new();
    let mut all_deps: Vec<Vec<String>> = Vec::new();
    let mut i: usize = 0;
    while i < n
        invariant
            n == schema.alias_map@.len(),
            i <= n,
            keys@.len() == i,
            all_deps@.len() == i,
            forall|j: int| 0 <= j < i ==> (#[trigger] keys@[j])@ == alias_keys(*schema)[j],
            forall|j: int| 0 <= j < i ==> views((#[trigger] all_deps@[j])@) == alias_deps(*schema, j),
        decreases n - i,
    {
        keys.push(schema.alias_map[i].0.clone());
        all_deps.push(props_deps(&schema.alias_map[i].1.properties));
        i = i + 1;
    }
    assert(views(keys@) =~= alias_keys(*schema));
    let mut placed: Vec<String> = Vec::new();
    assert(views(placed@) =~= Seq::<Seq<char>>::empty());
    while placed.len() < n
        invariant
            n == schema.alias_map@.len(),
            views(keys@) == alias_keys(*schema),
            all_deps@.len() == n,
            forall|j: int| 0 <= j < n ==> views((#[trigger] all_deps@[j])@) == alias_deps(*schema, j),
            spec_deps_order(*schema) == deps_order_from(*schema, views(placed@)),
        decreases n - placed@.len(),
    {
        let mut j: usize = 0;
        let mut found = false;
        while j < n
            invariant_except_break
                n == schema.alias_map@.len(),
                views(keys@) == alias_keys(*schema),
                all_deps@.len() == n,
                forall|q: int| 0 <= q < n ==> views((#[trigger] all_deps@[q])@) == alias_deps(*schema, q),
                j <= n,
                !found,
                first_ready_from(*schema, views(placed@), 0) == first_ready_from(*schema, views(placed@), j as int),
            ensures
                j <= n,
                found ==> j < n && first_ready_from(*schema, views(placed@), 0) == Some(j as int),
                !found ==> first_ready_from(*schema, views(placed@), 0) is None,
            decreases n - j,
        {
            if ready(schema, &keys, &all_deps[j], &placed, j) {
                found = true;
                break;
            }
            j = j + 1;
        }
        if !found {
            return Err(CodegenError::CyclicDependency);
        }
        let ghost before = views(placed@);
        placed.push(keys[j].clone());
        assert(views(placed@) =~= before.push(alias_keys(*schema)[j as int]));
    }
    Ok(placed)
}

} // verus!

verus! {

/// Whether `placed` declares distinct aliases, each after the aliases it uses.
pub open spec fn placed_in_order(s: Schema, placed: Seq<Seq<char>>) -> bool {
    &&& placed.no_duplicates()
    &&& forall|p: int| 0 <= p < placed.len() ==> alias_keys(s).contains(#[trigger] placed[p])
    &&& forall|i: int, p: int, k: int|
        #![trigger placed[p], alias_deps(s, i)[k]]
        0 <= i < s.alias_map@.len() && 0 <= p < placed.len() && placed[p] == alias_keys(s)[i] && 0 <= k
            < alias_deps(s, i).len() && alias_keys(s).contains(alias_deps(s, i)[k]) ==> placed.take(p).contains(
            alias_deps(s, i)[k],
        )
}

proof fn lemma_first_ready_some(s: Schema, placed: Seq<Seq<char>>, j: int)
    requires
        first_ready_from(s, placed, j) is Some,
    ensures
        j <= first_ready_from(s, placed, j)->0 < s.alias_map@.len(),
        is_ready(s, placed, first_ready_from(s, placed, j)->0),
    decreases s.alias_map@.len() - j,
{
    if 0 <= j < s.alias_map@.len() && !is_ready(s, placed, j) {
        lemma_first_ready_some(s, placed, j + 1);
    }
}

proof fn lemma_first_ready_none(s: Schema, placed: Seq<Seq<char>>, j: int)
    requires
        0 <= j,
        first_ready_from(s, placed, j) is None,
    ensures
        forall|i: int| j <= i < s.alias_map@.len() ==> !is_ready(s, placed, i),
    decreases s.alias_map@.len() - j,
{
    if j < s.alias_map@.len() {
        lemma_first_ready_none(s, placed, j + 1);
    }
}

proof fn lemma_keys_no_duplicates(s: Schema)
    requires
        keys_distinct(s),
    ensures
        alias_keys(s).no_duplicates(),
        alias_keys(s).to_set().len() == s.alias_map@.len(),
{
    let ks = alias_keys(s);
    assert forall|i: int, j: int| 0 <= i < ks.len() && 0 <= j < ks.len() && i != j implies ks[i] != ks[j] by {
        if i < j {
            assert(s.alias_map@[i].0@ != s.alias_map@[j].0@);
        } else {
            assert(s.alias_map@[j].0@ != s.alias_map@[i].0@);
        }
    }
    ks.unique_seq_to_set();
}

/// A placement without duplicates, of aliases only, that holds every alias when it is as long
/// as the map.
proof fn lemma_full_placement(s: Schema, placed: Seq<Seq<char>>)
    requires
        keys_distinct(s),
        placed_in_order(s, placed),
    ensures
        placed.len() <= s.alias_map@.len(),
        placed.len() >= s.alias_map@.len() ==> forall|i: int|
            0 <= i < s.alias_map@.len() ==> placed.contains(#[trigger] alias_keys(s)[i]),
{
    let ks = alias_keys(s);
    lemma_keys_no_duplicates(s);
    placed.unique_seq_to_set();
    assert(placed.to_set().subset_of(ks.to_set())) by {
        assert forall|x: Seq<char>| placed.to_set().contains(x) implies ks.to_set().contains(x) by {
            let p = choose|p: int| 0 <= p < placed.len() && placed[p] == x;
            assert(ks.contains(placed[p]));
        }
    }
    vstd::set_lib::lemma_len_subset(placed.to_set(), ks.to_set());
    if placed.len() >= s.alias_map@.len() {
        assert forall|i: int| 0 <= i < s.alias_map@.len() implies placed.contains(#[trigger] alias_keys(s)[i]) by {
            if !placed.contains(ks[i]) {
                assert(ks.to_set().contains(ks[i]));
                assert(!placed.to_set().contains(ks[i]));
                placed.to_set().lemma_subset_not_in_lt(ks.to_set(), ks[i]);
            }
        }
    }
}

proof fn lemma_deps_order_valid(s: Schema, placed: Seq<Seq<char>>)
    requires
        keys_distinct(s),
        placed_in_order(s, placed),
        deps_order_from(s, placed) is Ok,
    ensures
        is_declaration_order(s, deps_order_from(s, placed)->Ok_0),
    decreases s.alias_map@.len() - placed.len(),
{
    lemma_full_placement(s, placed);
    if placed.len() >= s.alias_map@.len() {
    } else {
        let i = first_ready_from(s, placed, 0)->0;
        lemma_first_ready_some(s, placed, 0);
        let next = placed.push(alias_keys(s)[i]);
        assert(placed_in_order(s, next)) by {
            assert forall|p: int| 0 <= p < next.len() implies alias_keys(s).contains(#[trigger] next[p]) by {
                if p == placed.len() {
                    assert(alias_keys(s)[i] == next[p]);
                }
            }
            assert forall|x: int, y: int| 0 <= x < y < next.len() implies next[x] != next[y] by {
                if y == placed.len() {
                    assert(placed.contains(next[x]));
                }
            }
            assert forall|a: int, p: int, k: int|
                #![trigger next[p], alias_deps(s, a)[k]]
                0 <= a < s.alias_map@.len() && 0 <= p < next.len() && next[p] == alias_keys(s)[a] && 0 <= k
                    < alias_deps(s, a).len() && alias_keys(s).contains(alias_deps(s, a)[k]) implies next.take(p).contains(
                alias_deps(s, a)[k],
            ) by {
                if p < placed.len() {
                    assert(next.take(p) =~= placed.take(p));
                    assert(placed[p] == next[p]);
                } else {
                    assert(next.take(p) =~= placed);
                    if a != i {
                        if a < i {
                            assert(s.alias_map@[a].0@ != s.alias_map@[i].0@);
                        } else {
                            assert(s.alias_map@[i].0@ != s.alias_map@[a].0@);
                        }
                    }
                }
            }
        }
        lemma_deps_order_valid(s, next);
    }
}

/// No declaration order exists where the aliases that remain after `placed` all use a
/// remaining alias.
proof fn lemma_no_order_when_stuck(s: Schema, placed: Seq<Seq<char>>, order: Seq<Seq<char>>, p: int)
    requires
        keys_distinct(s),
        is_declaration_order(s, order),
        forall|i: int| 0 <= i < s.alias_map@.len() && !placed.contains(alias_keys(s)[i]) ==> !#[trigger] is_ready(s, placed, i),
        0 <= p < order.len(),
    ensures
        forall|i: int| 0 <= i < s.alias_map@.len() && order[p] == alias_keys(s)[i] ==> placed.contains(#[trigger] alias_keys(s)[i]),
    decreases p,
{
    assert forall|i: int| 0 <= i < s.alias_map@.len() && order[p] == alias_keys(s)[i] implies placed.contains(#[trigger] alias_keys(s)[i]) by {
        if !placed.contains(alias_keys(s)[i]) {
            assert(!is_ready(s, placed, i));
            let k = choose|k: int|
                0 <= k < alias_deps(s, i).len() && alias_keys(s).contains(#[trigger] alias_deps(s, i)[k]) && !placed.contains(alias_deps(s, i)[k]);
            let d = alias_deps(s, i)[k];
            assert(order.take(p).contains(d));
            let q = choose|q: int| 0 <= q < order.take(p).len() && order.take(p)[q] == d;
            assert(order[q] == d);
            let j = choose|j: int| 0 <= j < alias_keys(s).len() && alias_keys(s)[j] == d;
            lemma_no_order_when_stuck(s, placed, order, q);
            assert(placed.contains(alias_keys(s)[j]));
        }
    }
}

proof fn lemma_deps_order_err(s: Schema, placed: Seq<Seq<char>>, order: Seq<Seq<char>>)
    requires
        keys_distinct(s),
        placed_in_order(s, placed),
        deps_order_from(s, placed) is Err,
    ensures
        !is_declaration_order(s, order),
    decreases s.alias_map@.len() - placed.len(),
{
    lemma_full_placement(s, placed);
    match first_ready_from(s, placed, 0) {
        Some(i) => {
            lemma_first_ready_some(s, placed, 0);
            let next = placed.push(alias_keys(s)[i]);
            assert(placed_in_order(s, next)) by {
                assert forall|p: int| 0 <= p < next.len() implies alias_keys(s).contains(#[trigger] next[p]) by {
                    if p == placed.len() {
                        assert(alias_keys(s)[i] == next[p]);
                    }
                }
                assert forall|x: int, y: int| 0 <= x < y < next.len() implies next[x] != next[y] by {
                    if y == placed.len() {
                        assert(placed.contains(next[x]));
                    }
                }
                assert forall|a: int, p: int, k: int|
                    #![trigger next[p], alias_deps(s, a)[k]]
                    0 <= a < s.alias_map@.len() && 0 <= p < next.len() && next[p] == alias_keys(s)[a] && 0 <= k
                        < alias_deps(s, a).len() && alias_keys(s).contains(alias_deps(s, a)[k]) implies next.take(
                    p,
                ).contains(alias_deps(s, a)[k]) by {
                    if p < placed.len() {
                        assert(next.take(p) =~= placed.take(p));
                        assert(placed[p] == next[p]);
                    } else {
                        assert(next.take(p) =~= placed);
                        if a != i {
                            if a < i {
                                assert(s.alias_map@[a].0@ != s.alias_map@[i].0@);
                            } else {
                                assert(s.alias_map@[i].0@ != s.alias_map@[a].0@);
                            }
                        }
                    }
                }
            }
            lemma_deps_order_err(s, next, order);
        },
        None => {
            lemma_first_ready_none(s, placed, 0);
            if is_declaration_order(s, order) {
                // Some alias is not placed yet: the placement is shorter than the map.
                lemma_keys_no_duplicates(s);
                placed.unique_seq_to_set();
                let ks = alias_keys(s);
                if forall|i: int| 0 <= i < ks.len() ==> placed.contains(#[trigger] ks[i]) {
                    assert(ks.to_set().subset_of(placed.to_set())) by {
                        assert forall|x: Seq<char>| ks.to_set().contains(x) implies placed.to_set().contains(x) by {
                            let i = choose|i: int| 0 <= i < ks.len() && ks[i] == x;
                            assert(placed.contains(ks[i]));
                        }
                    }
                    vstd::set_lib::lemma_len_subset(ks.to_set(), placed.to_set());
                }
                let i = choose|i: int| 0 <= i < ks.len() && !placed.contains(#[trigger] ks[i]);
                assert(order.contains(ks[i]));
                let p = choose|p: int| 0 <= p < order.len() && order[p] == ks[i];
                lemma_no_order_when_stuck(s, placed, order, p);
            }
        },
    }
}

/// Whether type `t` uses the alias named `n`: `t` is that alias, or an array or a nullable
/// whose element or inner type uses it.
pub open spec fn type_uses(t: TypeAnnotation, n: Seq<char>) -> bool
    decreases t,
{
    match t {
        TypeAnnotation::TypeAliasTypeAnnotation { name } => name@ == n,
        TypeAnnotation::ArrayTypeAnnotation { element_type } => type_uses(*element_type, n),
        TypeAnnotation::NullableTypeAnnotation { type_annotation } => type_uses(*type_annotation, n),
        _ => false,
    }
}

proof fn lemma_type_uses_refs(t: TypeAnnotation, n: Seq<char>)
    requires
        type_uses(t, n),
    ensures
        spec_type_refs(t).contains(n),
    decreases t,
{
    match t {
        TypeAnnotation::TypeAliasTypeAnnotation { name } => {
            assert(spec_type_refs(t)[0] == n);
        },
        TypeAnnotation::ArrayTypeAnnotation { element_type } => {
            lemma_type_uses_refs(*element_type, n);
        },
        TypeAnnotation::NullableTypeAnnotation { type_annotation } => {
            lemma_type_uses_refs(*type_annotation, n);
        },
        _ => {},
    }
}

proof fn lemma_props_deps_contains(ps: Seq<AliasProperty>, k: int, n: Seq<char>)
    requires
        0 <= k < ps.len(),
        spec_type_refs(*ps[k].type_annotation).contains(n),
    ensures
        spec_props_deps(ps).contains(n),
    decreases ps.len(),
{
    let d = spec_props_deps(ps.drop_last());
    let r = spec_type_refs(*ps.last().type_annotation);
    if k == ps.len() - 1 {
        let w = choose|w: int| 0 <= w < r.len() && r[w] == n;
        assert((d + r)[d.len() + w] == n);
    } else {
        assert(ps.drop_last()[k] == ps[k]);
        lemma_props_deps_contains(ps.drop_last(), k, n);
        let w = choose|w: int| 0 <= w < d.len() && d[w] == n;
        assert((d + r)[w] == n);
    }
}

/// In the declaration order, every alias comes after each alias of the schema that one of its
/// properties uses (by its own type, or as the element of an array or inner type of a
/// nullable, at any depth).
pub proof fn lemma_deps_order_after_used_aliases(s: Schema, i: int, k: int, n: Seq<char>)
    requires
        s.wf(),
        spec_deps_order(s) is Ok,
        0 <= i < s.alias_map@.len(),
        0 <= k < s.alias_map@[i].1.properties@.len(),
        type_uses(*s.alias_map@[i].1.properties@[k].type_annotation, n),
        alias_keys(s).contains(n),
    ensures
        spec_deps_order(s)->Ok_0.contains(s.alias_map@[i].0@),
        forall|p: int|
            0 <= p < spec_deps_order(s)->Ok_0.len() && #[trigger] spec_deps_order(s)->Ok_0[p] == s.alias_map@[i].0@
                ==> spec_deps_order(s)->Ok_0.take(p).contains(n),
{
    let order = spec_deps_order(s)->Ok_0;
    lemma_deps_order_declares_after_uses(s);
    lemma_type_uses_refs(*s.alias_map@[i].1.properties@[k].type_annotation, n);
    lemma_props_deps_contains(s.alias_map@[i].1.properties@, k, n);
    let deps = alias_deps(s, i);
    let kk = choose|kk: int| 0 <= kk < deps.len() && deps[kk] == n;
    assert(alias_keys(s)[i] == s.alias_map@[i].0@);
    assert forall|p: int| 0 <= p < order.len() && #[trigger] order[p] == s.alias_map@[i].0@ implies order.take(p).contains(n) by {
        assert(order[p] == alias_keys(s)[i]);
        assert(deps[kk] == n);
    }
}

/// In a well-formed schema the alias names are distinct.
pub proof fn lemma_wf_keys_distinct(s: Schema)
    requires
        s.wf(),
    ensures
        keys_distinct(s),
{
    assert forall|i: int, j: int| 0 <= i < j < s.alias_map@.len() implies #[trigger] s.alias_map@[i].0@ != #[trigger] s.alias_map@[j].0@ by {
        assert(crate::keyed::str_lt(s.alias_map@[i].0@, s.alias_map@[j].0@));
        crate::keyed::lemma_str_lt_irreflexive(s.alias_map@[i].0@);
    }
}

/// The declaration order declares every alias once, each after the aliases it uses.
pub proof fn lemma_deps_order_declares_after_uses(s: Schema)
    requires
        s.wf(),
        spec_deps_order(s) is Ok,
    ensures
        is_declaration_order(s, spec_deps_order(s)->Ok_0),
{
    lemma_wf_keys_distinct(s);
    lemma_deps_order_valid(s, Seq::empty());
}

/// The order is refused only where no order declares each alias after the ones it uses (the
/// aliases use each other in a cycle).
pub proof fn lemma_deps_order_err_only_on_cycles(s: Schema, order: Seq<Seq<char>>)
    requires
        s.wf(),
        spec_deps_order(s) is Err,
    ensures
        !is_declaration_order(s, order),
{
    lemma_wf_keys_distinct(s);
    lemma_deps_order_err(s, Seq::empty(), order);
}

} // verus!
