//! Texts kept by key in ascending key order, as a `BTreeMap<String, String>` keeps them: an
//! association list whose keys strictly ascend.
use vstd::prelude::*;
use vstd::string::*;
use crate::text::str_eq;

verus! {

/// The order of `String`: lexicographic by character (UTF-8 byte order and code point order
/// agree).
pub open spec fn str_lt(a: Seq<char>, b: Seq<char>) -> bool
    decreases a.len(),
{
    if a.len() == 0 {
        b.len() > 0
    } else if b.len() == 0 {
        false
    } else if a[0] < b[0] {
        true
    } else if a[0] > b[0] {
        false
    } else {
        str_lt(a.drop_first(), b.drop_first())
    }
}

pub proof fn lemma_str_lt_irreflexive(a: Seq<char>)
    ensures
        !str_lt(a, a),
    decreases a.len(),
{
    if a.len() > 0 {
        lemma_str_lt_irreflexive(a.drop_first());
    }
}

pub proof fn lemma_str_lt_asymmetric(a: Seq<char>, b: Seq<char>)
    ensures
        str_lt(a, b) ==> !str_lt(b, a),
    decreases a.len(),
{
    if a.len() > 0 && b.len() > 0 {
        lemma_str_lt_asymmetric(a.drop_first(), b.drop_first());
    }
}

pub proof fn lemma_str_lt_trichotomy(a: Seq<char>, b: Seq<char>)
    ensures
        str_lt(a, b) || a == b || str_lt(b, a),
    decreases a.len(),
{
    if a.len() > 0 && b.len() > 0 {
        lemma_str_lt_trichotomy(a.drop_first(), b.drop_first());
        if a[0] == b[0] && a.drop_first() == b.drop_first() {
            assert(a =~= seq![a[0]] + a.drop_first());
            assert(b =~= seq![b[0]] + b.drop_first());
        }
    } else if a.len() == 0 && b.len() == 0 {
        assert(a =~= b);
    }
}

pub proof fn lemma_str_lt_transitive(a: Seq<char>, b: Seq<char>, c: Seq<char>)
    requires
        str_lt(a, b),
        str_lt(b, c),
    ensures
        str_lt(a, c),
    decreases a.len(),
{
    if a.len() > 0 && b.len() > 0 && c.len() > 0 {
        if a[0] == b[0] && b[0] == c[0] {
            lemma_str_lt_transitive(a.drop_first(), b.drop_first(), c.drop_first());
        }
    }
}

proof fn lemma_str_lt_step(a: Seq<char>, b: Seq<char>, i: int)
    requires
        0 <= i < a.len(),
        i < b.len(),
        a[i] == b[i],
    ensures
        str_lt(a.skip(i), b.skip(i)) == str_lt(a.skip(i + 1), b.skip(i + 1)),
{
    assert(a.skip(i).drop_first() =~= a.skip(i + 1));
    assert(b.skip(i).drop_first() =~= b.skip(i + 1));
}

/// Whether `a` sorts before `b`.
pub fn str_less(a: &str, b: &str) -> (r: bool)
    ensures
        r == str_lt(a@, b@),
{
    let n = a.unicode_len();
    let m = b.unicode_len();
    let mut i: usize = 0;
    assert(a@.skip(0) =~= a@);
    assert(b@.skip(0) =~= b@);
    while i < n && i < m
        invariant
            n == a@.len(),
            m == b@.len(),
            i <= n,
            i <= m,
            str_lt(a@, b@) == str_lt(a@.skip(i as int), b@.skip(i as int)),
        decreases n - i,
    {
        let x = a.get_char(i);
        let y = b.get_char(i);
        if x < y {
            return true;
        }
        if x > y {
            return false;
        }
        proof {
            lemma_str_lt_step(a@, b@, i as int);
        }
        i = i + 1;
    }
    i < m
}

/// Whether the keys of `l` strictly ascend.
pub open spec fn keys_ascend(l: Seq<(Seq<char>, Seq<char>)>) -> bool {
    forall|i: int, j: int| 0 <= i < j < l.len() ==> str_lt(#[trigger] l[i].0, #[trigger] l[j].0)
}

/// `l` with `v` stored under `k`: an entry with key `k` has its value replaced, else the entry
/// goes before the first greater key.
pub open spec fn sorted_insert(l: Seq<(Seq<char>, Seq<char>)>, k: Seq<char>, v: Seq<char>) -> Seq<(Seq<char>, Seq<char>)>
    decreases l.len(),
{
    if l.len() == 0 {
        seq![(k, v)]
    } else if l[0].0 == k {
        seq![(k, v)] + l.drop_first()
    } else if str_lt(k, l[0].0) {
        seq![(k, v)] + l
    } else {
        seq![l[0]] + sorted_insert(l.drop_first(), k, v)
    }
}

/// Whether some entry of `l` has key `k`.
pub open spec fn has_key(l: Seq<(Seq<char>, Seq<char>)>, k: Seq<char>) -> bool {
    exists|i: int| 0 <= i < l.len() && (#[trigger] l[i]).0 == k
}

/// The value stored under `k` and `l` without that entry (the first one with key `k`).
pub open spec fn key_remove(l: Seq<(Seq<char>, Seq<char>)>, k: Seq<char>) -> (Option<Seq<char>>, Seq<(Seq<char>, Seq<char>)>)
    decreases l.len(),
{
    if l.len() == 0 {
        (None, l)
    } else if l[0].0 == k {
        (Some(l[0].1), l.drop_first())
    } else {
        let r = key_remove(l.drop_first(), k);
        (r.0, seq![l[0]] + r.1)
    }
}

/// The values of `l` in order.
pub open spec fn key_values(l: Seq<(Seq<char>, Seq<char>)>) -> Seq<Seq<char>> {
    l.map_values(|p: (Seq<char>, Seq<char>)| p.1)
}

proof fn lemma_sorted_insert_at(l: Seq<(Seq<char>, Seq<char>)>, k: Seq<char>, v: Seq<char>, i: int)
    requires
        0 <= i <= l.len(),
        forall|j: int| 0 <= j < i ==> l[j].0 != k && !str_lt(k, #[trigger] l[j].0),
        i < l.len() ==> (l[i].0 == k || str_lt(k, l[i].0)),
    ensures
        sorted_insert(l, k, v) == if i < l.len() && l[i].0 == k {
            l.take(i) + seq![(k, v)] + l.skip(i + 1)
        } else {
            l.take(i) + seq![(k, v)] + l.skip(i)
        },
    decreases i,
{
    if i == 0 {
        assert(l.take(0) + seq![(k, v)] + l.skip(1) =~= seq![(k, v)] + l.drop_first());
        assert(l.take(0) + seq![(k, v)] + l.skip(0) =~= seq![(k, v)] + l);
    } else {
        let t = l.drop_first();
        assert forall|j: int| 0 <= j < i - 1 implies t[j].0 != k && !str_lt(k, #[trigger] t[j].0) by {
            assert(t[j] == l[j + 1]);
        }
        lemma_sorted_insert_at(t, k, v, i - 1);
        if i < l.len() && l[i].0 == k {
            assert(l.take(i) + seq![(k, v)] + l.skip(i + 1) =~= seq![l[0]] + (t.take(i - 1) + seq![(k, v)] + t.skip(i)));
        } else {
            assert(l.take(i) + seq![(k, v)] + l.skip(i) =~= seq![l[0]] + (t.take(i - 1) + seq![(k, v)] + t.skip(i - 1)));
        }
    }
}

proof fn lemma_key_remove_at(l: Seq<(Seq<char>, Seq<char>)>, k: Seq<char>, i: int)
    requires
        0 <= i <= l.len(),
        forall|j: int| 0 <= j < i ==> (#[trigger] l[j]).0 != k,
        i < l.len() ==> l[i].0 == k,
    ensures
        key_remove(l, k) == if i < l.len() {
            (Some(l[i].1), l.take(i) + l.skip(i + 1))
        } else {
            (None::<Seq<char>>, l)
        },
    decreases i,
{
    if i == 0 {
        if l.len() > 0 {
            assert(l.take(0) + l.skip(1) =~= l.drop_first());
        }
    } else {
        let t = l.drop_first();
        assert forall|j: int| 0 <= j < i - 1 implies (#[trigger] t[j]).0 != k by {
            assert(t[j] == l[j + 1]);
        }
        lemma_key_remove_at(t, k, i - 1);
        if i < l.len() {
            assert(l.take(i) + l.skip(i + 1) =~= seq![l[0]] + (t.take(i - 1) + t.skip(i)));
        } else {
            assert(seq![l[0]] + t =~= l);
        }
    }
}

/// Taking a text out after storing one gives the stored text for its key, and for any other
/// key what was stored before.
pub proof fn lemma_remove_after_insert(l: Seq<(Seq<char>, Seq<char>)>, k: Seq<char>, v: Seq<char>, k2: Seq<char>)
    ensures
        key_remove(sorted_insert(l, k, v), k2).0 == (if k2 == k {
            Some(v)
        } else {
            key_remove(l, k2).0
        }),
    decreases l.len(),
{
    if l.len() == 0 {
        assert(key_remove(seq![(k, v)], k2).0 == (if k2 == k { Some(v) } else { None::<Seq<char>> })) by {
            assert(seq![(k, v)][0] == (k, v));
            if k2 != k {
                assert(seq![(k, v)].drop_first() =~= Seq::<(Seq<char>, Seq<char>)>::empty());
            }
        }
    } else if l[0].0 == k {
        let s = seq![(k, v)] + l.drop_first();
        assert(s[0] == (k, v));
        assert(s.drop_first() =~= l.drop_first());
    } else if str_lt(k, l[0].0) {
        let s = seq![(k, v)] + l;
        assert(s[0] == (k, v));
        assert(s.drop_first() =~= l);
    } else {
        let s = seq![l[0]] + sorted_insert(l.drop_first(), k, v);
        assert(s[0] == l[0]);
        assert(s.drop_first() =~= sorted_insert(l.drop_first(), k, v));
        lemma_remove_after_insert(l.drop_first(), k, v, k2);
    }
}

/// Inserting keeps the keys ascending.
pub proof fn lemma_sorted_insert_ascends(l: Seq<(Seq<char>, Seq<char>)>, k: Seq<char>, v: Seq<char>)
    requires
        keys_ascend(l),
    ensures
        keys_ascend(sorted_insert(l, k, v)),
        forall|j: int| 0 <= j < sorted_insert(l, k, v).len() ==> ((#[trigger] sorted_insert(l, k, v)[j]).0 == k || has_key(l, sorted_insert(l, k, v)[j].0)),
    decreases l.len(),
{
    if l.len() == 0 {
    } else if l[0].0 == k {
        let r = seq![(k, v)] + l.drop_first();
        assert forall|i: int, j: int| 0 <= i < j < r.len() implies str_lt(#[trigger] r[i].0, #[trigger] r[j].0) by {
            assert(r[j] == l[j]);
            if i > 0 {
                assert(r[i] == l[i]);
            }
        }
        assert forall|j: int| 0 <= j < r.len() implies (#[trigger] r[j]).0 == k || has_key(l, r[j].0) by {
            if j > 0 {
                assert(r[j] == l[j]);
            }
        }
    } else if str_lt(k, l[0].0) {
        let r = seq![(k, v)] + l;
        assert forall|i: int, j: int| 0 <= i < j < r.len() implies str_lt(#[trigger] r[i].0, #[trigger] r[j].0) by {
            assert(r[j] == l[j - 1]);
            if i > 0 {
                assert(r[i] == l[i - 1]);
            } else if j > 1 {
                lemma_str_lt_transitive(k, l[0].0, l[j - 1].0);
            }
        }
        assert forall|j: int| 0 <= j < r.len() implies (#[trigger] r[j]).0 == k || has_key(l, r[j].0) by {
            if j > 0 {
                assert(r[j] == l[j - 1]);
            }
        }
    } else {
        let t = l.drop_first();
        assert(keys_ascend(t)) by {
            assert forall|i: int, j: int| 0 <= i < j < t.len() implies str_lt(#[trigger] t[i].0, #[trigger] t[j].0) by {
                assert(t[i] == l[i + 1]);
                assert(t[j] == l[j + 1]);
            }
        }
        lemma_sorted_insert_ascends(t, k, v);
        lemma_str_lt_trichotomy(k, l[0].0);
        let s = sorted_insert(t, k, v);
        let r = seq![l[0]] + s;
        assert forall|j: int| 0 <= j < s.len() implies str_lt(l[0].0, (#[trigger] s[j]).0) by {
            if s[j].0 != k {
                let w = choose|w: int| 0 <= w < t.len() && (#[trigger] t[w]).0 == s[j].0;
                assert(t[w] == l[w + 1]);
            }
        }
        assert forall|i: int, j: int| 0 <= i < j < r.len() implies str_lt(#[trigger] r[i].0, #[trigger] r[j].0) by {
            assert(r[j] == s[j - 1]);
            if i > 0 {
                assert(r[i] == s[i - 1]);
            }
        }
        assert forall|j: int| 0 <= j < r.len() implies (#[trigger] r[j]).0 == k || has_key(l, r[j].0) by {
            if j > 0 {
                assert(r[j] == s[j - 1]);
                if s[j - 1].0 != k {
                    let w = choose|w: int| 0 <= w < t.len() && (#[trigger] t[w]).0 == s[j - 1].0;
                    assert(t[w] == l[w + 1]);
                }
            }
        }
    }
}

/// The keys of `l` in order.
pub open spec fn key_seq(l: Seq<(Seq<char>, Seq<char>)>) -> Seq<Seq<char>> {
    l.map_values(|p: (Seq<char>, Seq<char>)| p.0)
}

/// Storing a text keeps every other entry, adds the new one, and keeps every key.
pub proof fn lemma_sorted_insert_entries(l: Seq<(Seq<char>, Seq<char>)>, k: Seq<char>, v: Seq<char>)
    ensures
        forall|j: int|
            0 <= j < sorted_insert(l, k, v).len() ==> #[trigger] sorted_insert(l, k, v)[j] == (k, v) || l.contains(
                sorted_insert(l, k, v)[j],
            ),
        has_key(sorted_insert(l, k, v), k),
        forall|x: Seq<char>| has_key(l, x) ==> has_key(sorted_insert(l, k, v), x),
    decreases l.len(),
{
    let r = sorted_insert(l, k, v);
    if l.len() == 0 {
        assert(r[0].0 == k);
    } else if l[0].0 == k {
        assert(r[0].0 == k);
        assert forall|j: int| 0 <= j < r.len() implies #[trigger] r[j] == (k, v) || l.contains(r[j]) by {
            if j > 0 {
                assert(r[j] == l[j]);
            }
        }
        assert forall|x: Seq<char>| has_key(l, x) implies has_key(r, x) by {
            let w = choose|w: int| 0 <= w < l.len() && (#[trigger] l[w]).0 == x;
            if w == 0 {
                assert(r[0].0 == x);
            } else {
                assert(r[w] == l[w]);
            }
        }
    } else if str_lt(k, l[0].0) {
        assert(r[0].0 == k);
        assert forall|j: int| 0 <= j < r.len() implies #[trigger] r[j] == (k, v) || l.contains(r[j]) by {
            if j > 0 {
                assert(r[j] == l[j - 1]);
            }
        }
        assert forall|x: Seq<char>| has_key(l, x) implies has_key(r, x) by {
            let w = choose|w: int| 0 <= w < l.len() && (#[trigger] l[w]).0 == x;
            assert(r[w + 1] == l[w]);
        }
    } else {
        let t = l.drop_first();
        let q = sorted_insert(t, k, v);
        lemma_sorted_insert_entries(t, k, v);
        assert(r == seq![l[0]] + q);
        assert forall|j: int| 0 <= j < r.len() implies #[trigger] r[j] == (k, v) || l.contains(r[j]) by {
            if j == 0 {
                assert(l[0] == r[0]);
            } else {
                assert(r[j] == q[j - 1]);
                if q[j - 1] != (k, v) {
                    let w = choose|w: int| 0 <= w < t.len() && t[w] == q[j - 1];
                    assert(l[w + 1] == t[w]);
                }
            }
        }
        let wk = choose|w: int| 0 <= w < q.len() && (#[trigger] q[w]).0 == k;
        assert(r[wk + 1] == q[wk]);
        assert forall|x: Seq<char>| has_key(l, x) implies has_key(r, x) by {
            let w = choose|w: int| 0 <= w < l.len() && (#[trigger] l[w]).0 == x;
            if w == 0 {
                assert(r[0].0 == x);
            } else {
                assert(t[w - 1] == l[w]);
                assert(has_key(t, x));
                assert(has_key(q, x));
                let w2 = choose|w2: int| 0 <= w2 < q.len() && (#[trigger] q[w2]).0 == x;
                assert(r[w2 + 1] == q[w2]);
            }
        }
    }
}

/// A key is in `l` exactly when it is among its keys.
pub proof fn lemma_has_key_seq(l: Seq<(Seq<char>, Seq<char>)>, x: Seq<char>)
    ensures
        has_key(l, x) <==> key_seq(l).contains(x),
{
    if has_key(l, x) {
        let w = choose|w: int| 0 <= w < l.len() && (#[trigger] l[w]).0 == x;
        assert(key_seq(l)[w] == x);
    }
    if key_seq(l).contains(x) {
        let w = choose|w: int| 0 <= w < key_seq(l).len() && key_seq(l)[w] == x;
        assert(l[w].0 == x);
    }
}

/// Entries with ascending keys are as many as their distinct keys.
pub proof fn lemma_ascending_len(l: Seq<(Seq<char>, Seq<char>)>)
    requires
        keys_ascend(l),
    ensures
        key_seq(l).no_duplicates(),
        key_seq(l).to_set().len() == l.len(),
{
    let ks = key_seq(l);
    assert forall|i: int, j: int| 0 <= i < ks.len() && 0 <= j < ks.len() && i != j implies ks[i] != ks[j] by {
        if i < j {
            assert(str_lt(l[i].0, l[j].0));
            if ks[i] == ks[j] {
                lemma_str_lt_irreflexive(ks[i]);
            }
        } else {
            assert(str_lt(l[j].0, l[i].0));
            if ks[i] == ks[j] {
                lemma_str_lt_irreflexive(ks[i]);
            }
        }
    }
    ks.unique_seq_to_set();
}

/// Taking a key out removes at most one entry, and the taken text leaves the list.
pub proof fn lemma_key_remove_len(l: Seq<(Seq<char>, Seq<char>)>, k: Seq<char>)
    ensures
        key_remove(l, k).0 is Some ==> key_remove(l, k).1.len() + 1 == l.len(),
        key_remove(l, k).0 is None ==> key_remove(l, k).1.len() == l.len(),
    decreases l.len(),
{
    if l.len() > 0 && l[0].0 != k {
        lemma_key_remove_len(l.drop_first(), k);
    }
}

/// Texts by key, in ascending key order.
pub struct KeyedTexts {
    entries: Vec<(String, String)>,
}

impl View for KeyedTexts {
    type V = Seq<(Seq<char>, Seq<char>)>;

    closed spec fn view(&self) -> Seq<(Seq<char>, Seq<char>)> {
        self.entries@.map_values(|p: (String, String)| (p.0@, p.1@))
    }
}

impl KeyedTexts {
    pub fn new() -> (r: Self)
        ensures
            r@ == Seq::<(Seq<char>, Seq<char>)>::empty(),
    {
        let r = KeyedTexts { entries: Vec::new() };
        assert(r@ =~= Seq::<(Seq<char>, Seq<char>)>::empty());
        r
    }

    /// Whether some text is stored under `k`.
    pub fn contains_key(&self, k: &str) -> (r: bool)
        ensures
            r == has_key(self@, k@),
    {
        let n = self.entries.len();
        let mut i: usize = 0;
        while i < n
            invariant
                n == self.entries@.len(),
                n == self@.len(),
                i <= n,
                forall|j: int| 0 <= j < i ==> (#[trigger] self@[j]).0 != k@,
            decreases n - i,
        {
            assert(self@[i as int] == (self.entries@[i as int].0@, self.entries@[i as int].1@));
            if str_eq(self.entries[i].0.as_str(), k) {
                return true;
            }
            i = i + 1;
        }
        false
    }

    /// Stores `v` under `k`, in place of what was stored there.
    pub fn insert(&mut self, k: String, v: String)
        ensures
            final(self)@ == sorted_insert(old(self)@, k@, v@),
    {
        let n = self.entries.len();
        let mut i: usize = 0;
        let mut found = false;
        while i < n
            invariant_except_break
                n == self.entries@.len(),
                n == self@.len(),
                self@ == old(self)@,
                i <= n,
                !found,
                forall|j: int| 0 <= j < i ==> (#[trigger] self@[j]).0 != k@ && !str_lt(k@, self@[j].0),
            ensures
                n == self.entries@.len(),
                n == self@.len(),
                self@ == old(self)@,
                i <= n,
                forall|j: int| 0 <= j < i ==> (#[trigger] self@[j]).0 != k@ && !str_lt(k@, self@[j].0),
                found ==> i < n && self@[i as int].0 == k@,
                !found ==> (i < n ==> str_lt(k@, self@[i as int].0)),
            decreases n - i,
        {
            assert(self@[i as int] == (self.entries@[i as int].0@, self.entries@[i as int].1@));
            if str_eq(self.entries[i].0.as_str(), k.as_str()) {
                found = true;
                break;
            }
            if str_less(k.as_str(), self.entries[i].0.as_str()) {
                break;
            }
            i = i + 1;
        }
        proof {
            lemma_sorted_insert_at(old(self)@, k@, v@, i as int);
        }
        let ghost kv = (k@, v@);
        let ghost target = sorted_insert(old(self)@, k@, v@);
        assert(found ==> i < n && old(self)@[i as int].0 == kv.0);
        assert(!found ==> !(i < n && old(self)@[i as int].0 == kv.0)) by {
            if !found && i < n {
                lemma_str_lt_irreflexive(kv.0);
            }
        }
        if found {
            self.entries.set(i, (k, v));
            assert(self@ =~= old(self)@.take(i as int) + seq![kv] + old(self)@.skip(i + 1));
        } else {
            self.entries.insert(i, (k, v));
            assert(self@ =~= old(self)@.take(i as int) + seq![kv] + old(self)@.skip(i as int));
        }
        assert(self@ == target);
    }

    /// Takes out the text stored under `k`, if any.
    pub fn remove(&mut self, k: &str) -> (r: Option<String>)
        ensures
            (match r {
                Some(s) => Some(s@),
                None => None,
            }) == key_remove(old(self)@, k@).0,
            final(self)@ == key_remove(old(self)@, k@).1,
    {
        let n = self.entries.len();
        let mut i: usize = 0;
        while i < n
            invariant_except_break
                n == self.entries@.len(),
                n == self@.len(),
                self@ == old(self)@,
                i <= n,
                forall|j: int| 0 <= j < i ==> (#[trigger] self@[j]).0 != k@,
            ensures
                n == self.entries@.len(),
                n == self@.len(),
                self@ == old(self)@,
                i <= n,
                forall|j: int| 0 <= j < i ==> (#[trigger] self@[j]).0 != k@,
                i < n ==> self@[i as int].0 == k@,
            decreases n - i,
        {
            assert(self@[i as int] == (self.entries@[i as int].0@, self.entries@[i as int].1@));
            if str_eq(self.entries[i].0.as_str(), k) {
                break;
            }
            i = i + 1;
        }
        proof {
            lemma_key_remove_at(old(self)@, k@, i as int);
        }
        if i < n {
            let (_, v) = self.entries.remove(i);
            assert(self@ =~= old(self)@.take(i as int) + old(self)@.skip(i + 1));
            Some(v)
        } else {
            None
        }
    }

    /// The texts in ascending key order.
    pub fn into_values(self) -> (r: Vec<String>)
        ensures
            crate::text::views(r@) == key_values(self@),
    {
        let n = self.entries.len();
        let mut out: Vec<String> = Vec::new();
        let mut entries = self.entries;
        let ghost all = entries@;
        let mut i: usize = 0;
        let mut rest: Vec<(String, String)> = Vec::new();
        // Move the entries out from the back, then reverse.
        while entries.len() > 0
            invariant
                all.len() == n,
                entries@ == all.take(entries@.len() as int),
                rest@.len() + entries@.len() == n,
                forall|j: int| 0 <= j < rest@.len() ==> #[trigger] rest@[j] == all[n - 1 - j],
            decreases entries@.len(),
        {
            let e = entries.pop().unwrap();
            rest.push(e);
        }
        while rest.len() > 0
            invariant
                all.len() == n,
                rest@.len() + out@.len() == n,
                forall|j: int| 0 <= j < rest@.len() ==> #[trigger] rest@[j] == all[n - 1 - j],
                forall|j: int| 0 <= j < out@.len() ==> #[trigger] out@[j]@ == all[j].1@,
            decreases rest@.len(),
        {
            let e = rest.pop().unwrap();
            out.push(e.1);
        }
        assert(crate::text::views(out@) =~= key_values(all.map_values(|p: (String, String)| (p.0@, p.1@))));
        out
    }
}

} // verus!
