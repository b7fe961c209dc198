//! Values by symbol id, in ascending id order (what a `BTreeMap<SymbolId, V>` holds).
use vstd::prelude::*;

verus! {

/// `l` with `v` stored under `k`: an entry with key `k` has its value replaced, else the entry
/// goes before the first greater key.
pub open spec fn id_insert<V>(l: Seq<(u32, V)>, k: u32, v: V) -> Seq<(u32, V)>
    decreases l.len(),
{
    if l.len() == 0 {
        seq![(k, v)]
    } else if l[0].0 == k {
        seq![(k, v)] + l.drop_first()
    } else if k < l[0].0 {
        seq![(k, v)] + l
    } else {
        seq![l[0]] + id_insert(l.drop_first(), k, v)
    }
}

/// The value stored under `k` (the first entry with that key).
pub open spec fn id_get<V>(l: Seq<(u32, V)>, k: u32) -> Option<V>
    decreases l.len(),
{
    if l.len() == 0 {
        None
    } else if l[0].0 == k {
        Some(l[0].1)
    } else {
        id_get(l.drop_first(), k)
    }
}

/// `l` with `f` applied to each value.
pub open spec fn map_vals<V, W>(l: Seq<(u32, V)>, f: spec_fn(V) -> W) -> Seq<(u32, W)> {
    l.map_values(|e: (u32, V)| (e.0, f(e.1)))
}

/// A lookup after storing a value gives that value for its id, and for any other id what was
/// stored before.
pub proof fn lemma_get_after_insert<V>(l: Seq<(u32, V)>, k: u32, v: V, k2: u32)
    ensures
        id_get(id_insert(l, k, v), k2) == (if k2 == k {
            Some(v)
        } else {
            id_get(l, k2)
        }),
    decreases l.len(),
{
    if l.len() == 0 {
        let s = seq![(k, v)];
        assert(id_insert(l, k, v) == s);
        assert(s[0] == (k, v));
        if k2 != k {
            assert(s.drop_first() =~= Seq::<(u32, V)>::empty());
            assert(id_get(s.drop_first(), k2) is None);
        }
    } else if l[0].0 == k {
        let s = seq![(k, v)] + l.drop_first();
        assert(s[0] == (k, v));
        assert(s.drop_first() =~= l.drop_first());
    } else if k < l[0].0 {
        let s = seq![(k, v)] + l;
        assert(s[0] == (k, v));
        assert(s.drop_first() =~= l);
    } else {
        let s = seq![l[0]] + id_insert(l.drop_first(), k, v);
        assert(s[0] == l[0]);
        assert(s.drop_first() =~= id_insert(l.drop_first(), k, v));
        lemma_get_after_insert(l.drop_first(), k, v, k2);
    }
}

/// Mapping the values commutes with inserting.
pub proof fn lemma_map_insert<V, W>(l: Seq<(u32, V)>, k: u32, v: V, f: spec_fn(V) -> W)
    ensures
        map_vals(id_insert(l, k, v), f) == id_insert(map_vals(l, f), k, f(v)),
    decreases l.len(),
{
    let m = map_vals(l, f);
    if l.len() == 0 {
        assert(map_vals(id_insert(l, k, v), f) =~= seq![(k, f(v))]);
    } else if l[0].0 == k {
        assert(m.drop_first() =~= map_vals(l.drop_first(), f));
        assert(map_vals(id_insert(l, k, v), f) =~= seq![(k, f(v))] + m.drop_first());
    } else if k < l[0].0 {
        assert(map_vals(id_insert(l, k, v), f) =~= seq![(k, f(v))] + m);
    } else {
        lemma_map_insert(l.drop_first(), k, v, f);
        assert(m.drop_first() =~= map_vals(l.drop_first(), f));
        assert(map_vals(id_insert(l, k, v), f) =~= seq![m[0]] + id_insert(m.drop_first(), k, f(v)));
    }
}

pub proof fn lemma_map_get<V, W>(l: Seq<(u32, V)>, k: u32, f: spec_fn(V) -> W)
    ensures
        id_get(map_vals(l, f), k) == match id_get(l, k) {
            Some(v) => Some(f(v)),
            None => None,
        },
    decreases l.len(),
{
    if l.len() > 0 && l[0].0 != k {
        assert(map_vals(l, f).drop_first() =~= map_vals(l.drop_first(), f));
        lemma_map_get(l.drop_first(), k, f);
    }
}

proof fn lemma_insert_at<V>(l: Seq<(u32, V)>, k: u32, v: V, i: int)
    requires
        0 <= i <= l.len(),
        forall|j: int| 0 <= j < i ==> (#[trigger] l[j]).0 < k,
        i < l.len() ==> k <= l[i].0,
    ensures
        id_insert(l, k, v) == if i < l.len() && l[i].0 == k {
            l.take(i) + seq![(k, v)] + l.skip(i + 1)
        } else {
            l.take(i) + seq![(k, v)] + l.skip(i)
        },
    decreases i,
{
    if i == 0 {
        assert(l.take(0) + seq![(k, v)] + l.skip(1) =~= seq![(k, v)] + l.drop_first());
        assert(l.take(0) + seq![(k, v)] + l.skip(0) =~= seq![(k, v)] + l);
    } else {
        let t = l.drop_first();
        assert forall|j: int| 0 <= j < i - 1 implies (#[trigger] t[j]).0 < k by {
            assert(t[j] == l[j + 1]);
        }
        lemma_insert_at(t, k, v, i - 1);
        if i < l.len() && l[i].0 == k {
            assert(l.take(i) + seq![(k, v)] + l.skip(i + 1) =~= seq![l[0]] + (t.take(i - 1) + seq![(k, v)] + t.skip(i)));
        } else {
            assert(l.take(i) + seq![(k, v)] + l.skip(i) =~= seq![l[0]] + (t.take(i - 1) + seq![(k, v)] + t.skip(i - 1)));
        }
    }
}

proof fn lemma_get_at<V>(l: Seq<(u32, V)>, k: u32, i: int)
    requires
        0 <= i <= l.len(),
        forall|j: int| 0 <= j < i ==> (#[trigger] l[j]).0 != k,
        i < l.len() ==> l[i].0 == k,
    ensures
        id_get(l, k) == if i < l.len() {
            Some(l[i].1)
        } else {
            None::<V>
        },
    decreases i,
{
    if i > 0 {
        let t = l.drop_first();
        assert forall|j: int| 0 <= j < i - 1 implies (#[trigger] t[j]).0 != k by {
            assert(t[j] == l[j + 1]);
        }
        lemma_get_at(t, k, i - 1);
    }
}

/// Values by id.
pub struct IdMap<V> {
    entries: Vec<(u32, V)>,
}

impl<V> View for IdMap<V> {
    type V = Seq<(u32, V)>;

    closed spec fn view(&self) -> Seq<(u32, V)> {
        self.entries@
    }
}

impl<V> IdMap<V> {
    pub fn new() -> (r: Self)
        ensures
            r@ == Seq::<(u32, V)>::empty(),
    {
        IdMap { entries: Vec::new() }
    }

    /// Stores `v` under `k`, in place of what was stored there.
    pub fn insert(&mut self, k: u32, v: V)
        ensures
            final(self)@ == id_insert(old(self)@, k, v),
    {
        let n = self.entries.len();
        let mut i: usize = 0;
        while i < n && self.entries[i].0 < k
            invariant
                n == self.entries@.len(),
                self@ == old(self)@,
                i <= n,
                forall|j: int| 0 <= j < i ==> (#[trigger] self@[j]).0 < k,
            decreases n - i,
        {
            i = i + 1;
        }
        proof {
            lemma_insert_at(old(self)@, k, v, i as int);
        }
        if i < n && self.entries[i].0 == k {
            self.entries.set(i, (k, v));
            assert(self@ =~= old(self)@.take(i as int) + seq![(k, v)] + old(self)@.skip(i + 1));
        } else {
            self.entries.insert(i, (k, v));
            assert(self@ =~= old(self)@.take(i as int) + seq![(k, v)] + old(self)@.skip(i as int));
        }
    }

    /// The value stored under `k`, if any.
    pub fn get(&self, k: u32) -> (r: Option<&V>)
        ensures
            match r {
                Some(x) => id_get(self@, k) == Some(*x),
                None => id_get(self@, k) is None,
            },
    {
        let n = self.entries.len();
        let mut i: usize = 0;
        while i < n && self.entries[i].0 != k
            invariant
                n == self.entries@.len(),
                i <= n,
                forall|j: int| 0 <= j < i ==> (#[trigger] self@[j]).0 != k,
            decreases n - i,
        {
            i = i + 1;
        }
        proof {
            lemma_get_at(self@, k, i as int);
        }
        if i < n {
            Some(&self.entries[i].1)
        } else {
            None
        }
    }

    /// The entries in ascending id order.
    pub fn entries(&self) -> (r: &Vec<(u32, V)>)
        ensures
            r@ == self@,
    {
        &self.entries
    }

    /// The entries in ascending id order.
    pub fn into_entries(self) -> (r: Vec<(u32, V)>)
        ensures
            r@ == self@,
    {
        self.entries
    }
}

} // verus!
