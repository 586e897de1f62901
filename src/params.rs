use vstd::prelude::*;

verus! {

/// Lexicographic order on texts by character code, compared from position `i` on.
pub open spec fn key_lt_from(a: Seq<char>, b: Seq<char>, i: int) -> bool
    decreases a.len() - i,
{
    if i < 0 || i >= a.len() {
        0 <= i < b.len()
    } else if i >= b.len() {
        false
    } else if a[i] != b[i] {
        a[i] < b[i]
    } else {
        key_lt_from(a, b, i + 1)
    }
}

/// `a` sorts strictly before `b`: the order of `BTreeMap<String, _>` keys.
pub open spec fn key_lt(a: Seq<char>, b: Seq<char>) -> bool {
    key_lt_from(a, b, 0)
}

proof fn lemma_key_lt_from_irreflexive(a: Seq<char>, i: int)
    requires
        0 <= i,
    ensures
        !key_lt_from(a, a, i),
    decreases a.len() - i,
{
    if i < a.len() {
        lemma_key_lt_from_irreflexive(a, i + 1);
    }
}

proof fn lemma_key_lt_from_transitive(a: Seq<char>, b: Seq<char>, c: Seq<char>, i: int)
    requires
        0 <= i,
        key_lt_from(a, b, i),
        key_lt_from(b, c, i),
    ensures
        key_lt_from(a, c, i),
    decreases a.len() - i,
{
    if i < a.len() && i < b.len() && i < c.len() && a[i] == b[i] && b[i] == c[i] {
        lemma_key_lt_from_transitive(a, b, c, i + 1);
    }
}

proof fn lemma_key_lt_from_total(a: Seq<char>, b: Seq<char>, i: int)
    requires
        0 <= i <= a.len(),
        i <= b.len(),
        a.subrange(0, i) == b.subrange(0, i),
        a != b,
    ensures
        key_lt_from(a, b, i) || key_lt_from(b, a, i),
    decreases a.len() - i,
{
    if i == a.len() && i == b.len() {
        assert(a =~= a.subrange(0, i));
        assert(b =~= b.subrange(0, i));
    } else if i < a.len() && i < b.len() && a[i] == b[i] {
        assert(a.subrange(0, i + 1) =~= a.subrange(0, i).push(a[i]));
        assert(b.subrange(0, i + 1) =~= b.subrange(0, i).push(b[i]));
        lemma_key_lt_from_total(a, b, i + 1);
    }
}

/// `key_lt` is a strict total order.
pub proof fn lemma_key_lt_order(a: Seq<char>, b: Seq<char>, c: Seq<char>)
    ensures
        !key_lt(a, a),
        key_lt(a, b) && key_lt(b, c) ==> key_lt(a, c),
        a != b ==> key_lt(a, b) || key_lt(b, a),
{
    lemma_key_lt_from_irreflexive(a, 0);
    if key_lt(a, b) && key_lt(b, c) {
        lemma_key_lt_from_transitive(a, b, c, 0);
    }
    if a != b {
        assert(a.subrange(0, 0) =~= b.subrange(0, 0));
        lemma_key_lt_from_total(a, b, 0);
    }
}

/// Compares two keys in the order of `key_lt`.
pub fn key_less(a: &str, b: &str) -> (r: bool)
    ensures
        r == key_lt(a@, b@),
{
    let la = a.unicode_len();
    let lb = b.unicode_len();
    let mut i: usize = 0;
    while i < la && i < lb
        invariant
            la == a@.len(),
            lb == b@.len(),
            i <= la,
            i <= lb,
            key_lt(a@, b@) == key_lt_from(a@, b@, i as int),
        decreases la - i,
    {
        let ca = a.get_char(i);
        let cb = b.get_char(i);
        if ca != cb {
            return ca < cb;
        }
        i = i + 1;
    }
    i < lb
}


/// Keys in strictly increasing order, hence each key at most once.
pub open spec fn sorted_entries(s: Seq<(Seq<char>, Seq<char>)>) -> bool {
    forall|i: int, j: int| 0 <= i < j < s.len() ==> key_lt(#[trigger] s[i].0, #[trigger] s[j].0)
}

/// Two entry sequences that hold the same (key, value) pairs.
pub open spec fn same_entries(a: Seq<(Seq<char>, Seq<char>)>, b: Seq<(Seq<char>, Seq<char>)>) -> bool {
    forall|e: (Seq<char>, Seq<char>)| a.contains(e) <==> b.contains(e)
}

/// A sorted entry sequence is fixed by the pairs it holds: whatever order the
/// parameters were added in, they are laid out the same way.
pub proof fn lemma_sorted_entries_unique(a: Seq<(Seq<char>, Seq<char>)>, b: Seq<(Seq<char>, Seq<char>)>)
    requires
        sorted_entries(a),
        sorted_entries(b),
        same_entries(a, b),
    ensures
        a == b,
    decreases a.len(),
{
    if a.len() == 0 {
        if b.len() > 0 {
            assert(b.contains(b[0]));
        }
        assert(a =~= b);
    } else {
        assert(a.contains(a[0]));
        let j = choose|j: int| 0 <= j < b.len() && b[j] == a[0];
        assert(b.contains(b[0]));
        let i = choose|i: int| 0 <= i < a.len() && a[i] == b[0];
        lemma_key_lt_order(a[0].0, b[0].0, a[0].0);
        if j > 0 {
            assert(key_lt(b[0].0, b[j].0));
            if i == 0 {
                lemma_key_lt_order(b[0].0, b[0].0, b[0].0);
            } else {
                assert(key_lt(a[0].0, a[i].0));
            }
        }
        assert(a[0] == b[0]);
        let ta = a.drop_first();
        let tb = b.drop_first();
        assert forall|e: (Seq<char>, Seq<char>)| ta.contains(e) <==> tb.contains(e) by {
            if ta.contains(e) {
                let k = choose|k: int| 0 <= k < ta.len() && ta[k] == e;
                assert(a[k + 1] == e);
                assert(key_lt(a[0].0, a[k + 1].0));
                lemma_key_lt_order(a[0].0, a[0].0, a[0].0);
                assert(b.contains(e));
                let m = choose|m: int| 0 <= m < b.len() && b[m] == e;
                assert(m != 0);
                assert(tb[m - 1] == e);
            }
            if tb.contains(e) {
                let k = choose|k: int| 0 <= k < tb.len() && tb[k] == e;
                assert(b[k + 1] == e);
                assert(key_lt(b[0].0, b[k + 1].0));
                lemma_key_lt_order(b[0].0, b[0].0, b[0].0);
                assert(a.contains(e));
                let m = choose|m: int| 0 <= m < a.len() && a[m] == e;
                assert(m != 0);
                assert(ta[m - 1] == e);
            }
        }
        lemma_sorted_entries_unique(ta, tb);
        assert(a =~= seq![a[0]] + ta);
        assert(b =~= seq![b[0]] + tb);
    }
}


/// The (key, value) texts of a list of string pairs.
pub open spec fn pair_texts(v: Seq<(String, String)>) -> Seq<(Seq<char>, Seq<char>)> {
    v.map_values(|e: (String, String)| (e.0@, e.1@))
}

/// `e` is what inserting `pairs` in order leaves for its key: the last
/// value given to that key.
pub open spec fn last_written(pairs: Seq<(Seq<char>, Seq<char>)>, e: (Seq<char>, Seq<char>)) -> bool {
    exists|i: int|
        0 <= i < pairs.len() && #[trigger] pairs[i] == e && forall|j: int| i < j < pairs.len() ==> (#[trigger] pairs[j]).0
            != e.0
}

/// No key occurs twice.
pub open spec fn distinct_keys(pairs: Seq<(Seq<char>, Seq<char>)>) -> bool {
    forall|i: int, j: int| 0 <= i < j < pairs.len() ==> (#[trigger] pairs[i]).0 != (#[trigger] pairs[j]).0
}

/// A set of request parameters, kept sorted by key with each key once, as a
/// `BTreeMap<String, String>` keeps them.
pub struct ParamSet {
    entries: Vec<(String, String)>,
}

impl View for ParamSet {
    type V = Seq<(Seq<char>, Seq<char>)>;

    closed spec fn view(&self) -> Seq<(Seq<char>, Seq<char>)> {
        self.entries@.map_values(|e: (String, String)| (e.0@, e.1@))
    }
}

impl ParamSet {
    pub open spec fn wf(&self) -> bool {
        sorted_entries(self@)
    }

    /// An empty parameter set.
    pub fn new() -> (r: ParamSet)
        ensures
            r.wf(),
            r@.len() == 0,
    {
        let r = ParamSet { entries: Vec::new() };
        assert(r@ =~= Seq::<(Seq<char>, Seq<char>)>::empty());
        r
    }

    /// Number of parameters.
    pub fn len(&self) -> (r: usize)
        ensures
            r == self@.len(),
    {
        self.entries.len()
    }

    /// The key and value at `i` in key order.
    pub fn entry(&self, i: usize) -> (r: (&str, &str))
        requires
            i < self@.len(),
        ensures
            r.0@ == self@[i as int].0,
            r.1@ == self@[i as int].1,
    {
        let e = &self.entries[i];
        (e.0.as_str(), e.1.as_str())
    }

    /// The parameter set that inserting `pairs` one after the other gives.
    pub fn from_pairs(pairs: &Vec<(String, String)>) -> (r: ParamSet)
        ensures
            r.wf(),
            forall|e: (Seq<char>, Seq<char>)| r@.contains(e) <==> last_written(pair_texts(pairs@), e),
    {
        let mut r = ParamSet::new();
        let mut i: usize = 0;
        while i < pairs.len()
            invariant
                i <= pairs@.len(),
                r.wf(),
                forall|e: (Seq<char>, Seq<char>)| r@.contains(e) <==> last_written(
                    pair_texts(pairs@).subrange(0, i as int),
                    e,
                ),
            decreases pairs@.len() - i,
        {
            let ghost before = r@;
            let ghost all = pair_texts(pairs@);
            let ghost p0 = all.subrange(0, i as int);
            let ghost p1 = all.subrange(0, i as int + 1);
            let k = pairs[i].0.clone();
            let v = pairs[i].1.clone();
            assert(all[i as int] == (pairs@[i as int].0@, pairs@[i as int].1@));
            let ghost kv = (k@, v@);
            r.insert(k, v);
            assert(p1.last() == kv);
            assert forall|e: (Seq<char>, Seq<char>)| r@.contains(e) <==> last_written(p1, e) by {
                if r@.contains(e) {
                    if e == kv {
                        assert(p1[i as int] == e);
                    } else {
                        assert(before.contains(e) && e.0 != kv.0);
                        assert(last_written(p0, e));
                        let m = choose|m: int|
                            0 <= m < p0.len() && #[trigger] p0[m] == e && forall|j: int| m < j < p0.len()
                                ==> (#[trigger] p0[j]).0 != e.0;
                        assert(p1[m] == e);
                        assert forall|j: int| m < j < p1.len() implies (#[trigger] p1[j]).0 != e.0 by {
                            if j < i {
                                assert(p1[j] == p0[j]);
                            }
                        }
                    }
                }
                if last_written(p1, e) {
                    let m = choose|m: int|
                        0 <= m < p1.len() && #[trigger] p1[m] == e && forall|j: int| m < j < p1.len()
                            ==> (#[trigger] p1[j]).0 != e.0;
                    if m < i {
                        assert(p1[i as int].0 != e.0);
                        assert(p0[m] == e);
                        assert forall|j: int| m < j < p0.len() implies (#[trigger] p0[j]).0 != e.0 by {
                            assert(p1[j] == p0[j]);
                        }
                        assert(last_written(p0, e));
                        assert(before.contains(e));
                    }
                }
            }
            i = i + 1;
        }
        assert(pair_texts(pairs@).subrange(0, pairs@.len() as int) =~= pair_texts(pairs@));
        r
    }

    /// Sets `key` to `value`, replacing an earlier value of the same key.
    pub fn insert(&mut self, key: String, value: String)
        requires
            old(self).wf(),
        ensures
            final(self).wf(),
            final(self)@.contains((key@, value@)),
            forall|e: (Seq<char>, Seq<char>)| #[trigger] final(self)@.contains(e) ==> e == (key@, value@)
                || (old(self)@.contains(e) && e.0 != key@),
            forall|e: (Seq<char>, Seq<char>)| #[trigger] old(self)@.contains(e) && e.0 != key@
                ==> final(self)@.contains(e),
    {
        let ghost k = key@;
        let ghost v = value@;
        let ghost s0 = self@;
        let n = self.entries.len();
        let mut p: usize = 0;
        let mut found = false;
        while p < n && !found
            invariant
                n == self.entries.len(),
                s0 == self@,
                k == key@,
                p <= n,
                forall|j: int| 0 <= j < p ==> key_lt(#[trigger] s0[j].0, k),
                found ==> p < n && !key_lt(s0[p as int].0, k),
            decreases n - p, if found { 0int } else { 1int },
        {
            assert(s0[p as int].0 == self.entries@[p as int].0@);
            if key_less(self.entries[p].0.as_str(), key.as_str()) {
                p = p + 1;
            } else {
                found = true;
            }
        }
        if p < n {
            assert(s0[p as int].0 == self.entries@[p as int].0@);
        }
        let entry = (key, value);
        if p < n && self.entries[p].0 == entry.0 {
            self.entries.set(p, entry);
            assert(self@ =~= s0.update(p as int, (k, v)));
            assert forall|i: int, j: int| 0 <= i < j < self@.len() implies key_lt(
                #[trigger] self@[i].0,
                #[trigger] self@[j].0,
            ) by {
                assert(s0[i].0 == self@[i].0 && s0[j].0 == self@[j].0);
            }
            assert(self@[p as int] == (k, v));
            assert forall|e: (Seq<char>, Seq<char>)| #[trigger] self@.contains(e) implies e == (k, v)
                || (s0.contains(e) && e.0 != k) by {
                let m = choose|m: int| 0 <= m < self@.len() && self@[m] == e;
                if m != p {
                    assert(s0[m] == e);
                    if m < p {
                        lemma_key_lt_order(e.0, k, e.0);
                    } else {
                        assert(key_lt(s0[p as int].0, s0[m].0));
                        lemma_key_lt_order(k, k, k);
                    }
                }
            }
            assert forall|e: (Seq<char>, Seq<char>)| #[trigger] s0.contains(e) && e.0 != k implies self@.contains(e) by {
                let m = choose|m: int| 0 <= m < s0.len() && s0[m] == e;
                assert(m != p);
                assert(self@[m] == e);
            }
        } else {
            if p < n {
                proof {
                    lemma_key_lt_order(s0[p as int].0, k, s0[p as int].0);
                }
            }
            self.entries.insert(p, entry);
            assert(self@ =~= s0.insert(p as int, (k, v)));
            assert forall|i: int, j: int| 0 <= i < j < self@.len() implies key_lt(
                #[trigger] self@[i].0,
                #[trigger] self@[j].0,
            ) by {
                if j < p {
                } else if j == p {
                } else if i < p {
                    lemma_key_lt_order(self@[i].0, k, s0[p as int].0);
                    lemma_key_lt_order(self@[i].0, s0[p as int].0, self@[j].0);
                    if j - 1 > p {
                        assert(key_lt(s0[p as int].0, s0[j - 1].0));
                    }
                } else if i == p {
                    if j - 1 > p {
                        assert(key_lt(s0[p as int].0, s0[j - 1].0));
                        lemma_key_lt_order(k, s0[p as int].0, self@[j].0);
                    }
                } else {
                    assert(key_lt(s0[i - 1].0, s0[j - 1].0));
                }
            }
            assert(self@[p as int] == (k, v));
            assert forall|e: (Seq<char>, Seq<char>)| #[trigger] self@.contains(e) implies e == (k, v)
                || (s0.contains(e) && e.0 != k) by {
                let m = choose|m: int| 0 <= m < self@.len() && self@[m] == e;
                if m < p {
                    assert(s0[m] == e);
                    assert(key_lt(s0[m].0, k));
                    lemma_key_lt_order(k, k, k);
                } else if m > p {
                    assert(s0[m - 1] == e);
                    if m - 1 > p {
                        assert(key_lt(s0[p as int].0, s0[m - 1].0));
                        lemma_key_lt_order(k, s0[p as int].0, s0[m - 1].0);
                    }
                    lemma_key_lt_order(k, k, k);
                }
            }
            assert forall|e: (Seq<char>, Seq<char>)| #[trigger] s0.contains(e) && e.0 != k implies self@.contains(e) by {
                let m = choose|m: int| 0 <= m < s0.len() && s0[m] == e;
                if m < p {
                    assert(self@[m] == e);
                } else {
                    assert(self@[m + 1] == e);
                }
            }
        }
    }
}

/// Inserting the same pairs in any order gives the same parameter set, as
/// long as no key is given twice: the pairs it holds are the pairs given.
pub proof fn lemma_distinct_inserts_order_free(
    a: Seq<(Seq<char>, Seq<char>)>,
    b: Seq<(Seq<char>, Seq<char>)>,
)
    requires
        distinct_keys(a),
        distinct_keys(b),
        forall|e: (Seq<char>, Seq<char>)| a.contains(e) <==> b.contains(e),
    ensures
        forall|e: (Seq<char>, Seq<char>)| last_written(a, e) <==> last_written(b, e),
{
    assert forall|e: (Seq<char>, Seq<char>)| last_written(a, e) <==> a.contains(e) by {
        lemma_last_written_distinct(a, e);
    }
    assert forall|e: (Seq<char>, Seq<char>)| last_written(b, e) <==> b.contains(e) by {
        lemma_last_written_distinct(b, e);
    }
}

proof fn lemma_last_written_distinct(pairs: Seq<(Seq<char>, Seq<char>)>, e: (Seq<char>, Seq<char>))
    requires
        distinct_keys(pairs),
    ensures
        last_written(pairs, e) <==> pairs.contains(e),
{
    if pairs.contains(e) {
        let m = choose|m: int| 0 <= m < pairs.len() && pairs[m] == e;
        assert forall|j: int| m < j < pairs.len() implies (#[trigger] pairs[j]).0 != e.0 by {
            assert(pairs[m].0 != pairs[j].0);
        }
        assert(pairs[m] == e);
    }
}

} // verus!
