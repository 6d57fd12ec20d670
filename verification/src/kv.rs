use vstd::prelude::*;

verus! {

/// The texts of a list of strings.
pub open spec fn texts(v: Seq<String>) -> Seq<Seq<char>> {
    v.map_values(|s: String| s@)
}

/// The texts of a list of key/value pairs.
pub open spec fn pair_texts(p: Seq<(String, String)>) -> Seq<(Seq<char>, Seq<char>)> {
    p.map_values(|e: (String, String)| (e.0@, e.1@))
}

/// The texts of a list of keys with their values.
pub open spec fn group_texts(g: Seq<(String, Vec<String>)>) -> Seq<(Seq<char>, Seq<Seq<char>>)> {
    g.map_values(|e: (String, Vec<String>)| (e.0@, texts(e.1@)))
}

/// Whether some group of `s` has key `k`.
pub open spec fn has_key(s: Seq<(String, Vec<String>)>, k: Seq<char>) -> bool {
    exists|i: int| 0 <= i < s.len() && (#[trigger] s[i]).0@ == k
}

/// The values of the group of `s` with key `k` (of the one such group, where
/// keys are distinct).
pub open spec fn values_of(s: Seq<(String, Vec<String>)>, k: Seq<char>) -> Seq<Seq<char>> {
    texts(s[choose|i: int| 0 <= i < s.len() && (#[trigger] s[i]).0@ == k].1@)
}

/// No two groups of `s` share a key.
pub open spec fn distinct_keys(s: Seq<(String, Vec<String>)>) -> bool {
    forall|i: int, j: int|
        0 <= i < s.len() && 0 <= j < s.len() && i != j ==> (#[trigger] s[i]).0@ != (#[trigger] s[j]).0@
}

/// Every group of `s` has at least one value.
pub open spec fn nonempty_groups(s: Seq<(String, Vec<String>)>) -> bool {
    forall|i: int| 0 <= i < s.len() ==> (#[trigger] s[i]).1@.len() > 0
}

/// The map from each key of `s` to its values.
pub open spec fn store_map(s: Seq<(String, Vec<String>)>) -> Map<Seq<char>, Seq<Seq<char>>> {
    Map::new(|k: Seq<char>| has_key(s, k), |k: Seq<char>| values_of(s, k))
}

/// The values written under `k`, in order; none where `k` was never written.
pub open spec fn values_or_empty(m: Map<Seq<char>, Seq<Seq<char>>>, k: Seq<char>) -> Seq<Seq<char>> {
    if m.contains_key(k) {
        m[k]
    } else {
        Seq::empty()
    }
}

/// The store `m` after writing `v` under `k`: the key keeps its earlier
/// values and gains `v` as its latest.
pub open spec fn written(m: Map<Seq<char>, Seq<Seq<char>>>, k: Seq<char>, v: Seq<char>) -> Map<
    Seq<char>,
    Seq<Seq<char>>,
> {
    m.insert(k, values_or_empty(m, k).push(v))
}

/// `m` after writing each pair of `pairs` in order.
pub open spec fn pairs_written(
    m: Map<Seq<char>, Seq<Seq<char>>>,
    pairs: Seq<(Seq<char>, Seq<char>)>,
) -> Map<Seq<char>, Seq<Seq<char>>>
    decreases pairs.len(),
{
    if pairs.len() == 0 {
        m
    } else {
        written(pairs_written(m, pairs.drop_last()), pairs.last().0, pairs.last().1)
    }
}

/// `m` after writing each of `vs` under `k`, in order.
pub open spec fn values_written(m: Map<Seq<char>, Seq<Seq<char>>>, k: Seq<char>, vs: Seq<Seq<char>>) -> Map<
    Seq<char>,
    Seq<Seq<char>>,
>
    decreases vs.len(),
{
    if vs.len() == 0 {
        m
    } else {
        written(values_written(m, k, vs.drop_last()), k, vs.last())
    }
}

/// `m` after writing the values of each group of `groups`, in order.
pub open spec fn groups_written(
    m: Map<Seq<char>, Seq<Seq<char>>>,
    groups: Seq<(Seq<char>, Seq<Seq<char>>)>,
) -> Map<Seq<char>, Seq<Seq<char>>>
    decreases groups.len(),
{
    if groups.len() == 0 {
        m
    } else {
        values_written(groups_written(m, groups.drop_last()), groups.last().0, groups.last().1)
    }
}

/// No two pairs of `p` share a key.
pub open spec fn distinct_pair_keys(p: Seq<(String, String)>) -> bool {
    forall|i: int, j: int|
        0 <= i < p.len() && 0 <= j < p.len() && i != j ==> (#[trigger] p[i]).0@ != (#[trigger] p[j]).0@
}

/// The bot's key-value store. A key may be written several times and keeps
/// every value written under it, in order (the duplicate keys of La Chuoi's
/// store); reading a key gives its latest value.
pub struct KvStore {
    groups: Vec<(String, Vec<String>)>,
}

impl View for KvStore {
    type V = Map<Seq<char>, Seq<Seq<char>>>;

    closed spec fn view(&self) -> Map<Seq<char>, Seq<Seq<char>>> {
        store_map(self.groups@)
    }
}

proof fn lemma_values_at(s: Seq<(String, Vec<String>)>, i: int)
    requires
        distinct_keys(s),
        0 <= i < s.len(),
    ensures
        has_key(s, s[i].0@),
        values_of(s, s[i].0@) == texts(s[i].1@),
{
    let k = s[i].0@;
    assert(0 <= i < s.len() && s[i].0@ == k);
    let j = choose|j: int| 0 <= j < s.len() && (#[trigger] s[j]).0@ == k;
    assert(i == j);
}

proof fn lemma_replace_group(s: Seq<(String, Vec<String>)>, i: int, key: String, nv: Vec<String>)
    requires
        distinct_keys(s),
        0 <= i < s.len(),
        s[i].0@ == key@,
    ensures
        distinct_keys(s.update(i, (key, nv))),
        store_map(s.update(i, (key, nv))) == store_map(s).insert(key@, texts(nv@)),
{
    let s2 = s.update(i, (key, nv));
    assert(distinct_keys(s2)) by {
        assert forall|a: int, b: int|
            0 <= a < s2.len() && 0 <= b < s2.len() && a != b implies (#[trigger] s2[a]).0@ != (
        #[trigger] s2[b]).0@ by {
            assert(s[a].0@ != s[b].0@);
        }
    }
    let m = store_map(s).insert(key@, texts(nv@));
    assert forall|kk: Seq<char>| #[trigger] has_key(s2, kk) == m.contains_key(kk) by {
        if has_key(s, kk) {
            let j = choose|j: int| 0 <= j < s.len() && (#[trigger] s[j]).0@ == kk;
            assert(s2[j].0@ == kk);
        }
        if has_key(s2, kk) {
            let j = choose|j: int| 0 <= j < s2.len() && (#[trigger] s2[j]).0@ == kk;
            assert(s[j].0@ == kk || j == i);
        }
        assert(s2[i].0@ == key@);
    }
    assert forall|kk: Seq<char>| has_key(s2, kk) implies #[trigger] values_of(s2, kk) == m[kk] by {
        let j = choose|j: int| 0 <= j < s2.len() && (#[trigger] s2[j]).0@ == kk;
        lemma_values_at(s2, j);
        if j != i {
            lemma_values_at(s, j);
        }
    }
    assert(store_map(s2) =~= m);
}

proof fn lemma_push_group(s: Seq<(String, Vec<String>)>, key: String, nv: Vec<String>)
    requires
        distinct_keys(s),
        !has_key(s, key@),
    ensures
        distinct_keys(s.push((key, nv))),
        store_map(s.push((key, nv))) == store_map(s).insert(key@, texts(nv@)),
{
    let s2 = s.push((key, nv));
    let n = s.len() as int;
    assert(distinct_keys(s2)) by {
        assert forall|a: int, b: int|
            0 <= a < s2.len() && 0 <= b < s2.len() && a != b implies (#[trigger] s2[a]).0@ != (
        #[trigger] s2[b]).0@ by {
            if a < n && b < n {
                assert(s[a].0@ != s[b].0@);
            } else if a < n {
                assert(s[a] == s2[a]);
            } else {
                assert(s[b] == s2[b]);
            }
        }
    }
    let m = store_map(s).insert(key@, texts(nv@));
    assert forall|kk: Seq<char>| #[trigger] has_key(s2, kk) == m.contains_key(kk) by {
        if has_key(s, kk) {
            let j = choose|j: int| 0 <= j < s.len() && (#[trigger] s[j]).0@ == kk;
            assert(s2[j].0@ == kk);
        }
        if has_key(s2, kk) {
            let j = choose|j: int| 0 <= j < s2.len() && (#[trigger] s2[j]).0@ == kk;
            if j < n {
                assert(s[j] == s2[j]);
            }
        }
        assert(s2[n].0@ == key@);
    }
    assert forall|kk: Seq<char>| has_key(s2, kk) implies #[trigger] values_of(s2, kk) == m[kk] by {
        let j = choose|j: int| 0 <= j < s2.len() && (#[trigger] s2[j]).0@ == kk;
        lemma_values_at(s2, j);
        if j != n {
            assert(s[j] == s2[j]);
            lemma_values_at(s, j);
        }
    }
    assert(store_map(s2) =~= m);
}

proof fn lemma_remove_group(s: Seq<(String, Vec<String>)>, i: int)
    requires
        distinct_keys(s),
        0 <= i < s.len(),
    ensures
        distinct_keys(s.remove(i)),
        store_map(s.remove(i)) == store_map(s).remove(s[i].0@),
{
    let s2 = s.remove(i);
    let key = s[i].0@;
    assert(distinct_keys(s2)) by {
        assert forall|a: int, b: int|
            0 <= a < s2.len() && 0 <= b < s2.len() && a != b implies (#[trigger] s2[a]).0@ != (
        #[trigger] s2[b]).0@ by {
            let a1 = if a < i { a } else { a + 1 };
            let b1 = if b < i { b } else { b + 1 };
            assert(s2[a] == s[a1]);
            assert(s2[b] == s[b1]);
            assert(s[a1].0@ != s[b1].0@);
        }
    }
    let m = store_map(s).remove(key);
    assert forall|kk: Seq<char>| #[trigger] has_key(s2, kk) == m.contains_key(kk) by {
        if has_key(s, kk) && kk != key {
            let j = choose|j: int| 0 <= j < s.len() && (#[trigger] s[j]).0@ == kk;
            assert(j != i);
            let j2 = if j < i { j } else { j - 1 };
            assert(s2[j2] == s[j]);
        }
        if has_key(s2, kk) {
            let j = choose|j: int| 0 <= j < s2.len() && (#[trigger] s2[j]).0@ == kk;
            let j1 = if j < i { j } else { j + 1 };
            assert(s2[j] == s[j1]);
            assert(j1 != i);
            assert(s[j1].0@ != s[i].0@);
        }
    }
    assert forall|kk: Seq<char>| has_key(s2, kk) implies #[trigger] values_of(s2, kk) == m[kk] by {
        let j = choose|j: int| 0 <= j < s2.len() && (#[trigger] s2[j]).0@ == kk;
        let j1 = if j < i { j } else { j + 1 };
        assert(s2[j] == s[j1]);
        lemma_values_at(s2, j);
        lemma_values_at(s, j1);
    }
    assert(store_map(s2) =~= m);
}

proof fn lemma_drop_last_distinct(s: Seq<(String, Vec<String>)>)
    requires
        distinct_keys(s),
        s.len() > 0,
    ensures
        distinct_keys(s.drop_last()),
        !has_key(s.drop_last(), s.last().0@),
{
    let p = s.drop_last();
    let last = s.last();
    assert forall|a: int, b: int|
        0 <= a < p.len() && 0 <= b < p.len() && a != b implies (#[trigger] p[a]).0@ != (
    #[trigger] p[b]).0@ by {
        assert(p[a] == s[a] && p[b] == s[b]);
    }
    if has_key(p, last.0@) {
        let j = choose|j: int| 0 <= j < p.len() && (#[trigger] p[j]).0@ == last.0@;
        assert(p[j] == s[j]);
        assert(s[s.len() - 1] == last);
    }
}

proof fn lemma_store_map_len(s: Seq<(String, Vec<String>)>)
    requires
        distinct_keys(s),
    ensures
        store_map(s).dom().finite(),
        store_map(s).dom().len() == s.len(),
    decreases s.len(),
{
    if s.len() == 0 {
        assert(store_map(s).dom() =~= Set::<Seq<char>>::empty());
    } else {
        let p = s.drop_last();
        let last = s.last();
        lemma_drop_last_distinct(s);
        lemma_store_map_len(p);
        lemma_push_group(p, last.0, last.1);
        assert(p.push((last.0, last.1)) =~= s);
    }
}

/// A copy of a list of strings.
fn copy_strings(v: &Vec<String>) -> (r: Vec<String>)
    ensures
        r@ == v@,
{
    let mut out: Vec<String> = Vec::new();
    let mut i: usize = 0;
    while i < v.len()
        invariant
            i <= v@.len(),
            out@ == v@.subrange(0, i as int),
        decreases v@.len() - i,
    {
        out.push(v[i].clone());
        i = i + 1;
    }
    assert(v@.subrange(0, v@.len() as int) =~= v@);
    out
}

impl KvStore {
    #[verifier::type_invariant]
    spec fn well_formed(self) -> bool {
        &&& distinct_keys(self.groups@)
        &&& nonempty_groups(self.groups@)
    }

    /// An empty store.
    pub fn new() -> (r: KvStore)
        ensures
            r@ == Map::<Seq<char>, Seq<Seq<char>>>::empty(),
    {
        let r = KvStore { groups: Vec::new() };
        assert(r@ =~= Map::<Seq<char>, Seq<Seq<char>>>::empty());
        r
    }

    /// The position of the group with key `key`.
    fn find(&self, key: &String) -> (r: Option<usize>)
        ensures
            r matches Some(i) ==> i < self.groups@.len() && self.groups@[i as int].0@ == key@,
            r is None ==> !has_key(self.groups@, key@),
    {
        let mut i: usize = 0;
        while i < self.groups.len()
            invariant
                i <= self.groups@.len(),
                forall|j: int| 0 <= j < i ==> (#[trigger] self.groups@[j]).0@ != key@,
            decreases self.groups@.len() - i,
        {
            if self.groups[i].0 == *key {
                return Some(i);
            }
            i = i + 1;
        }
        None
    }

    /// The latest value written under `key`, if any.
    pub fn get(&self, key: &str) -> (r: Option<String>)
        ensures
            r is Some <==> self@.contains_key(key@),
            r matches Some(v) ==> v@ == self@[key@].last(),
    {
        proof {
            use_type_invariant(self);
        }
        let k = key.to_owned();
        match self.find(&k) {
            Some(i) => {
                proof {
                    lemma_values_at(self.groups@, i as int);
                }
                let vs = &self.groups[i].1;
                let n = vs.len();
                assert(n > 0);
                Some(vs[n - 1].clone())
            },
            None => None,
        }
    }

    /// Every value written under `key`, in order; none where it was never
    /// written.
    pub fn values(&self, key: &str) -> (r: Vec<String>)
        ensures
            texts(r@) == values_or_empty(self@, key@),
    {
        proof {
            use_type_invariant(self);
        }
        let k = key.to_owned();
        match self.find(&k) {
            Some(i) => {
                proof {
                    lemma_values_at(self.groups@, i as int);
                }
                copy_strings(&self.groups[i].1)
            },
            None => {
                let r: Vec<String> = Vec::new();
                assert(texts(r@) =~= Seq::<Seq<char>>::empty());
                r
            },
        }
    }

    /// Writes `value` under `key`: the key keeps its earlier values and gains
    /// this one as its latest.
    pub fn set(&mut self, key: String, value: String)
        ensures
            final(self)@ == written(old(self)@, key@, value@),
    {
        proof {
            use_type_invariant(&*self);
        }
        let ghost s = self.groups@;
        match self.find(&key) {
            Some(i) => {
                let mut vs = copy_strings(&self.groups[i].1);
                let ghost old_vs = vs@;
                vs.push(value);
                proof {
                    lemma_values_at(s, i as int);
                    assert(texts(vs@) =~= texts(old_vs).push(value@));
                    lemma_replace_group(s, i as int, key, vs);
                }
                let mut groups = Vec::new();
                std::mem::swap(&mut groups, &mut self.groups);
                groups.set(i, (key, vs));
                assert(nonempty_groups(groups@)) by {
                    assert forall|j: int| 0 <= j < groups@.len() implies (#[trigger] groups@[j]).1@.len() > 0 by {
                        if j != i {
                            assert(groups@[j] == s[j]);
                        }
                    }
                }
                self.groups = groups;
            },
            None => {
                let vs = vec![value];
                proof {
                    assert(texts(vs@) =~= values_or_empty(store_map(s), key@).push(value@));
                    lemma_push_group(s, key, vs);
                }
                let mut groups = Vec::new();
                std::mem::swap(&mut groups, &mut self.groups);
                groups.push((key, vs));
                assert(nonempty_groups(groups@)) by {
                    assert forall|j: int| 0 <= j < groups@.len() implies (#[trigger] groups@[j]).1@.len() > 0 by {
                        if j < s.len() {
                            assert(groups@[j] == s[j]);
                        }
                    }
                }
                self.groups = groups;
            },
        }
    }

    /// Removes `key` and every value written under it.
    pub fn remove(&mut self, key: &str)
        ensures
            final(self)@ == old(self)@.remove(key@),
    {
        proof {
            use_type_invariant(&*self);
        }
        let k = key.to_owned();
        let ghost s = self.groups@;
        match self.find(&k) {
            Some(i) => {
                proof {
                    lemma_remove_group(s, i as int);
                }
                let mut groups = Vec::new();
                std::mem::swap(&mut groups, &mut self.groups);
                groups.remove(i);
                assert(nonempty_groups(groups@)) by {
                    assert forall|j: int| 0 <= j < groups@.len() implies (#[trigger] groups@[j]).1@.len() > 0 by {
                        let j1 = if j < i { j } else { j + 1 };
                        assert(groups@[j] == s[j1]);
                    }
                }
                self.groups = groups;
            },
            None => {
                assert(store_map(s) =~= store_map(s).remove(key@));
            },
        }
    }

    /// The number of keys in the store.
    pub fn len(&self) -> (r: usize)
        ensures
            r == self@.dom().len(),
    {
        proof {
            use_type_invariant(self);
            lemma_store_map_len(self.groups@);
        }
        self.groups.len()
    }

    /// Every key with all its values, each key once.
    pub fn groups(&self) -> (r: Vec<(String, Vec<String>)>)
        ensures
            distinct_keys(r@),
            nonempty_groups(r@),
            store_map(r@) == self@,
    {
        proof {
            use_type_invariant(self);
        }
        let mut out: Vec<(String, Vec<String>)> = Vec::new();
        let mut i: usize = 0;
        while i < self.groups.len()
            invariant
                i <= self.groups@.len(),
                out@.len() == i,
                forall|j: int|
                    0 <= j < i ==> (#[trigger] out@[j]).0@ == self.groups@[j].0@ && out@[j].1@
                        == self.groups@[j].1@,
            decreases self.groups@.len() - i,
        {
            let k = self.groups[i].0.clone();
            let vs = copy_strings(&self.groups[i].1);
            out.push((k, vs));
            i = i + 1;
        }
        proof {
            let s = self.groups@;
            let o = out@;
            assert forall|a: int, b: int|
                0 <= a < o.len() && 0 <= b < o.len() && a != b implies (#[trigger] o[a]).0@ != (
            #[trigger] o[b]).0@ by {
                assert(s[a].0@ != s[b].0@);
            }
            assert forall|j: int| 0 <= j < o.len() implies (#[trigger] o[j]).1@.len() > 0 by {
                assert(s[j].1@.len() > 0);
            }
            assert forall|kk: Seq<char>| #[trigger] has_key(o, kk) == has_key(s, kk) by {
                if has_key(o, kk) {
                    let j = choose|j: int| 0 <= j < o.len() && (#[trigger] o[j]).0@ == kk;
                    assert(s[j].0@ == kk);
                }
                if has_key(s, kk) {
                    let j = choose|j: int| 0 <= j < s.len() && (#[trigger] s[j]).0@ == kk;
                    assert(o[j].0@ == kk);
                }
            }
            assert forall|kk: Seq<char>| has_key(o, kk) implies #[trigger] values_of(o, kk) == values_of(s, kk) by {
                let j = choose|j: int| 0 <= j < o.len() && (#[trigger] o[j]).0@ == kk;
                lemma_values_at(o, j);
                lemma_values_at(s, j);
            }
            assert(store_map(o) =~= store_map(s));
        }
        out
    }

    /// Every key with its latest value, each key once.
    pub fn entries(&self) -> (r: Vec<(String, String)>)
        ensures
            distinct_pair_keys(r@),
            forall|i: int|
                0 <= i < r@.len() ==> self@.contains_key((#[trigger] r@[i]).0@) && r@[i].1@
                    == self@[r@[i].0@].last(),
            forall|k: Seq<char>| #[trigger]
                self@.contains_key(k) ==> exists|i: int| 0 <= i < r@.len() && (#[trigger] r@[i]).0@ == k,
    {
        proof {
            use_type_invariant(self);
        }
        let mut out: Vec<(String, String)> = Vec::new();
        let mut i: usize = 0;
        while i < self.groups.len()
            invariant
                i <= self.groups@.len(),
                out@.len() == i,
                nonempty_groups(self.groups@),
                forall|j: int|
                    0 <= j < i ==> (#[trigger] out@[j]).0@ == self.groups@[j].0@ && out@[j].1@
                        == self.groups@[j].1@.last()@,
            decreases self.groups@.len() - i,
        {
            let k = self.groups[i].0.clone();
            let vs = &self.groups[i].1;
            let n = vs.len();
            assert(n > 0);
            let v = vs[n - 1].clone();
            out.push((k, v));
            i = i + 1;
        }
        proof {
            let s = self.groups@;
            let o = out@;
            assert forall|a: int, b: int|
                0 <= a < o.len() && 0 <= b < o.len() && a != b implies (#[trigger] o[a]).0@ != (
            #[trigger] o[b]).0@ by {
                assert(s[a].0@ != s[b].0@);
            }
            assert forall|j: int| 0 <= j < o.len() implies store_map(s).contains_key(
                (#[trigger] o[j]).0@,
            ) && o[j].1@ == store_map(s)[o[j].0@].last() by {
                lemma_values_at(s, j);
                assert(texts(s[j].1@).last() == s[j].1@.last()@);
            }
            assert forall|kk: Seq<char>| #[trigger] store_map(s).contains_key(kk) implies exists|j: int|
                0 <= j < o.len() && (#[trigger] o[j]).0@ == kk by {
                let j = choose|j: int| 0 <= j < s.len() && (#[trigger] s[j]).0@ == kk;
                assert(o[j].0@ == kk);
            }
        }
        out
    }

    /// A store holding the given pairs, written in order.
    pub fn from_pairs(pairs: &Vec<(String, String)>) -> (r: KvStore)
        ensures
            r@ == pairs_written(Map::empty(), pair_texts(pairs@)),
    {
        let mut store = KvStore::new();
        let mut i: usize = 0;
        while i < pairs.len()
            invariant
                i <= pairs@.len(),
                store@ == pairs_written(Map::empty(), pair_texts(pairs@.subrange(0, i as int))),
            decreases pairs@.len() - i,
        {
            let k = pairs[i].0.clone();
            let v = pairs[i].1.clone();
            assert(pair_texts(pairs@.subrange(0, i as int + 1)).drop_last() =~= pair_texts(
                pairs@.subrange(0, i as int),
            ));
            store.set(k, v);
            i = i + 1;
        }
        assert(pairs@.subrange(0, pairs@.len() as int) =~= pairs@);
        store
    }

    /// A store holding the values of each group, written in order.
    pub fn from_groups(groups: &Vec<(String, Vec<String>)>) -> (r: KvStore)
        ensures
            r@ == groups_written(Map::empty(), group_texts(groups@)),
    {
        let mut store = KvStore::new();
        let mut i: usize = 0;
        while i < groups.len()
            invariant
                i <= groups@.len(),
                store@ == groups_written(Map::empty(), group_texts(groups@.subrange(0, i as int))),
            decreases groups@.len() - i,
        {
            let ghost before = store@;
            let vs = &groups[i].1;
            let ghost k = groups@[i as int].0@;
            let mut j: usize = 0;
            while j < vs.len()
                invariant
                    i < groups@.len(),
                    j <= vs@.len(),
                    k == groups@[i as int].0@,
                    vs == groups@[i as int].1,
                    store@ == values_written(before, k, texts(vs@.subrange(0, j as int))),
                decreases vs@.len() - j,
            {
                assert(texts(vs@.subrange(0, j as int + 1)).drop_last() =~= texts(
                    vs@.subrange(0, j as int),
                ));
                store.set(groups[i].0.clone(), vs[j].clone());
                j = j + 1;
            }
            assert(vs@.subrange(0, vs@.len() as int) =~= vs@);
            assert(group_texts(groups@.subrange(0, i as int + 1)).drop_last() =~= group_texts(
                groups@.subrange(0, i as int),
            ));
            i = i + 1;
        }
        assert(groups@.subrange(0, groups@.len() as int) =~= groups@);
        store
    }
}

/// A write keeps every value written before under its key and makes the new
/// value the latest one read; every other key stays as it was.
pub proof fn law_write_keeps_earlier_values(
    m: Map<Seq<char>, Seq<Seq<char>>>,
    k: Seq<char>,
    v: Seq<char>,
    other: Seq<char>,
)
    ensures
        values_or_empty(written(m, k, v), k) == values_or_empty(m, k).push(v),
        written(m, k, v)[k].last() == v,
        other != k ==> values_or_empty(written(m, k, v), other) == values_or_empty(m, other),
{
}

/// After a key is removed a read finds nothing under it, and every other key
/// is as it was.
pub proof fn law_read_after_remove(m: Map<Seq<char>, Seq<Seq<char>>>, k: Seq<char>, other: Seq<char>)
    ensures
        !m.remove(k).contains_key(k),
        other != k ==> values_or_empty(m.remove(k), other) == values_or_empty(m, other),
{
}

/// Writes never take a value away: after any further writes, the values of a
/// key begin with the values it had.
pub proof fn law_writes_only_add(
    m: Map<Seq<char>, Seq<Seq<char>>>,
    pairs: Seq<(Seq<char>, Seq<char>)>,
    k: Seq<char>,
)
    ensures
        values_or_empty(m, k).is_prefix_of(values_or_empty(pairs_written(m, pairs), k)),
    decreases pairs.len(),
{
    if pairs.len() > 0 {
        law_writes_only_add(m, pairs.drop_last(), k);
        let before = pairs_written(m, pairs.drop_last());
        let a = values_or_empty(m, k);
        let b = values_or_empty(before, k);
        let c = values_or_empty(pairs_written(m, pairs), k);
        if pairs.last().0 == k {
            assert(c == b.push(pairs.last().1));
            assert forall|i: int| 0 <= i < a.len() implies a[i] == c[i] by {
                assert(a[i] == b[i]);
            }
        }
    }
}

proof fn lemma_values_written(m: Map<Seq<char>, Seq<Seq<char>>>, k: Seq<char>, vs: Seq<Seq<char>>)
    requires
        vs.len() > 0,
    ensures
        values_written(m, k, vs) == m.insert(k, values_or_empty(m, k) + vs),
    decreases vs.len(),
{
    if vs.len() == 1 {
        assert(vs.drop_last() =~= Seq::<Seq<char>>::empty());
        assert(values_written(m, k, vs.drop_last()) == m);
        assert(values_or_empty(m, k).push(vs.last()) =~= values_or_empty(m, k) + vs);
        assert(values_written(m, k, vs) == written(m, k, vs.last()));
    } else {
        lemma_values_written(m, k, vs.drop_last());
        let before = m.insert(k, values_or_empty(m, k) + vs.drop_last());
        assert(values_written(m, k, vs) == written(before, k, vs.last()));
        assert(values_or_empty(before, k) == values_or_empty(m, k) + vs.drop_last());
        assert(values_or_empty(before, k).push(vs.last()) =~= values_or_empty(m, k) + vs);
        assert(written(before, k, vs.last()) =~= m.insert(k, values_or_empty(m, k) + vs));
    }
}

/// Saving a store as its groups and loading them back gives the same store.
pub proof fn law_groups_round_trip(s: Seq<(String, Vec<String>)>)
    requires
        distinct_keys(s),
        nonempty_groups(s),
    ensures
        groups_written(Map::empty(), group_texts(s)) == store_map(s),
    decreases s.len(),
{
    if s.len() == 0 {
        assert(store_map(s) =~= Map::<Seq<char>, Seq<Seq<char>>>::empty());
    } else {
        let p = s.drop_last();
        let last = s.last();
        lemma_drop_last_distinct(s);
        assert(nonempty_groups(p)) by {
            assert forall|i: int| 0 <= i < p.len() implies (#[trigger] p[i]).1@.len() > 0 by {
                assert(p[i] == s[i]);
            }
        }
        law_groups_round_trip(p);
        assert(group_texts(s).drop_last() =~= group_texts(p));
        assert(s[s.len() - 1].1@.len() > 0);
        assert(texts(last.1@).len() > 0);
        lemma_values_written(store_map(p), last.0@, texts(last.1@));
        assert(!store_map(p).contains_key(last.0@));
        assert(values_or_empty(store_map(p), last.0@) + texts(last.1@) =~= texts(last.1@));
        lemma_push_group(p, last.0, last.1);
        assert(p.push((last.0, last.1)) =~= s);
    }
}

} // verus!
