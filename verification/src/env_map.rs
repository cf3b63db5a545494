//! A map from variable names to values, as the program's configuration is
//! held: each name occurs at most once, and a later insertion of a name
//! replaces its value.
use vstd::prelude::*;

use crate::text::same_text;

verus! {

/// The map that a sequence of (name, value) pairs describes, later pairs
/// overriding earlier ones.
pub open spec fn pairs_to_map(s: Seq<(Seq<char>, Seq<char>)>) -> Map<Seq<char>, Seq<char>>
    decreases s.len(),
{
    if s.len() == 0 {
        Map::empty()
    } else {
        pairs_to_map(s.drop_last()).insert(s.last().0, s.last().1)
    }
}

pub open spec fn keys_unique(s: Seq<(Seq<char>, Seq<char>)>) -> bool {
    forall|i: int, j: int| 0 <= i < j < s.len() ==> (#[trigger] s[i]).0 != (#[trigger] s[j]).0
}

/// Environment variables by name.
///
/// vstd's specifications of `HashMap` hold only for key types known to obey
/// its key model, and `String` is not among them, so the entries are kept in
/// a vector whose names are unique.
pub struct EnvMap {
    entries: Vec<(String, String)>,
}

impl EnvMap {
    /// The entries as (name, value) views, in insertion order.
    pub closed spec fn pairs(&self) -> Seq<(Seq<char>, Seq<char>)> {
        self.entries@.map_values(|e: (String, String)| (e.0@, e.1@))
    }

    #[verifier::type_invariant]
    closed spec fn names_unique(&self) -> bool {
        keys_unique(self.pairs())
    }
}

impl View for EnvMap {
    type V = Map<Seq<char>, Seq<char>>;

    closed spec fn view(&self) -> Map<Seq<char>, Seq<char>> {
        pairs_to_map(self.pairs())
    }
}

proof fn lemma_lookup(s: Seq<(Seq<char>, Seq<char>)>, i: int)
    requires
        keys_unique(s),
        0 <= i < s.len(),
    ensures
        pairs_to_map(s).contains_key(s[i].0),
        pairs_to_map(s)[s[i].0] == s[i].1,
    decreases s.len(),
{
    if i < s.len() - 1 {
        let p = s.drop_last();
        assert(p[i] == s[i]);
        assert(s[i].0 != s[s.len() - 1].0);
        lemma_lookup(p, i);
    }
}

proof fn lemma_absent(s: Seq<(Seq<char>, Seq<char>)>, k: Seq<char>)
    requires
        forall|i: int| 0 <= i < s.len() ==> (#[trigger] s[i]).0 != k,
    ensures
        !pairs_to_map(s).contains_key(k),
    decreases s.len(),
{
    if s.len() > 0 {
        let p = s.drop_last();
        assert forall|i: int| 0 <= i < p.len() implies (#[trigger] p[i]).0 != k by {
            assert(p[i] == s[i]);
        }
        assert(s[s.len() - 1].0 != k);
        lemma_absent(p, k);
    }
}

proof fn lemma_replace(s: Seq<(Seq<char>, Seq<char>)>, i: int, v: Seq<char>)
    requires
        keys_unique(s),
        0 <= i < s.len(),
    ensures
        pairs_to_map(s.update(i, (s[i].0, v))) == pairs_to_map(s).insert(s[i].0, v),
    decreases s.len(),
{
    let u = s.update(i, (s[i].0, v));
    if i == s.len() - 1 {
        assert(u.drop_last() =~= s.drop_last());
        assert(pairs_to_map(u) =~= pairs_to_map(s).insert(s[i].0, v));
    } else {
        let p = s.drop_last();
        assert(p[i] == s[i]);
        assert(keys_unique(p));
        lemma_replace(p, i, v);
        assert(u.drop_last() =~= p.update(i, (s[i].0, v)));
        assert(s[i].0 != s.last().0);
        assert(pairs_to_map(u) =~= pairs_to_map(s).insert(s[i].0, v));
    }
}

impl EnvMap {
    /// An empty map.
    pub fn new() -> (m: EnvMap)
        ensures
            m@ == Map::<Seq<char>, Seq<char>>::empty(),
    {
        let m = EnvMap { entries: Vec::new() };
        assert(m.pairs() =~= Seq::<(Seq<char>, Seq<char>)>::empty());
        m
    }

    /// Index of the entry for `key`, if there is one.
    fn find(&self, key: &str) -> (r: Option<usize>)
        ensures
            match r {
                Some(i) => i < self.pairs().len() && self.pairs()[i as int].0 == key@,
                None => forall|i: int| 0 <= i < self.pairs().len() ==> (#[trigger] self.pairs()[i]).0 != key@,
            },
    {
        let n = self.entries.len();
        let mut i: usize = 0;
        while i < n
            invariant
                i <= n,
                n == self.entries@.len(),
                n == self.pairs().len(),
                forall|j: int| 0 <= j < i ==> (#[trigger] self.pairs()[j]).0 != key@,
            decreases n - i,
        {
            assert(self.pairs()[i as int].0 == self.entries@[i as int].0@);
            if same_text(self.entries[i].0.as_str(), key) {
                return Some(i);
            }
            i = i + 1;
        }
        None
    }

    /// The value of `key` (`HashMap::get`).
    pub fn get(&self, key: &str) -> (r: Option<&String>)
        ensures
            match r {
                Some(v) => self@.contains_key(key@) && self@[key@] == v@,
                None => !self@.contains_key(key@),
            },
    {
        proof {
            use_type_invariant(self);
        }
        match self.find(key) {
            Some(i) => {
                proof {
                    lemma_lookup(self.pairs(), i as int);
                }
                Some(&self.entries[i].1)
            },
            None => {
                proof {
                    lemma_absent(self.pairs(), key@);
                }
                None
            },
        }
    }

    /// Whether `key` has a value.
    pub fn contains_key(&self, key: &str) -> (b: bool)
        ensures
            b == self@.contains_key(key@),
    {
        self.get(key).is_some()
    }

    /// Sets `key` to `value`, replacing any earlier value (`HashMap::insert`).
    pub fn insert(&mut self, key: String, value: String)
        ensures
            final(self)@ == old(self)@.insert(key@, value@),
    {
        proof {
            use_type_invariant(&*self);
        }
        let ghost old_pairs = self.pairs();
        match self.find(key.as_str()) {
            Some(i) => {
                let ghost kv = key@;
                let ghost vv = value@;
                let mut entries: Vec<(String, String)> = Vec::new();
                std::mem::swap(&mut entries, &mut self.entries);
                assert(self.pairs() =~= Seq::<(Seq<char>, Seq<char>)>::empty());
                entries.set(i, (key, value));
                proof {
                    assert(entries@.map_values(|e: (String, String)| (e.0@, e.1@)) =~= old_pairs.update(
                        i as int,
                        (old_pairs[i as int].0, vv),
                    ));
                    lemma_replace(old_pairs, i as int, vv);
                }
                self.entries = entries;
            },
            None => {
                let ghost kv = key@;
                let ghost vv = value@;
                let mut entries: Vec<(String, String)> = Vec::new();
                std::mem::swap(&mut entries, &mut self.entries);
                assert(self.pairs() =~= Seq::<(Seq<char>, Seq<char>)>::empty());
                entries.push((key, value));
                proof {
                    let np = entries@.map_values(|e: (String, String)| (e.0@, e.1@));
                    assert(np =~= old_pairs.push((kv, vv)));
                    assert(np.drop_last() =~= old_pairs);
                }
                self.entries = entries;
            },
        }
    }

    /// Adds every entry of `other`, its values replacing those of `self` for
    /// names in both (`HashMap::extend`).
    pub fn extend(&mut self, other: EnvMap)
        ensures
            final(self)@ == old(self)@.union_prefer_right(other@),
    {
        proof {
            use_type_invariant(&other);
        }
        let ghost op = other.pairs();
        let ghost start = self@;
        let n = other.entries.len();
        let mut i: usize = 0;
        assert(op.take(0) =~= Seq::<(Seq<char>, Seq<char>)>::empty());
        assert(start.union_prefer_right(Map::empty()) =~= start);
        while i < n
            invariant
                i <= n,
                n == op.len(),
                n == other.entries@.len(),
                op == other.pairs(),
                self@ == start.union_prefer_right(pairs_to_map(op.take(i as int))),
            decreases n - i,
        {
            let k = other.entries[i].0.clone();
            let v = other.entries[i].1.clone();
            let ghost kv = k@;
            let ghost vv = v@;
            assert(kv == op[i as int].0 && vv == op[i as int].1);
            self.insert(k, v);
            proof {
                let t = op.take(i + 1);
                assert(t.drop_last() =~= op.take(i as int));
                assert(t.last() == op[i as int]);
                assert(self@ =~= start.union_prefer_right(pairs_to_map(t)));
            }
            i = i + 1;
        }
        proof {
            assert(op.take(n as int) =~= op);
        }
    }
}

} // verus!
